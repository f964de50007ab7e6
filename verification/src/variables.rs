//! The variable store of a shell session.

use vstd::prelude::*;

verus! {

/// One variable of the session.
struct Variable {
    name: String,
    value: String,
}

/// The state that a shell session carries from one line to the next: a
/// mapping from variable names to values. It is empty when the session
/// starts, and only the `set` builtin writes to it.
pub struct ShellState {
    variables: Vec<Variable>,
}

impl View for ShellState {
    type V = Map<Seq<char>, Seq<char>>;

    /// The mapping that the state stands for.
    closed spec fn view(&self) -> Map<Seq<char>, Seq<char>> {
        Map::new(
            |name: Seq<char>| self.position(name) is Some,
            |name: Seq<char>| self.variables@[self.position(name).unwrap()].value@,
        )
    }
}

impl ShellState {
    /// No name is stored twice, so every name has at most one value.
    #[verifier::type_invariant]
    spec fn names_are_distinct(&self) -> bool {
        forall|i: int, j: int|
            0 <= i < j < self.variables@.len() ==> self.variables@[i].name@
                != self.variables@[j].name@
    }

    /// Where `name` is stored, if it is.
    spec fn position(&self, name: Seq<char>) -> Option<int> {
        if exists|i: int| 0 <= i < self.variables@.len() && self.variables@[i].name@ == name {
            Some(choose|i: int| 0 <= i < self.variables@.len() && self.variables@[i].name@ == name)
        } else {
            None
        }
    }

    /// The state of a new session: no variable is set.
    pub fn new() -> (state: ShellState)
        ensures
            state@ == Map::<Seq<char>, Seq<char>>::empty(),
    {
        let state = ShellState { variables: Vec::new() };
        assert(state@ =~= Map::<Seq<char>, Seq<char>>::empty());
        state
    }

    /// The index at which `name` is stored, or the number of variables where
    /// it is not.
    fn find(&self, name: &String) -> (i: usize)
        ensures
            i <= self.variables@.len(),
            i < self.variables@.len() ==> self.variables@[i as int].name@ == name@
                && self.position(name@) == Some(i as int),
            i == self.variables@.len() ==> self.position(name@) is None,
    {
        proof {
            use_type_invariant(self);
        }
        let mut i: usize = 0;
        while i < self.variables.len()
            invariant
                i <= self.variables@.len(),
                self.names_are_distinct(),
                forall|k: int| 0 <= k < i ==> self.variables@[k].name@ != name@,
            decreases self.variables@.len() - i,
        {
            if self.variables[i].name == *name {
                return i;
            }
            i += 1;
        }
        i
    }

    /// Gives `name` the value `value`, in place of the value it had, if any.
    /// Every other variable keeps its value.
    pub fn set_variable(&mut self, name: &str, value: &str)
        ensures
            final(self)@ == old(self)@.insert(name@, value@),
    {
        let name = name.to_owned();
        let value = value.to_owned();
        let i = self.find(&name);
        proof {
            use_type_invariant(&*self);
        }
        let ghost before = *self;
        let mut variables: Vec<Variable> = Vec::new();
        std::mem::swap(&mut self.variables, &mut variables);
        if i < variables.len() {
            variables.set(i, Variable { name, value });
        } else {
            variables.push(Variable { name, value });
        }
        self.variables = variables;
        proof {
            assert forall|k: Seq<char>| self.position(k) is Some <==> (k == name@ || before.position(
                k,
            ) is Some) by {
                if before.position(k) is Some {
                    let j = before.position(k).unwrap();
                    assert(self.variables@[j].name@ == k);
                }
                if k == name@ {
                    assert(self.variables@[i as int].name@ == k);
                }
            }
            assert forall|k: Seq<char>| self.position(k) is Some implies self.variables@[self.position(
                k,
            ).unwrap()].value@ == (if k == name@ {
                value@
            } else {
                before.variables@[before.position(k).unwrap()].value@
            }) by {
                let j = self.position(k).unwrap();
                if k != name@ {
                    assert(before.variables@[j].name@ == k);
                }
            }
            assert(self@ =~= before@.insert(name@, value@));
        }
    }

    /// The value of `name`, or `None` where it was never set.
    pub fn get_variable(&self, name: &str) -> (value: Option<String>)
        ensures
            value is Some <==> self@.contains_key(name@),
            value is Some ==> value.unwrap()@ == self@[name@],
    {
        let name = name.to_owned();
        let i = self.find(&name);
        if i < self.variables.len() {
            Some(self.variables[i].value.clone())
        } else {
            None
        }
    }
}

} // verus!

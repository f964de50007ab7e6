//! Replacing `$(name)` references by the values of the session's variables.

use crate::text::{chars_of, string_of};
use crate::variables::ShellState;
use vstd::prelude::*;

verus! {

/// What expanding a line gives: the expanded text, and the names that were
/// referred to but are not set, in the order of their references.
pub ghost struct Expanded {
    pub text: Seq<char>,
    pub missing: Seq<Seq<char>>,
}

/// Whether a reference opens at position `i` of `s`: a `$` directly followed
/// by `(`.
pub open spec fn opens_reference(s: Seq<char>, i: int) -> bool {
    0 <= i && i + 1 < s.len() && s[i] == '$' && s[i + 1] == '('
}

/// The end of the variable name that covers position `from` of `s`: the index
/// of the first `)` at or after `from`, or the length of `s` where there is
/// none.
pub open spec fn name_end(s: Seq<char>, from: int) -> int
    decreases s.len() - from,
{
    if 0 <= from < s.len() && s[from] != ')' {
        name_end(s, from + 1)
    } else {
        from
    }
}

/// `name_end` never moves backwards, stays inside the sequence, passes no
/// `)`, and stops at a `)` or at the end.
pub proof fn lemma_name_end(s: Seq<char>, from: int)
    requires
        0 <= from <= s.len(),
    ensures
        from <= name_end(s, from) <= s.len(),
        forall|k: int| from <= k < name_end(s, from) ==> #[trigger] s[k] != ')',
        name_end(s, from) < s.len() ==> s[name_end(s, from)] == ')',
    decreases s.len() - from,
{
    if from < s.len() && s[from] != ')' {
        lemma_name_end(s, from + 1);
    }
}

/// Where reading goes on after a name that ends at `end`: behind the `)` that
/// closes it, or at the end of `s` where the name ran up to it.
pub open spec fn after_name(s: Seq<char>, end: int) -> int {
    if end < s.len() {
        end + 1
    } else {
        end
    }
}

/// The expansion of the part of `s` that starts at position `from`, read from
/// left to right. At `$(` a reference opens; its name runs up to the next `)`,
/// or to the end of `s` where no `)` follows. The reference is replaced by
/// the value of that name, or by nothing when the name is not set, in which
/// case the name is recorded as missing. A value is taken as it is: what it
/// holds is not expanded again. Every other character, a `$` that opens no
/// reference included, stands for itself.
pub open spec fn expansion_from(vars: Map<Seq<char>, Seq<char>>, s: Seq<char>, from: int) -> Expanded
    decreases s.len() - from,
{
    if from < 0 || from >= s.len() {
        Expanded { text: Seq::empty(), missing: Seq::empty() }
    } else if opens_reference(s, from) {
        proof {
            lemma_name_end(s, from + 2);
        }
        let end = name_end(s, from + 2);
        let name = s.subrange(from + 2, end);
        let rest = expansion_from(vars, s, after_name(s, end));
        if vars.contains_key(name) {
            Expanded { text: vars[name] + rest.text, missing: rest.missing }
        } else {
            Expanded { text: rest.text, missing: seq![name] + rest.missing }
        }
    } else {
        let rest = expansion_from(vars, s, from + 1);
        Expanded { text: seq![s[from]] + rest.text, missing: rest.missing }
    }
}

/// The expansion of the line `s` under the variables `vars`.
pub open spec fn expansion(vars: Map<Seq<char>, Seq<char>>, s: Seq<char>) -> Expanded {
    expansion_from(vars, s, 0)
}

/// Whether no reference opens anywhere in `s`: `s` does not hold `$(`.
pub open spec fn has_no_reference(s: Seq<char>) -> bool {
    forall|i: int| !opens_reference(s, i)
}

/// Characters in front of the first reference stand for themselves: where no
/// reference opens in `s` from position `from` up to position `to`, the
/// expansion from `from` is that stretch of `s` followed by the expansion
/// from `to`.
pub proof fn lemma_expansion_keeps_plain_text(
    vars: Map<Seq<char>, Seq<char>>,
    s: Seq<char>,
    from: int,
    to: int,
)
    requires
        0 <= from <= to <= s.len(),
        forall|i: int| from <= i < to ==> !opens_reference(s, i),
    ensures
        expansion_from(vars, s, from).text == s.subrange(from, to) + expansion_from(
            vars,
            s,
            to,
        ).text,
        expansion_from(vars, s, from).missing == expansion_from(vars, s, to).missing,
    decreases to - from,
{
    if from < to {
        lemma_expansion_keeps_plain_text(vars, s, from + 1, to);
        assert(seq![s[from]] + (s.subrange(from + 1, to) + expansion_from(vars, s, to).text)
            =~= s.subrange(from, to) + expansion_from(vars, s, to).text);
    } else {
        assert(s.subrange(from, to) + expansion_from(vars, s, to).text =~= expansion_from(
            vars,
            s,
            to,
        ).text);
    }
}

/// On a line that does not hold `$(`, expansion is the identity, whatever
/// the variables are: the text comes back unchanged and no name is missing.
pub proof fn lemma_expansion_is_identity_without_reference(
    vars: Map<Seq<char>, Seq<char>>,
    s: Seq<char>,
)
    requires
        has_no_reference(s),
    ensures
        expansion(vars, s) == (Expanded { text: s, missing: Seq::empty() }),
{
    lemma_expansion_keeps_plain_text(vars, s, 0, s.len() as int);
    assert(s.subrange(0, s.len() as int) + Seq::<char>::empty() =~= s);
}

/// A name that holds no `)` ends at the first position behind it: at the `)`
/// that follows it, or at the end of the line where it is not closed.
pub proof fn lemma_name_end_is_first_close(s: Seq<char>, from: int, end: int)
    requires
        0 <= from <= end <= s.len(),
        forall|k: int| from <= k < end ==> s[k] != ')',
        end < s.len() ==> s[end] == ')',
    ensures
        name_end(s, from) == end,
    decreases end - from,
{
    if from < end {
        lemma_name_end_is_first_close(s, from + 1, end);
    }
}

/// The line made of `prefix`, a reference to `name`, and the `)` that closes
/// the reference if `closed` says so.
pub open spec fn line_with_last_reference(
    prefix: Seq<char>,
    name: Seq<char>,
    closed: bool,
) -> Seq<char> {
    prefix + seq!['$', '('] + name + if closed {
        seq![')']
    } else {
        Seq::empty()
    }
}

/// A line that ends with its only reference, closed or left open, expands to
/// what stands in front of the reference followed by the value of the name,
/// when the name is set; when it is not, to what stands in front of the
/// reference alone, with the name reported as missing once. The name of a
/// reference that is left open is all that follows `$(`; it is empty when
/// nothing does.
pub proof fn lemma_expansion_of_last_reference(
    vars: Map<Seq<char>, Seq<char>>,
    prefix: Seq<char>,
    name: Seq<char>,
    closed: bool,
)
    requires
        has_no_reference(prefix),
        forall|i: int| 0 <= i < name.len() ==> name[i] != ')',
    ensures
        expansion(vars, line_with_last_reference(prefix, name, closed)) == if vars.contains_key(
            name,
        ) {
            Expanded { text: prefix + vars[name], missing: Seq::empty() }
        } else {
            Expanded { text: prefix, missing: seq![name] }
        },
{
    let s = line_with_last_reference(prefix, name, closed);
    let open = prefix.len() as int;
    let end = open + 2 + name.len();
    assert forall|i: int| 0 <= i < open implies !opens_reference(s, i) by {
        assert(s[i] == prefix[i]);
        assert(!opens_reference(prefix, i));
        if i + 1 < open {
            assert(s[i + 1] == prefix[i + 1]);
        } else {
            assert(s[i + 1] == '$');
        }
    }
    lemma_expansion_keeps_plain_text(vars, s, 0, open);
    assert(s.subrange(0, open) =~= prefix);
    assert(opens_reference(s, open));
    lemma_name_end_is_first_close(s, open + 2, end);
    assert(s.subrange(open + 2, end) =~= name);
    let rest = expansion_from(vars, s, after_name(s, end));
    assert(rest.text =~= Seq::<char>::empty() && rest.missing =~= Seq::<Seq<char>>::empty());
    if vars.contains_key(name) {
        assert(prefix + (vars[name] + rest.text) =~= prefix + vars[name]);
    } else {
        assert(prefix + rest.text =~= prefix);
        assert(seq![name] + rest.missing =~= seq![name]);
    }
}

/// A line that is one closed reference, `$(name)`, expands to the value of
/// `name` when it is set, and to the empty text with `name` reported as
/// missing when it is not.
pub proof fn lemma_expansion_of_one_reference(vars: Map<Seq<char>, Seq<char>>, name: Seq<char>)
    requires
        forall|i: int| 0 <= i < name.len() ==> name[i] != ')',
    ensures
        expansion(vars, seq!['$', '('] + name + seq![')']) == if vars.contains_key(name) {
            Expanded { text: vars[name], missing: Seq::empty() }
        } else {
            Expanded { text: Seq::empty(), missing: seq![name] }
        },
{
    let prefix = Seq::<char>::empty();
    lemma_expansion_of_last_reference(vars, prefix, name, true);
    assert(line_with_last_reference(prefix, name, true) =~= seq!['$', '('] + name + seq![')']);
    if vars.contains_key(name) {
        assert(prefix + vars[name] =~= vars[name]);
    }
}

/// An expanded line, as `expand_variables` returns it.
#[derive(Debug, Clone, PartialEq, Eq)]
pub struct Expansion {
    /// The line with every reference replaced.
    pub text: String,
    /// The names that were referred to but are not set, one entry for each
    /// such reference, in the order of the references.
    pub missing: Vec<String>,
}

impl View for Expansion {
    type V = Expanded;

    open spec fn view(&self) -> Expanded {
        Expanded { text: self.text@, missing: self.missing.deep_view() }
    }
}

/// Expands the references of `command` under the variables of `state`. The
/// expansion never fails: a reference to a name that is not set is replaced
/// by nothing and the name is handed back in `missing`, for the caller to
/// report.
pub fn expand_variables(state: &ShellState, command: &str) -> (r: Expansion)
    ensures
        r@ == expansion(state@, command@),
        has_no_reference(command@) ==> r.text@ == command@ && r.missing@.len() == 0,
{
    proof {
        if has_no_reference(command@) {
            lemma_expansion_is_identity_without_reference(state@, command@);
        }
    }
    let chars = chars_of(command);
    let n = chars.len();
    let mut text = String::new();
    let mut missing: Vec<String> = Vec::new();
    let mut i: usize = 0;
    while i < n
        invariant
            n == chars.len(),
            chars@ == command@,
            i <= n,
            expansion(state@, command@).text == text@ + expansion_from(
                state@,
                command@,
                i as int,
            ).text,
            expansion(state@, command@).missing == missing.deep_view() + expansion_from(
                state@,
                command@,
                i as int,
            ).missing,
        decreases n - i,
    {
        let ghost rest_before = expansion_from(state@, command@, i as int);
        let ghost text_before = text@;
        let ghost missing_before = missing.deep_view();
        if chars[i] == '$' && i + 1 < n && chars[i + 1] == '(' {
            let start = i + 2;
            let mut end = start;
            while end < n && chars[end] != ')'
                invariant
                    n == chars.len(),
                    chars@ == command@,
                    start <= end <= n,
                    name_end(command@, start as int) == name_end(command@, end as int),
                decreases n - end,
            {
                end += 1;
            }
            let name = string_of(&chars, start, end);
            let ghost rest_after = expansion_from(state@, command@, after_name(command@, end as int));
            match state.get_variable(name.as_str()) {
                Some(value) => {
                    text.append(value.as_str());
                    proof {
                        assert(text_before + rest_before.text =~= text@ + rest_after.text);
                    }
                },
                None => {
                    missing.push(name);
                    proof {
                        assert(missing.deep_view() =~= missing_before.push(name@));
                        assert(missing_before + rest_before.missing =~= missing.deep_view()
                            + rest_after.missing);
                    }
                },
            }
            if end < n {
                i = end + 1;
            } else {
                i = end;
            }
        } else {
            text.push(chars[i]);
            i += 1;
            proof {
                let rest_after = expansion_from(state@, command@, i as int);
                assert(text_before + rest_before.text =~= text@ + rest_after.text);
            }
        }
    }
    proof {
        assert(text@ + Seq::<char>::empty() =~= text@);
        assert(missing.deep_view() + Seq::<Seq<char>>::empty() =~= missing.deep_view());
    }
    Expansion { text, missing }
}

} // verus!

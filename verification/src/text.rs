//! Characters and strings: the whitespace predicate and the conversions
//! between `&str`, `Vec<char>` and `String` that the other modules build on.

use vstd::prelude::*;

verus! {

/// Whether `c` is a Unicode white space character: the code points with the
/// `White_Space` property.
pub open spec fn is_space(c: char) -> bool {
    let n = c as u32;
    ||| 0x0009 <= n <= 0x000D
    ||| n == 0x0020
    ||| n == 0x0085
    ||| n == 0x00A0
    ||| n == 0x1680
    ||| 0x2000 <= n <= 0x200A
    ||| n == 0x2028
    ||| n == 0x2029
    ||| n == 0x202F
    ||| n == 0x205F
    ||| n == 0x3000
}

/// Tests `c` for white space.
pub fn is_whitespace(c: char) -> (r: bool)
    ensures
        r == is_space(c),
{
    let n: u32 = c as u32;
    if n < 0x0080 {
        (0x0009 <= n && n <= 0x000D) || n == 0x0020
    } else {
        n == 0x0085 || n == 0x00A0 || n == 0x1680 || (0x2000 <= n && n <= 0x200A) || n == 0x2028
            || n == 0x2029 || n == 0x202F || n == 0x205F || n == 0x3000
    }
}

/// `String::push` appends one character to the end of the string and leaves
/// the characters before it as they were. The contract is not proved: it
/// restates the standard library's documentation of the method.
pub assume_specification[ String::push ](s: &mut String, c: char)
    ensures
        final(s)@ == old(s)@.push(c),
;

/// The characters of `s`, in order.
pub fn chars_of(s: &str) -> (v: Vec<char>)
    ensures
        v@ == s@,
{
    let mut v: Vec<char> = Vec::new();
    for c in it: s.chars()
        invariant
            it.seq() == s@,
            v@ == it.seq().take(it.index()),
    {
        v.push(c);
    }
    v
}

/// The string made of `chars[from..to]`.
pub fn string_of(chars: &Vec<char>, from: usize, to: usize) -> (s: String)
    requires
        from <= to <= chars.len(),
    ensures
        s@ == chars@.subrange(from as int, to as int),
{
    let mut s = String::new();
    let mut i: usize = from;
    while i < to
        invariant
            from <= i <= to <= chars.len(),
            s@ == chars@.subrange(from as int, i as int),
        decreases to - i,
    {
        s.push(chars[i]);
        i += 1;
    }
    s
}

/// Where the content of `s` starts when reading from position `from`: the
/// index of the first character at or after `from` that is not white space,
/// or the length of `s` where there is none.
pub open spec fn content_start(s: Seq<char>, from: int) -> int
    decreases s.len() - from,
{
    if 0 <= from < s.len() && is_space(s[from]) {
        content_start(s, from + 1)
    } else {
        from
    }
}

/// Where the content of `s` ends when reading backwards from position `to`:
/// the index behind the last character in front of `to` that is not white
/// space, or 0 where there is none.
pub open spec fn content_end(s: Seq<char>, to: int) -> int
    decreases to,
{
    if 0 < to <= s.len() && is_space(s[to - 1]) {
        content_end(s, to - 1)
    } else {
        to
    }
}

/// `s` without the white space at its two ends.
pub open spec fn trimmed(s: Seq<char>) -> Seq<char> {
    let start = content_start(s, 0);
    let end = content_end(s, s.len() as int);
    if start < end {
        s.subrange(start, end)
    } else {
        Seq::empty()
    }
}

/// Content starts no earlier than where reading starts and no later than at
/// the end, behind white space only, and in front of a character that is not
/// white space, if it starts at all.
pub proof fn lemma_content_start(s: Seq<char>, from: int)
    requires
        0 <= from <= s.len(),
    ensures
        from <= content_start(s, from) <= s.len(),
        forall|k: int| from <= k < content_start(s, from) ==> is_space(#[trigger] s[k]),
        content_start(s, from) < s.len() ==> !is_space(s[content_start(s, from)]),
    decreases s.len() - from,
{
    if from < s.len() && is_space(s[from]) {
        lemma_content_start(s, from + 1);
    }
}

/// Content ends no later than where reading backwards starts, in front of
/// white space only, and behind a character that is not white space, if
/// there is content at all.
pub proof fn lemma_content_end(s: Seq<char>, to: int)
    requires
        0 <= to <= s.len(),
    ensures
        0 <= content_end(s, to) <= to,
        forall|k: int| content_end(s, to) <= k < to ==> is_space(#[trigger] s[k]),
        content_end(s, to) > 0 ==> !is_space(s[content_end(s, to) - 1]),
    decreases to,
{
    if 0 < to && is_space(s[to - 1]) {
        lemma_content_end(s, to - 1);
    }
}

/// Trimming leaves nothing of a blank line.
pub proof fn lemma_trimmed_blank_is_empty(s: Seq<char>)
    requires
        forall|i: int| 0 <= i < s.len() ==> is_space(#[trigger] s[i]),
    ensures
        trimmed(s) == Seq::<char>::empty(),
{
    lemma_content_start(s, 0);
    lemma_content_end(s, s.len() as int);
}

/// What trimming leaves neither starts nor ends with white space.
pub proof fn lemma_trimmed_has_no_space_at_its_ends(s: Seq<char>)
    ensures
        trimmed(s).len() > 0 ==> !is_space(trimmed(s).first()) && !is_space(trimmed(s).last()),
{
    lemma_content_start(s, 0);
    lemma_content_end(s, s.len() as int);
}

/// `line` without the white space at its two ends.
pub fn trim(line: &str) -> (r: String)
    ensures
        r@ == trimmed(line@),
{
    let chars = chars_of(line);
    let mut start: usize = 0;
    while start < chars.len() && is_whitespace(chars[start])
        invariant
            start <= chars.len(),
            content_start(chars@, 0) == content_start(chars@, start as int),
        decreases chars.len() - start,
    {
        start += 1;
    }
    let mut end: usize = chars.len();
    while end > 0 && is_whitespace(chars[end - 1])
        invariant
            end <= chars.len(),
            content_end(chars@, chars.len() as int) == content_end(chars@, end as int),
        decreases end,
    {
        end -= 1;
    }
    if start < end {
        string_of(&chars, start, end)
    } else {
        String::new()
    }
}

/// The decimal digit that stands for `d`, for `d` from 0 to 9.
pub open spec fn digit(d: int) -> char {
    (48 + d) as char
}

/// The decimal digits of `n`, most significant first, without leading zeros.
pub open spec fn decimal_digits(n: nat) -> Seq<char>
    decreases n,
{
    if n < 10 {
        seq![digit(n as int)]
    } else {
        decimal_digits(n / 10).push(digit((n % 10) as int))
    }
}

/// The decimal notation of `n`, with a minus sign in front when `n` is
/// negative.
pub open spec fn decimal(n: int) -> Seq<char> {
    if n < 0 {
        seq!['-'] + decimal_digits((-n) as nat)
    } else {
        decimal_digits(n as nat)
    }
}

/// Appends the decimal digits of `n` to `out`.
fn push_decimal_digits(out: &mut String, n: u32)
    ensures
        final(out)@ == old(out)@ + decimal_digits(n as nat),
    decreases n,
{
    if n >= 10 {
        push_decimal_digits(out, n / 10);
    }
    let d: u8 = (n % 10) as u8;
    out.push((48u8 + d) as char);
    assert(out@ =~= old(out)@ + decimal_digits(n as nat));
}

/// Appends the decimal notation of `n` to `out`.
pub fn push_decimal(out: &mut String, n: i32)
    ensures
        final(out)@ == old(out)@ + decimal(n as int),
{
    if n < 0 {
        out.push('-');
        let m: u32 = (-(n as i64)) as u32;
        push_decimal_digits(out, m);
        assert(out@ =~= old(out)@ + decimal(n as int));
    } else {
        push_decimal_digits(out, n as u32);
    }
}

} // verus!

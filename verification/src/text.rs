//! Character-level helpers shared by the document value objects.
use vstd::prelude::*;

verus! {

/// An ASCII decimal digit.
pub open spec fn is_digit_char(c: char) -> bool {
    '0' <= c && c <= '9'
}

/// Every character of `s` is an ASCII digit.
pub open spec fn all_digits(s: Seq<char>) -> bool {
    forall|i: int| 0 <= i < s.len() ==> #[trigger] is_digit_char(s[i])
}

/// Every character of `s` equals its first character.
pub open spec fn all_same(s: Seq<char>) -> bool {
    forall|i: int| 0 <= i < s.len() ==> #[trigger] s[i] == s[0]
}

/// The numeric value of a digit character.
pub open spec fn digit_value(c: char) -> int {
    c as int - '0' as int
}

/// The numeric values of the characters of `s`.
pub open spec fn digit_values(s: Seq<char>) -> Seq<int> {
    s.map_values(|c: char| digit_value(c))
}

/// A sequence of machine integers read as mathematical integers.
pub open spec fn as_ints(v: Seq<u32>) -> Seq<int> {
    v.map_values(|x: u32| x as int)
}

/// The characters of `s` that are ASCII digits, in their order.
pub open spec fn only_digits(s: Seq<char>) -> Seq<char>
    decreases s.len(),
{
    if s.len() == 0 {
        Seq::empty()
    } else if is_digit_char(s.last()) {
        only_digits(s.drop_last()).push(s.last())
    } else {
        only_digits(s.drop_last())
    }
}

/// What `only_digits` keeps is made of digits, and is no longer than its input.
pub proof fn lemma_only_digits_are_digits(s: Seq<char>)
    ensures
        all_digits(only_digits(s)),
        only_digits(s).len() <= s.len(),
    decreases s.len(),
{
    if s.len() > 0 {
        lemma_only_digits_are_digits(s.drop_last());
    }
}

/// A sequence made of digits is kept whole by `only_digits`.
pub proof fn lemma_only_digits_of_digits(s: Seq<char>)
    requires
        all_digits(s),
    ensures
        only_digits(s) == s,
    decreases s.len(),
{
    if s.len() > 0 {
        assert(is_digit_char(s[s.len() - 1]));
        lemma_only_digits_of_digits(s.drop_last());
        assert(s.drop_last().push(s.last()) =~= s);
    }
}

/// `only_digits` distributes over concatenation.
pub proof fn lemma_only_digits_concat(a: Seq<char>, b: Seq<char>)
    ensures
        only_digits(a + b) == only_digits(a) + only_digits(b),
    decreases b.len(),
{
    if b.len() == 0 {
        assert(a + b =~= a);
        assert(only_digits(a) + only_digits(b) =~= only_digits(a));
    } else {
        lemma_only_digits_concat(a, b.drop_last());
        assert((a + b).drop_last() =~= a + b.drop_last());
        assert((a + b).last() == b.last());
        assert((only_digits(a) + only_digits(b.drop_last())).push(b.last()) =~= only_digits(a)
            + only_digits(b.drop_last()).push(b.last()));
    }
}

/// A single character that is not a digit contributes nothing to `only_digits`.
pub proof fn lemma_only_digits_separator(c: char)
    requires
        !is_digit_char(c),
    ensures
        only_digits(seq![c]) == Seq::<char>::empty(),
{
    reveal_with_fuel(only_digits, 2);
    assert(seq![c].drop_last() =~= Seq::<char>::empty());
    assert(seq![c].last() == c);
}

/// Appends `c` to `s` (`String::push`).
#[verifier::external_body]
pub(crate) fn push_char(s: &mut String, c: char)
    ensures
        final(s)@ == old(s)@.push(c),
{
    s.push(c);
}

/// The ASCII digits of `value`, in order; every other character is dropped.
pub fn digits_only(value: &str) -> (r: String)
    ensures
        r@ == only_digits(value@),
{
    let mut r = String::new();
    let ghost s = value@;
    for c in it: value.chars()
        invariant
            it.seq() == s,
            r@ == only_digits(s.take(it.index() as int)),
    {
        assert(s.take(it.index() + 1).drop_last() == s.take(it.index() as int));
        if '0' <= c && c <= '9' {
            push_char(&mut r, c);
        }
    }
    assert(s.take(s.len() as int) == s);
    r
}

/// Whether every character of the non-empty `s` equals its first.
pub fn is_all_equal(s: &str) -> (r: bool)
    requires
        s@.len() > 0,
    ensures
        r == all_same(s@),
{
    let first = s.get_char(0);
    let ghost v = s@;
    for c in it: s.chars()
        invariant
            it.seq() == v,
            v == s@,
            v.len() > 0,
            first == v[0],
            forall|j: int| 0 <= j < it.index() ==> #[trigger] v[j] == v[0],
    {
        if c != first {
            assert(0 <= it.index() < v.len());
            assert(v[it.index() as int] != v[0]);
            assert(!all_same(v));
            return false;
        }
    }
    true
}

/// The numeric values of the digits of `s`.
pub fn to_digit_values(s: &str) -> (r: Vec<u32>)
    requires
        all_digits(s@),
    ensures
        as_ints(r@) == digit_values(s@),
        forall|i: int| 0 <= i < r@.len() ==> #[trigger] r@[i] <= 9,
{
    let mut r: Vec<u32> = Vec::new();
    let ghost v = s@;
    for c in it: s.chars()
        invariant
            it.seq() == v,
            all_digits(v),
            r@.len() == it.index(),
            forall|j: int| 0 <= j < it.index() ==> #[trigger] r@[j] == digit_value(v[j]),
            forall|j: int| 0 <= j < it.index() ==> #[trigger] r@[j] <= 9,
    {
        assert(is_digit_char(v[it.index() as int]));
        let d: u32 = (c as u32) - ('0' as u32);
        r.push(d);
    }
    assert(as_ints(r@) =~= digit_values(v));
    r
}

/// Whether `a` and `b` hold the same characters.
pub fn str_equals(a: &str, b: &str) -> (r: bool)
    ensures
        r == (a@ == b@),
{
    let x = a.to_owned();
    let y = b.to_owned();
    x == y
}

} // verus!

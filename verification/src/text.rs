//! Text helpers shared by the naming and schema modules.

use vstd::prelude::*;

verus! {

/// What `str::to_lowercase` yields on a text.
pub uninterp spec fn lowercase_text(s: Seq<char>) -> Seq<char>;

/// Calls `str::to_lowercase`. Believed without proof: the result depends
/// on the characters alone, so that `lowercase_text` names it.
#[verifier::external_body]
pub(crate) fn lowercase(s: &str) -> (r: String)
    ensures
        r@ == lowercase_text(s@),
{
    s.to_lowercase()
}

/// True for the characters that decorate a type signature: `[`, `]` and `!`.
pub open spec fn is_decoration(c: char) -> bool {
    c == '[' || c == ']' || c == '!'
}

/// True for the two list brackets.
pub open spec fn is_bracket(c: char) -> bool {
    c == '[' || c == ']'
}

/// The text without its `!` characters, and without its brackets too where
/// `brackets` is set; the other characters keep their order.
pub open spec fn stripped(s: Seq<char>, brackets: bool) -> Seq<char>
    decreases s.len(),
{
    if s.len() == 0 {
        Seq::empty()
    } else if s.last() == '!' || (brackets && is_bracket(s.last())) {
        stripped(s.drop_last(), brackets)
    } else {
        stripped(s.drop_last(), brackets).push(s.last())
    }
}

/// How many list brackets a text holds.
pub open spec fn bracket_count(s: Seq<char>) -> nat
    decreases s.len(),
{
    if s.len() == 0 {
        0
    } else if is_bracket(s.last()) {
        bracket_count(s.drop_last()) + 1
    } else {
        bracket_count(s.drop_last())
    }
}

/// Removes `!`, and the list brackets where `brackets` is set.
pub fn strip(s: &str, brackets: bool) -> (r: String)
    ensures
        r@ == stripped(s@, brackets),
{
    let n = s.unicode_len();
    let mut out = String::new();
    let mut i: usize = 0;
    while i < n
        invariant
            n == s@.len(),
            i <= n,
            out@ == stripped(s@.take(i as int), brackets),
        decreases n - i,
    {
        let c = s.get_char(i);
        proof {
            assert(s@.take(i + 1).drop_last() =~= s@.take(i as int));
            assert(s@.take(i + 1).last() == c);
        }
        if !(c == '!' || (brackets && (c == '[' || c == ']'))) {
            let one = s.substring_char(i, i + 1);
            assert(one@ =~= seq![c]);
            out.append(one);
            assert(out@ =~= stripped(s@.take(i as int), brackets).push(c));
        }
        i = i + 1;
    }
    assert(s@.take(n as int) =~= s@);
    out
}

/// Counts the list brackets of a text.
pub fn count_brackets(s: &str) -> (r: usize)
    ensures
        r == bracket_count(s@),
{
    let n = s.unicode_len();
    let mut count: usize = 0;
    let mut i: usize = 0;
    while i < n
        invariant
            n == s@.len(),
            i <= n,
            count == bracket_count(s@.take(i as int)),
            count <= i,
        decreases n - i,
    {
        let c = s.get_char(i);
        proof {
            assert(s@.take(i + 1).drop_last() =~= s@.take(i as int));
            assert(s@.take(i + 1).last() == c);
        }
        if c == '[' || c == ']' {
            count = count + 1;
        }
        i = i + 1;
    }
    assert(s@.take(n as int) =~= s@);
    count
}

/// Whether two texts hold the same characters.
pub fn same_text(a: &str, b: &str) -> (r: bool)
    ensures
        r == (a@ == b@),
{
    let x = String::from_str(a);
    let y = String::from_str(b);
    x == y
}

} // verus!

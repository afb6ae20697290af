//! Text operations the bot's replies are made of.

use vstd::prelude::*;

verus! {

/// What `str::to_lowercase` makes of a text (Unicode lowercase mapping).
pub uninterp spec fn lowercase(s: Seq<char>) -> Seq<char>;

/// `needle` occurs in `hay` as a run of consecutive characters.
pub open spec fn contains_text(hay: Seq<char>, needle: Seq<char>) -> bool {
    exists|i: int|
        0 <= i && i + needle.len() <= hay.len() && #[trigger] hay.subrange(i, i + needle.len())
            == needle
}

/// The decimal digits of `n`, most significant first, without leading zeros.
pub open spec fn nat_digits(n: nat) -> Seq<char>
    decreases n,
{
    if n < 10 {
        seq![((n + 48) as char)]
    } else {
        nat_digits(n / 10) + seq![(((n % 10) + 48) as char)]
    }
}

/// `v` in decimal, with a leading `-` when negative.
pub open spec fn int_text(v: int) -> Seq<char> {
    if v < 0 {
        seq!['-'] + nat_digits((-v) as nat)
    } else {
        nat_digits(v as nat)
    }
}

/// `str::to_lowercase`: the text in lower case, as named by `lowercase`.
#[verifier::external_body]
pub(crate) fn to_lowercase(s: &str) -> (res: String)
    ensures
        res@ == lowercase(s@),
{
    s.to_lowercase()
}

/// `str::contains` with a text pattern: whether `needle` occurs in `hay`.
#[verifier::external_body]
pub(crate) fn str_contains(hay: &str, needle: &str) -> (res: bool)
    ensures
        res == contains_text(hay@, needle@),
{
    hay.contains(needle)
}

/// `str::split_once("/")`: the text before and after the first `/`, or
/// `None` where there is no `/`.
#[verifier::external_body]
pub(crate) fn split_once_slash(s: &str) -> (res: Option<(String, String)>)
    ensures
        res is None <==> !s@.contains('/'),
        res matches Some((a, b)) ==> s@ == a@ + seq!['/'] + b@ && !a@.contains('/'),
{
    match s.split_once("/") {
        Some((a, b)) => Some((a.to_string(), b.to_string())),
        None => None,
    }
}

/// `ToString::to_string` on an `i64`: its decimal text.
#[verifier::external_body]
pub(crate) fn i64_to_text(v: i64) -> (res: String)
    ensures
        res@ == int_text(v as int),
{
    v.to_string()
}

/// Whether the two texts are equal.
pub fn same_text(a: &str, b: &str) -> (res: bool)
    ensures
        res == (a@ == b@),
{
    a.to_owned() == b.to_owned()
}

/// Whether `s` is `a` or `b`.
pub fn is_either(s: &str, a: &str, b: &str) -> (res: bool)
    ensures
        res == (s@ == a@ || s@ == b@),
{
    let t = s.to_owned();
    t == a.to_owned() || t == b.to_owned()
}

} // verus!

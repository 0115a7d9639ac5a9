use vstd::prelude::*;

verus! {

/// What `str::to_lowercase` returns for a string: Unicode lowercase mapping
/// (a character may map to several, and a final sigma depends on its context).
pub uninterp spec fn lowercase(s: Seq<char>) -> Seq<char>;

/// Whether `char::is_alphanumeric` holds: the Unicode `Alphabetic` or
/// `Numeric` property.
pub uninterp spec fn alphanumeric(c: char) -> bool;

/// `str::to_lowercase`; its result is named by `lowercase`, a function of the
/// text alone.
#[verifier::external_body]
pub(crate) fn to_lowercase(s: &str) -> (r: String)
    ensures
        r@ == lowercase(s@),
{
    s.to_lowercase()
}

/// `char::is_alphanumeric`; its result is named by `alphanumeric`, a function
/// of the character alone.
#[verifier::external_body]
pub(crate) fn is_alphanumeric(c: char) -> (r: bool)
    ensures
        r == alphanumeric(c),
{
    c.is_alphanumeric()
}

} // verus!

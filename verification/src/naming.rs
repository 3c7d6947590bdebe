//! The names of the items that are generated around a handler function.

use stringcase::Caser;
use vstd::prelude::*;

verus! {

/// The Pascal-case form of a text: the result of `Caser::to_pascal_case` of
/// the `stringcase` crate. It keeps ASCII letters and digits, begins each word
/// with an upper-case letter and drops what stands between the words.
pub uninterp spec fn pascal_form(s: Seq<char>) -> Seq<char>;

/// `Caser::to_pascal_case` returns the Pascal-case form of the text, which
/// depends on the text alone.
#[verifier::external_body]
fn to_pascal(name: &str) -> (r: String)
    ensures
        r@ == pascal_form(name@),
{
    name.to_pascal_case()
}

/// The text `stem` followed by `suffix`.
pub fn with_suffix(stem: &str, suffix: &str) -> (r: String)
    ensures
        r@ == stem@ + suffix@,
{
    let mut r = stem.to_owned();
    r.append(suffix);
    r
}

/// The name of the handler type for a function: the Pascal-case form of the
/// function's name, followed by `Handler`.
pub fn handler_type_name(function: &str) -> (r: String)
    ensures
        r@ == pascal_form(function@) + "Handler"@,
{
    let stem = to_pascal(function);
    with_suffix(stem.as_str(), "Handler")
}

/// The name of the function that registers the handler of a function: the
/// function's name, followed by `_registration`.
pub fn registration_name(function: &str) -> (r: String)
    ensures
        r@ == function@ + "_registration"@,
{
    with_suffix(function, "_registration")
}

} // verus!

//! Names and path segments of the fields of a layer's attribute tree.

use vstd::prelude::*;
use vstd::string::StrSliceExecFns;

verus! {

/// What inflector's `to_camel_case` makes of a string.
pub uninterp spec fn camel_case_of(s: Seq<char>) -> Seq<char>;

/// What inflector's `to_title_case` makes of a string.
pub uninterp spec fn title_case_of(s: Seq<char>) -> Seq<char>;

/// Relies on `inflector::cases::camelcase::to_camel_case`: the result
/// depends on the characters alone.
#[verifier::external_body]
fn camel_case(s: &str) -> (r: String)
    ensures
        r@ == camel_case_of(s@),
{
    inflector::cases::camelcase::to_camel_case(s)
}

/// Relies on `inflector::cases::titlecase::to_title_case`: the result
/// depends on the characters alone.
#[verifier::external_body]
fn title_case(s: &str) -> (r: String)
    ensures
        r@ == title_case_of(s@),
{
    inflector::cases::titlecase::to_title_case(s)
}

/// The display name of a field: the name its documentation gives, or else
/// its identifier in title case.
pub fn field_name(doc_name: &str, ident: &str) -> (r: String)
    ensures
        doc_name@.len() == 0 ==> r@ == title_case_of(ident@),
        doc_name@.len() > 0 ==> r@ == doc_name@,
{
    if doc_name.unicode_len() == 0 {
        title_case(ident)
    } else {
        doc_name.to_owned()
    }
}

/// Whether `s` is the identifier `_self`, which stands for the parent field
/// itself.
pub fn is_self_ident(s: &str) -> (r: bool)
    ensures
        r == (s@ == "_self"@),
{
    proof {
        reveal_strlit("_self");
    }
    if s.unicode_len() != 5 {
        return false;
    }
    let r = s.get_char(0) == '_' && s.get_char(1) == 's' && s.get_char(2) == 'e' && s.get_char(3)
        == 'l' && s.get_char(4) == 'f';
    if r {
        assert(s@ =~= "_self"@);
    }
    r
}

/// The path segment that a field adds under its parent: none for `_self`,
/// otherwise its identifier in camel case.
pub fn field_segment(ident: &str) -> (r: Option<String>)
    ensures
        ident@ == "_self"@ ==> r is None,
        ident@ != "_self"@ ==> (r matches Some(s) && s@ == camel_case_of(ident@)),
{
    if is_self_ident(ident) {
        None
    } else {
        Some(camel_case(ident))
    }
}

} // verus!

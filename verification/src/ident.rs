//! Identifier conversion between naming conventions, and escaping of
//! identifiers that collide with reserved words of the target language.

use vstd::prelude::*;

verus! {

/// The snake_case form of a character sequence. The conversion depends on
/// the characters alone, so its result is given this name rather than being
/// restated here.
pub uninterp spec fn snake_of(s: Seq<char>) -> Seq<char>;

/// The lowerCamelCase form of a character sequence; a function of the
/// characters alone.
pub uninterp spec fn lower_camel_of(s: Seq<char>) -> Seq<char>;

/// Relies on heck's ToSnakeCase for str: joins the words of the identifier
/// with underscores and lower-cases them, a pure function of the input.
#[verifier::external_body]
pub(crate) fn to_snake(s: &str) -> (r: String)
    ensures
        r@ == snake_of(s@),
{
    heck::ToSnakeCase::to_snake_case(s)
}

/// Relies on heck's ToLowerCamelCase for str: capitalizes each word after
/// the first and removes the separators, a pure function of the input.
#[verifier::external_body]
pub(crate) fn to_lower_camel(s: &str) -> (r: String)
    ensures
        r@ == lower_camel_of(s@),
{
    heck::ToLowerCamelCase::to_lower_camel_case(s)
}

/// The declaration-safe form of an identifier: the reserved word `test`
/// gains a trailing underscore, anything else becomes snake_case.
pub open spec fn spec_zig_ident(s: Seq<char>) -> Seq<char> {
    if s == "test"@ {
        "test_"@
    } else {
        snake_of(s)
    }
}

/// Converts an identifier to the form used for Zig declarations.
pub fn to_zig_ident(s: &str) -> (r: String)
    ensures
        r@ == spec_zig_ident(s@),
{
    let owned = String::from_str(s);
    let kw = String::from_str("test");
    if owned == kw {
        String::from_str("test_")
    } else {
        to_snake(s)
    }
}

} // verus!

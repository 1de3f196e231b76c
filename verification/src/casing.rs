//! Case normalization of identifier names, delegated to the `heck` crate.

use vstd::prelude::*;

verus! {

/// The snake_case form of a name, as heck's `ToSnakeCase` computes it.
pub uninterp spec fn snake_of(s: Seq<char>) -> Seq<char>;

/// The PascalCase form of a name, as heck's `ToPascalCase` computes it.
pub uninterp spec fn pascal_of(s: Seq<char>) -> Seq<char>;

/// Relies on heck's `ToSnakeCase` for `str`: the result is a pure function
/// of the input characters.
#[verifier::external_body]
pub(crate) fn to_snake(s: &str) -> (r: String)
    ensures
        r@ == snake_of(s@),
{
    heck::ToSnakeCase::to_snake_case(s)
}

/// Relies on heck's `ToPascalCase` for `str`: the result is a pure function
/// of the input characters.
#[verifier::external_body]
pub(crate) fn to_pascal(s: &str) -> (r: String)
    ensures
        r@ == pascal_of(s@),
{
    heck::ToPascalCase::to_pascal_case(s)
}

} // verus!

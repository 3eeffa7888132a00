use vstd::prelude::*;

verus! {

/// The lower snake case form of an identifier, as heck computes it.
pub uninterp spec fn snake_case_of(s: Seq<char>) -> Seq<char>;

/// Relies on heck's `ToSnakeCase::to_snake_case` for `str`: the result
/// depends on the characters of the input alone.
#[verifier::external_body]
pub(crate) fn to_snake_case(s: &String) -> (r: String)
    ensures
        r@ == snake_case_of(s@),
{
    heck::ToSnakeCase::to_snake_case(s.as_str())
}

} // verus!

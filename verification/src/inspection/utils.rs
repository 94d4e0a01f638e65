//! Naming types for display.
use vstd::prelude::*;

verus! {

/// The name of a type with the module paths of it and of its parameters removed,
/// as `disqualified` shortens it.
pub uninterp spec fn short_type_name(full: Seq<char>) -> Seq<char>;

/// Calls `disqualified::ShortName`'s `Debug` rendering, which drops the module
/// path from every path inside a type name. Its result is named, not stated.
#[verifier::external_body]
pub fn pretty_type_name_str(val: &str) -> (r: String)
    ensures
        r@ == short_type_name(val@),
{
    format!("{:?}", disqualified::ShortName(val))
}

} // verus!

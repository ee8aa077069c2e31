//! Items of the standard library that the verifier has no contract for.

use vstd::prelude::*;

verus! {

/// `String::push` appends one character.
///
/// Trusted: this is what the standard library documents for it.
pub assume_specification[ String::push ](s: &mut String, c: char)
    ensures
        final(s)@ == old(s)@.push(c),
;

/// `std::path::PathBuf`, carried through without looking inside.
#[verifier::external_type_specification]
#[verifier::external_body]
pub struct ExPathBuf(std::path::PathBuf);

} // verus!

//! Types of std and of outside crates that the library carries through
//! without looking inside them.

use vstd::prelude::*;

verus! {

/// An operating-system error, carried inside the error enums.
#[verifier::external_type_specification]
#[verifier::external_body]
pub struct ExIoError(std::io::Error);

/// A filesystem path, held by the memory store and the skill loader.
#[verifier::external_type_specification]
#[verifier::external_body]
pub struct ExPathBuf(std::path::PathBuf);

} // verus!

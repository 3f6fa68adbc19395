//! A personal password store: tagged password entries with optional
//! metadata, kept in a file that can be sealed with a key.

pub mod args;
pub mod crypto;
pub mod fresh;
pub mod handles;
pub mod output;
pub mod paths;
pub mod session;
pub mod pattern;
pub mod store;

use vstd::prelude::*;

verus! {

} // verus!

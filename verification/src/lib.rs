//! A verified implementation of The Update Framework (TUF) metadata engine:
//! canonical serialization, signature-threshold verification, the client
//! loading workflow, delegation resolution, and the repository editor.

use vstd::prelude::*;

pub mod canon;
pub mod crypto;
pub mod deleg;
pub mod hex;
pub mod lits;
pub mod maps;
pub mod parse;
pub mod editor;
pub mod emit;
pub mod repo;
pub mod schema;
pub mod trust;
pub mod writer;

verus! {

} // verus!

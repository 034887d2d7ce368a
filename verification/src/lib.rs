//! A record program: one storage cell holds a header, which names the
//! record's authority, and after it a payload that only the authority may
//! change.

use pinocchio::pubkey::Pubkey;
use vstd::prelude::*;

pub mod account;
pub mod bytes;
pub mod error;
pub mod instruction;
pub mod lemmas;
pub mod processor;
pub mod state;

pub use pinocchio;

verus! {

/// The identity under which the program is deployed.
pub const ID: Pubkey = [
    159, 98, 103, 112, 32, 200, 88, 31, 85, 25, 149, 199, 83, 5, 152, 3, 10, 121, 172, 32, 109,
    201, 137, 149, 229, 206, 232, 196, 28, 97, 114, 53,
];

} // verus!

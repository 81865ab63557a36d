//! The registry of signers, the proposals that wait for their approval, and
//! the commands that act on both.

pub mod instruction;
pub mod state;
pub mod processor;
pub mod laws;

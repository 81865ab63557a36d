//! An M-of-N approval engine for ledger programs.
//!
//! A registry holds a fixed roster of signer keys and a threshold. A proposal
//! names a call into another program; roster members approve it one seat at a
//! time, and once enough seats have approved, the engine hands the call to the
//! ledger runtime under its own derived authority. The same roster check
//! guards a lock that a registry may administer.
//!
//! The engine works on plain values: the accounts of a call with their stored
//! bytes go in, the accounts as they are to be stored come out, together with
//! what is to be asked of the runtime. A refused call changes nothing.

pub mod error;
pub mod pubkey;
pub mod address;
pub mod codec;
pub mod account;
pub mod runtime;
pub mod multisig;
pub mod door;
pub mod rectangle;
pub mod type_confusion;

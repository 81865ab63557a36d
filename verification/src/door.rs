//! A door behind a lock. The door opens to the holder of its key while the
//! lock is off; the lock is turned by its admin, which may be a single signer
//! or a registry whose roster must reach its threshold.

pub mod instruction;
pub mod state;
pub mod processor;
pub mod laws;
pub mod attack;

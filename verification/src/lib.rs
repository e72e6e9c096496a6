//! Dispatch of value transfers to heterogeneous token backends.
//!
//! A caller moves value from an owner to a destination without knowing which
//! backend holds it: the standard token runtime, a program that implements the
//! transfer interface, or the metadata registry. The crate holds the pure part
//! of that protocol: the ledger of a ledger-backed token, the classification of
//! backends, and the two-phase negotiation in which a backend first declares the
//! accounts it needs and is then called with exactly those accounts.
//!
//! Nothing here performs a cross-program call. Where the protocol needs one, a
//! function returns the call to make as a value, and the caller reports what
//! came back.

pub mod account;
pub mod address;
pub mod codec;
pub mod error;
pub mod identity;
pub mod selector;
pub mod token_interface;
pub mod token_program;
pub mod token_wrapper;

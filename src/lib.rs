//! Type-safe contract binding generation: configuration of each contract, the
//! batch that writes many of them into one module, and the check that a
//! written module is still what a fresh run would produce.

pub mod abigen;
pub mod aliases;
pub mod multi;
pub mod naming;
pub mod order;
pub mod source;

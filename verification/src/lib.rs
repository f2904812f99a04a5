//! Settlement-evaluation core for a batch-auction trading protocol.
//!
//! The crate filters candidate settlements by order maturity, ranks the
//! survivors by an exact rational objective value, and fixes the canonical
//! wire encoding of the winning settlement.

pub mod fee;
pub mod numeric;
pub mod objective;
pub mod rational;
pub mod maturity;
pub mod orders;
pub mod solution;

pub use orders::has_user_order;

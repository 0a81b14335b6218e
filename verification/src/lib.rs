//! Verified core of a polynomial-commitment proof transport:
//! configuration and parameter codec, fixed-width field-element codec,
//! and the owner-scoped staging record that assembles a proof across
//! bounded append operations before verification.

pub mod field;
pub mod params;
pub mod producer;
pub mod record;

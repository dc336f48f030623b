//! Arithmetization core for a Cairo STARK prover: the base and secure fields,
//! packed columns, lookup relations, one memory-reading sub-routine, trace
//! padding and the compact proof byte format.
pub mod compact;
pub mod field;
pub mod format;
pub mod logup;
pub mod lookup;
pub mod packed;
pub mod read_positive;
pub mod relation;
pub mod secure;
pub mod trace;

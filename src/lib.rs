//! Join-semilattice value types for an eventually consistent key-value store.
//!
//! Every type here merges another value of its own kind into itself. The
//! laws that make replicas converge (idempotence, commutativity,
//! associativity, growth) are stated and proved next to each type, together
//! with the cases where a type departs from them: a map overwrites on a
//! shared key, last-writer-wins favours the incoming side on a tie, and an
//! ordered set's element order shows the order of merging.

pub mod lattice;
pub mod set_lattice;
pub mod ordered_set_lattice;
pub mod map_lattice;
pub mod lww_pair_lattice;
pub mod threads;
pub mod config;
pub mod client;

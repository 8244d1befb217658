//! Binary container for a constraint-system program: a fixed header with a
//! section table, followed by four payload sections. Writing a program interns
//! the solvers that its directives name and checks that every produced
//! variable is constrained.

pub mod cbor;
pub mod check;
pub mod deserialize;
pub mod endian;
pub mod format;
pub mod parameter;
pub mod round_trip;
pub mod serialize;
pub mod solver_indexer;
pub mod statement;

//! Dense matrices and the integer bookkeeping of the least-squares routines.
pub mod bundle;
pub mod dof;
pub mod matrix;
pub mod order;
pub mod shape;
pub mod triangulation;

//! Fixed-point integration of three point masses under pairwise Newtonian
//! gravity, with every rounding step defined over the integers.

pub mod arith;
pub mod body;
pub mod control;
pub mod integrator;
pub mod laws;
pub mod vector;

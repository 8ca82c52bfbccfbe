//! A fixed-step, weighted Runge-Kutta (RK4) integrator for systems of
//! ordinary differential equations, generic over the scalar type.

mod number;
mod rk4;
mod solver;

pub use number::{Function, Number};
pub use rk4::solver;
pub use solver::{Method, Solver};

//! Numerical solution of a Fredholm-type integral equation arising from a
//! birth–death branching model.
//!
//! The engine is written over an abstract [`scalar::Scalar`] type: every
//! loop, index computation, dimension check and error path is verified,
//! while the arithmetic itself is supplied by the scalar implementation.
pub mod scalar;
pub mod functions;
pub mod linear_equation;
pub mod integrals;
pub mod method;
pub mod nystrom;
pub mod galerkin;
pub mod galerkin_fourier;
pub mod neumann;
mod parallel;

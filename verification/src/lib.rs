//! Fixed-step solvers for ordinary differential equations, built on a
//! forward-mode automatic-differentiation engine.
//!
//! The engine works over any number type that implements [`scalar::Scalar`];
//! every contract is stated over that type's own arithmetic, so what is proved
//! holds for whichever numbers a caller brings.
pub mod ad;
pub mod matrix;
pub mod ode;
pub mod scalar;

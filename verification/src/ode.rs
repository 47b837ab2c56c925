//! Stepping schemes, the root finder behind the implicit ones, and the
//! drivers that run a scheme over a time span.
pub mod one_step;
pub mod root_finder;
pub mod solver;
pub mod traits;
pub mod two_step;

pub use one_step::{Failed, Ode, OdeEx, OdeIm, Seeding};
pub use root_finder::{newton, NewtonError};
pub use traits::{
    Explicit, Flow, Implicit, Inverse, OneStep, Progress, Residual, Residual1Step, Residual2Step,
    Silent, TwoStep, ODE,
};
pub use two_step::OdeTwoStep;

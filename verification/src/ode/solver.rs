//! Stepping schemes.
pub mod euler;

pub use euler::{ExplicitEuler, ImplicitEuler, SymplecticEuler};

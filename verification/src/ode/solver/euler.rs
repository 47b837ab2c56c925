//! The three Euler schemes: explicit, implicit and symplectic.
pub mod explicit;
pub mod implicit;
pub mod symplectic;

pub use explicit::ExplicitEuler;
pub use implicit::ImplicitEuler;
pub use symplectic::SymplecticEuler;

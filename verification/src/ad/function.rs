//! Functions of dual numbers, and their derivatives as functions of plain
//! numbers.
use crate::ad::ops::{lifted, values, ADArray, F64Array, StableFn};
use crate::ad::AD;
use crate::scalar::{one, zero, Scalar};
use std::sync::Arc;
use vstd::prelude::*;

verus! {

/// A function of dual numbers together with the number of times it has been
/// differentiated: called with a plain number, it gives the function's
/// value, its first or its second derivative there.
pub struct ADFn<F> {
    f: Arc<F>,
    grad_level: usize,
}

/// Another handle on the function that `f` holds.
///
/// Trusted: the body calls `Arc::clone` of the standard library, which
/// makes another pointer to the same allocation. The contract claims that
/// the new pointer holds what the old one holds.
#[verifier::external_body]
fn share<F>(f: &Arc<F>) -> (r: Arc<F>)
    ensures
        *r == **f,
{
    Arc::clone(f)
}

/// The dual number that stands for the variable at `target` when the
/// derivative of order `level` is wanted.
pub open spec fn seed<T: Scalar>(target: T, level: nat) -> AD<T> {
    if level == 0 {
        AD::AD0(target)
    } else if level == 1 {
        AD::AD1(target, one::<T>())
    } else {
        AD::AD2(target, one::<T>(), zero::<T>())
    }
}

impl<F> ADFn<F> {
    #[verifier::type_invariant]
    spec fn inv(self) -> bool {
        self.grad_level <= 2
    }

    /// The function that is wrapped.
    pub closed spec fn function(&self) -> F {
        *self.f
    }

    /// The number of times the function has been differentiated.
    pub closed spec fn level(&self) -> nat {
        self.grad_level as nat
    }
}

impl<F> ADFn<F> {
    /// Wraps `f`, not differentiated.
    pub fn new(f: F) -> (r: Self)
        ensures
            r.function() == f,
            r.level() == 0,
    {
        ADFn { f: Arc::new(f), grad_level: 0usize }
    }

    /// Whether one more derivative can be taken.
    pub fn can_grad(&self) -> (b: bool)
        ensures
            b == (self.level() < 2),
    {
        self.grad_level < 2
    }

    /// Gradient: the same function, differentiated once more. No
    /// derivative goes beyond the second.
    pub fn grad(&self) -> (r: Self)
        requires
            self.level() < 2,
        ensures
            r.level() == self.level() + 1,
            r.function() == self.function(),
    {
        ADFn { f: share(&self.f), grad_level: self.grad_level + 1 }
    }
}

impl<F> ADFn<F> {
    /// Calls the wrapped function with a dual number and hands back what it
    /// gives, whatever the level.
    pub fn call_dual<T: Scalar>(&self, target: AD<T>) -> (out: AD<T>) where F: Fn(AD<T>) -> AD<T>
        requires
            call_requires(self.function(), (target,)),
        ensures
            call_ensures(self.function(), (target,), out),
    {
        (*self.f)(target)
    }

    /// Calls the wrapped function with dual numbers and hands back what it
    /// gives, whatever the level.
    pub fn call_duals<T: Scalar>(&self, target: Vec<AD<T>>) -> (out: Vec<AD<T>>) where
        F: Fn(Vec<AD<T>>) -> Vec<AD<T>>,

        requires
            call_requires(self.function(), (target,)),
        ensures
            call_ensures(self.function(), (target,), out),
    {
        (*self.f)(target)
    }

    /// Calls the wrapped function with borrowed dual numbers and hands back
    /// what it gives, whatever the level.
    pub fn call_duals_ref<T: Scalar>(&self, target: &Vec<AD<T>>) -> (out: Vec<AD<T>>) where
        F: Fn(&Vec<AD<T>>) -> Vec<AD<T>>,

        requires
            call_requires(self.function(), (target,)),
        ensures
            call_ensures(self.function(), (target,), out),
    {
        (*self.f)(target)
    }
}

impl<T: Scalar, F: Fn(AD<T>) -> AD<T>> StableFn<T> for ADFn<F> {
    type Output = T;

    /// The wrapped function must take the seeded variable.
    open spec fn stable_requires(&self, target: T) -> bool {
        call_requires(self.function(), (seed(target, self.level()),))
    }

    /// The result is the slot of the wanted derivative in what the wrapped
    /// function gave for the seeded variable.
    open spec fn stable_ensures(&self, target: T, out: T) -> bool {
        self.level() <= 2 && exists|y: AD<T>| #[trigger]
            call_ensures(self.function(), (seed(target, self.level()),), y) && out == y.slot(
                self.level() as int,
            )
    }

    fn call_stable(&self, target: T) -> (out: T) {
        proof {
            use_type_invariant(self);
        }
        if self.grad_level == 0 {
            let y = (*self.f)(AD::AD0(target));
            y.x()
        } else if self.grad_level == 1 {
            let y = (*self.f)(AD::AD1(target, T::from_count(1)));
            y.dx()
        } else {
            let y = (*self.f)(AD::AD2(target, T::from_count(1), T::from_count(0)));
            y.ddx()
        }
    }
}

impl<T: Scalar, F: Fn(Vec<AD<T>>) -> Vec<AD<T>>> StableFn<Vec<T>> for ADFn<F> {
    type Output = Vec<T>;

    /// The wrapped function must take the lifted numbers.
    open spec fn stable_requires(&self, target: Vec<T>) -> bool {
        forall|v: Vec<AD<T>>| v@ == lifted(target@) ==> call_requires(self.function(), (v,))
    }

    /// The result holds the values of what the wrapped function gave for
    /// the lifted numbers.
    open spec fn stable_ensures(&self, target: Vec<T>, out: Vec<T>) -> bool {
        exists|v: Vec<AD<T>>, y: Vec<AD<T>>|
            v@ == lifted(target@) && #[trigger] call_ensures(self.function(), (v,), y) && out@
                == values(y@)
    }

    fn call_stable(&self, target: Vec<T>) -> (out: Vec<T>) {
        let v = target.to_ad();
        let y = (*self.f)(v);
        y.to_f64()
    }
}

impl<'a, T: Scalar, F: Fn(&Vec<AD<T>>) -> Vec<AD<T>>> StableFn<&'a Vec<T>> for ADFn<F> {
    type Output = Vec<T>;

    /// The wrapped function must take the lifted numbers.
    open spec fn stable_requires(&self, target: &'a Vec<T>) -> bool {
        forall|v: Vec<AD<T>>| v@ == lifted(target@) ==> call_requires(self.function(), (&v,))
    }

    /// The result holds the values of what the wrapped function gave for
    /// the lifted numbers.
    open spec fn stable_ensures(&self, target: &'a Vec<T>, out: Vec<T>) -> bool {
        exists|v: Vec<AD<T>>, y: Vec<AD<T>>|
            v@ == lifted(target@) && #[trigger] call_ensures(self.function(), (&v,), y) && out@
                == values(y@)
    }

    fn call_stable(&self, target: &'a Vec<T>) -> (out: Vec<T>) {
        let v = target.to_ad();
        let y = (*self.f)(&v);
        y.to_f64()
    }
}

} // verus!

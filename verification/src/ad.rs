//! Dual numbers: truncated Taylor expansions of order 0, 1 or 2.
use crate::scalar::{zero, Scalar};
use vstd::prelude::*;

pub mod arith;
pub mod elementary;
pub mod function;
pub mod iter;
pub mod jacobian;
pub mod operators;
pub mod ops;
pub mod order;

pub use function::ADFn;
pub use iter::{ADIntoIter, ADIter, ADIterMut};
pub use jacobian::{jacobian, jacobian_par, jacobian_res};
pub use ops::{
    double_factorial, factorial, ADArray, ExpLogOps, F64Array, PowOps, ScalarMultiplyAD,
    ScalarMultiplyf64, StableFn, TrigOps, C, H, P,
};

verus! {

/// A value together with as many of its derivatives as its order says.
#[derive(Clone, Copy, Debug, PartialEq)]
pub enum AD<T> {
    /// A value alone.
    AD0(T),
    /// A value and its first derivative.
    AD1(T, T),
    /// A value, its first and its second derivative.
    AD2(T, T, T),
}

/// The highest order that a dual number can have.
pub const MAX_ORDER: usize = 2;

/// Why a dual number could not be made.
#[derive(Clone, Copy, Debug, PartialEq, Eq, Structural)]
pub enum ADError {
    /// More derivatives were asked for than a dual number carries.
    UnsupportedOrder,
}

impl<T> View for AD<T> {
    type V = Seq<T>;

    /// The coefficients that are stored: the value first, then the derivatives.
    open spec fn view(&self) -> Seq<T> {
        match *self {
            AD::AD0(x) => seq![x],
            AD::AD1(x, dx) => seq![x, dx],
            AD::AD2(x, dx, ddx) => seq![x, dx, ddx],
        }
    }
}

impl<T: Scalar> AD<T> {
    /// The number of derivatives carried.
    pub open spec fn order_spec(self) -> nat {
        (self@.len() - 1) as nat
    }

    /// The coefficient at `i`: the stored one, or zero past the order.
    pub open spec fn slot(self, i: int) -> T {
        if 0 <= i < self@.len() {
            self@[i]
        } else {
            zero::<T>()
        }
    }

    /// The dual number with the coefficients `s`, for one to three of them.
    pub open spec fn from_coeffs(s: Seq<T>) -> Self {
        if s.len() == 1 {
            AD::AD0(s[0])
        } else if s.len() == 2 {
            AD::AD1(s[0], s[1])
        } else {
            AD::AD2(s[0], s[1], s[2])
        }
    }

    /// The dual number of order `n` that agrees with `self` on every slot up
    /// to `n`: higher slots are cut off, missing ones read as zero.
    pub open spec fn to_order_spec(self, n: nat) -> Self {
        Self::from_coeffs(Seq::new(n + 1, |i: int| self.slot(i)))
    }

    /// The dual number of order `n` with zero in every slot.
    pub open spec fn zeros(n: nat) -> Self {
        Self::from_coeffs(Seq::new(n + 1, |i: int| zero::<T>()))
    }

    /// Every stored coefficient is what `from_coeffs` was given.
    pub proof fn lemma_from_coeffs(s: Seq<T>)
        requires
            1 <= s.len() <= 3,
        ensures
            Self::from_coeffs(s)@ == s,
    {
        assert(Self::from_coeffs(s)@ =~= s);
    }

    /// A dual number is made of its own coefficients.
    pub proof fn lemma_view_round_trip(self)
        ensures
            1 <= self@.len() <= 3,
            Self::from_coeffs(self@) == self,
    {
    }

    /// `self` with the coefficient at `i` replaced by `value`.
    pub open spec fn with_slot(self, i: int, value: T) -> Self {
        Self::from_coeffs(self@.update(i, value))
    }

    /// Two dual numbers with the same coefficients are the same.
    pub proof fn lemma_view_injective(self, other: Self)
        requires
            self@ == other@,
        ensures
            self == other,
    {
        self.lemma_view_round_trip();
        other.lemma_view_round_trip();
    }

    /// Changes the order to `n`, keeping the slots that both orders have.
    pub fn to_order(&self, n: usize) -> (z: Self)
        requires
            n <= MAX_ORDER,
        ensures
            z == self.to_order_spec(n as nat),
            z.order_spec() == n,
    {
        let z = match n {
            0 => AD::AD0(self.x()),
            1 => AD::AD1(self.x(), self.dx()),
            _ => AD::AD2(self.x(), self.dx(), self.ddx()),
        };
        proof {
            let s = Seq::new((n + 1) as nat, |i: int| self.slot(i));
            assert(z@ =~= s);
            z.lemma_view_round_trip();
        }
        z
    }

    /// The number of derivatives carried: 0, 1 or 2.
    pub fn order(&self) -> (n: usize)
        ensures
            n == self.order_spec(),
            n <= MAX_ORDER,
    {
        match self {
            AD::AD0(_) => 0,
            AD::AD1(_, _) => 1,
            AD::AD2(_, _, _) => 2,
        }
    }

    /// The number of coefficients stored: one more than the order.
    pub fn len(&self) -> (n: usize)
        ensures
            n == self@.len(),
            1 <= n <= 3,
    {
        match self {
            AD::AD0(_) => 1,
            AD::AD1(_, _) => 2,
            AD::AD2(_, _, _) => 3,
        }
    }

    /// The zero dual number of order `n`.
    pub fn from_order(n: usize) -> (z: Self)
        requires
            n <= MAX_ORDER,
        ensures
            z == Self::zeros(n as nat),
            z.order_spec() == n,
            z@ == Seq::new((n + 1) as nat, |i: int| zero::<T>()),
    {
        let o = T::from_count(0);
        let z = match n {
            0 => AD::AD0(o),
            1 => AD::AD1(o, o),
            _ => AD::AD2(o, o, o),
        };
        proof {
            assert(z@ =~= Seq::new((n + 1) as nat, |i: int| zero::<T>()));
            z.lemma_view_round_trip();
        }
        z
    }

    /// The zero dual number of order `n`, or `UnsupportedOrder` where `n`
    /// is above 2.
    pub fn try_from_order(n: usize) -> (r: Result<Self, ADError>)
        ensures
            n <= MAX_ORDER ==> r == Ok::<Self, ADError>(Self::zeros(n as nat)),
            n > MAX_ORDER ==> r == Err::<Self, ADError>(ADError::UnsupportedOrder),
    {
        if n <= MAX_ORDER {
            Ok(Self::from_order(n))
        } else {
            Err(ADError::UnsupportedOrder)
        }
    }

    /// The zero dual number of the same order.
    pub fn empty(&self) -> (z: Self)
        ensures
            z == Self::zeros(self.order_spec()),
            z.order_spec() == self.order_spec(),
            z@ == Seq::new(self@.len(), |i: int| zero::<T>()),
    {
        Self::from_order(self.order())
    }

    /// The value.
    pub fn x(&self) -> (r: T)
        ensures
            r == self.slot(0),
            r == self@[0],
    {
        match self {
            AD::AD0(x) => *x,
            AD::AD1(x, _) => *x,
            AD::AD2(x, _, _) => *x,
        }
    }

    /// The first derivative; zero where the order is 0.
    pub fn dx(&self) -> (r: T)
        ensures
            r == self.slot(1),
    {
        match self {
            AD::AD0(_) => T::from_count(0),
            AD::AD1(_, dx) => *dx,
            AD::AD2(_, dx, _) => *dx,
        }
    }

    /// The second derivative; zero where the order is below 2.
    pub fn ddx(&self) -> (r: T)
        ensures
            r == self.slot(2),
    {
        match self {
            AD::AD0(_) => T::from_count(0),
            AD::AD1(_, _) => T::from_count(0),
            AD::AD2(_, _, ddx) => *ddx,
        }
    }

    /// Writes the value.
    pub fn set_x(&mut self, x: T)
        ensures
            final(self)@ == old(self)@.update(0, x),
            *final(self) == old(self).with_slot(0, x),
    {
        match self {
            AD::AD0(t) => {
                *t = x;
            },
            AD::AD1(t, _) => {
                *t = x;
            },
            AD::AD2(t, _, _) => {
                *t = x;
            },
        }
        assert(self@ =~= old(self)@.update(0, x));
        proof {
            self.lemma_view_round_trip();
        }
    }

    /// Writes the first derivative, which the order must have.
    pub fn set_dx(&mut self, dx: T)
        requires
            old(self).order_spec() >= 1,
        ensures
            final(self)@ == old(self)@.update(1, dx),
            *final(self) == old(self).with_slot(1, dx),
    {
        match self {
            AD::AD0(_) => {},
            AD::AD1(_, dt) => {
                *dt = dx;
            },
            AD::AD2(_, dt, _) => {
                *dt = dx;
            },
        }
        assert(self@ =~= old(self)@.update(1, dx));
        proof {
            self.lemma_view_round_trip();
        }
    }

    /// Writes the second derivative, which the order must have.
    pub fn set_ddx(&mut self, ddx: T)
        requires
            old(self).order_spec() >= 2,
        ensures
            final(self)@ == old(self)@.update(2, ddx),
            *final(self) == old(self).with_slot(2, ddx),
    {
        match self {
            AD::AD0(_) => {},
            AD::AD1(_, _) => {},
            AD::AD2(_, _, ddt) => {
                *ddt = ddx;
            },
        }
        assert(self@ =~= old(self)@.update(2, ddx));
        proof {
            self.lemma_view_round_trip();
        }
    }

    /// The value, by reference.
    pub fn x_ref(&self) -> (r: Option<&T>)
        ensures
            r == Some(&self@[0]),
    {
        match self {
            AD::AD0(x) => Some(x),
            AD::AD1(x, _) => Some(x),
            AD::AD2(x, _, _) => Some(x),
        }
    }

    /// The first derivative, by reference; `None` where the order is 0.
    pub fn dx_ref(&self) -> (r: Option<&T>)
        ensures
            self.order_spec() >= 1 ==> r == Some(&self@[1]),
            self.order_spec() < 1 ==> r.is_none(),
    {
        match self {
            AD::AD0(_) => None,
            AD::AD1(_, dx) => Some(dx),
            AD::AD2(_, dx, _) => Some(dx),
        }
    }

    /// The second derivative, by reference; `None` where the order is below 2.
    pub fn ddx_ref(&self) -> (r: Option<&T>)
        ensures
            self.order_spec() >= 2 ==> r == Some(&self@[2]),
            self.order_spec() < 2 ==> r.is_none(),
    {
        match self {
            AD::AD0(_) => None,
            AD::AD1(_, _) => None,
            AD::AD2(_, _, ddx) => Some(ddx),
        }
    }

    /// The value, for writing.
    pub fn x_mut(&mut self) -> (r: Option<&mut T>)
        ensures
            r matches Some(m) && *m == old(self)@[0] && *final(self) == old(self).with_slot(
                0,
                *final(m),
            ),
    {
        let m = match self {
            AD::AD0(x) => x,
            AD::AD1(x, _) => x,
            AD::AD2(x, _, _) => x,
        };
        Some(m)
    }

    /// The first derivative, for writing; `None` where the order is 0.
    pub fn dx_mut(&mut self) -> (r: Option<&mut T>)
        ensures
            old(self).order_spec() < 1 ==> r.is_none() && *final(self) == *old(self),
            old(self).order_spec() >= 1 ==> (r matches Some(m) && *m == old(self)@[1]
                && *final(self) == old(self).with_slot(1, *final(m))),
    {
        match self {
            AD::AD0(_) => None,
            AD::AD1(_, dx) => Some(dx),
            AD::AD2(_, dx, _) => Some(dx),
        }
    }

    /// The second derivative, for writing; `None` where the order is below 2.
    pub fn ddx_mut(&mut self) -> (r: Option<&mut T>)
        ensures
            old(self).order_spec() < 2 ==> r.is_none() && *final(self) == *old(self),
            old(self).order_spec() >= 2 ==> (r matches Some(m) && *m == old(self)@[2]
                && *final(self) == old(self).with_slot(2, *final(m))),
    {
        match self {
            AD::AD0(_) => None,
            AD::AD1(_, _) => None,
            AD::AD2(_, _, ddx) => Some(ddx),
        }
    }

    /// The coefficient at `i`, for writing; `None` where the order has no
    /// such slot.
    pub fn get_mut(&mut self, i: usize) -> (r: Option<&mut T>)
        ensures
            i >= old(self)@.len() ==> r.is_none() && *final(self) == *old(self),
            i < old(self)@.len() ==> (r matches Some(m) && *m == old(self)@[i as int]
                && *final(self) == old(self).with_slot(i as int, *final(m))),
    {
        if i == 0 {
            self.x_mut()
        } else if i == 1 {
            self.dx_mut()
        } else if i == 2 {
            self.ddx_mut()
        } else {
            None
        }
    }
}

} // verus!

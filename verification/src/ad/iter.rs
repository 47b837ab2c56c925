//! Walking over the coefficients of a dual number, from either end.
use crate::ad::AD;
use crate::scalar::Scalar;
use vstd::prelude::*;

verus! {

/// A cursor that owns the dual number it walks over.
#[derive(Debug)]
pub struct ADIntoIter<T> {
    ad: AD<T>,
    index: usize,
    r_index: usize,
}

/// A cursor that borrows the dual number it walks over.
#[derive(Debug)]
pub struct ADIter<'a, T> {
    ad: &'a AD<T>,
    index: usize,
    r_index: usize,
}

impl<T: Scalar> View for ADIntoIter<T> {
    type V = Seq<T>;

    /// The coefficients still to come, in order.
    closed spec fn view(&self) -> Seq<T> {
        self.ad@.subrange(self.index as int, self.ad@.len() - self.r_index)
    }
}

impl<'a, T: Scalar> View for ADIter<'a, T> {
    type V = Seq<T>;

    /// The coefficients still to come, in order.
    closed spec fn view(&self) -> Seq<T> {
        self.ad@.subrange(self.index as int, self.ad@.len() - self.r_index)
    }
}

impl<T> ADIntoIter<T> {
    #[verifier::type_invariant]
    spec fn inv(self) -> bool {
        self.index + self.r_index <= self.ad@.len()
    }
}

impl<T: Scalar> ADIntoIter<T> {
    /// Hands out the next coefficient from the front.
    pub fn next(&mut self) -> (r: Option<T>)
        ensures
            old(self)@.len() == 0 ==> r.is_none() && final(self)@ == old(self)@,
            old(self)@.len() > 0 ==> r == Some(old(self)@[0]) && final(self)@ == old(
                self,
            )@.drop_first(),
    {
        proof {
            use_type_invariant(&*self);
        }
        let l = self.ad.len();
        if self.index + self.r_index < l {
            let result = self.ad.get(self.index);
            self.index = self.index + 1;
            assert(self@ =~= old(self)@.drop_first());
            result
        } else {
            None
        }
    }

    /// Hands out the next coefficient from the back.
    pub fn next_back(&mut self) -> (r: Option<T>)
        ensures
            old(self)@.len() == 0 ==> r.is_none() && final(self)@ == old(self)@,
            old(self)@.len() > 0 ==> r == Some(old(self)@.last()) && final(self)@ == old(
                self,
            )@.drop_last(),
    {
        proof {
            use_type_invariant(&*self);
        }
        if self.index + self.r_index == self.ad.len() {
            return None;
        }
        let order = self.ad.order();
        let result = self.ad.at(order - self.r_index);
        self.r_index = self.r_index + 1;
        assert(self@ =~= old(self)@.drop_last());
        Some(result)
    }

    /// The number of coefficients still to come.
    pub fn len(&self) -> (n: usize)
        ensures
            n == self@.len(),
    {
        proof {
            use_type_invariant(self);
        }
        self.ad.len() - (self.index + self.r_index)
    }

    /// The number of coefficients still to come, as a lower and an upper
    /// bound.
    pub fn size_hint(&self) -> (r: (usize, Option<usize>))
        ensures
            r.0 == self@.len(),
            r.1 == Some(r.0),
    {
        let n = self.len();
        (n, Some(n))
    }
}

impl<'a, T> ADIter<'a, T> {
    #[verifier::type_invariant]
    spec fn inv(self) -> bool {
        self.index + self.r_index <= self.ad@.len()
    }
}

impl<'a, T: Scalar> ADIter<'a, T> {
    /// Hands out the next coefficient from the front.
    pub fn next(&mut self) -> (r: Option<&'a T>)
        ensures
            old(self)@.len() == 0 ==> r.is_none() && final(self)@ == old(self)@,
            old(self)@.len() > 0 ==> r == Some(&old(self)@[0]) && final(self)@ == old(
                self,
            )@.drop_first(),
    {
        proof {
            use_type_invariant(&*self);
        }
        let l = self.ad.len();
        if self.index + self.r_index < l {
            let result = match self.index {
                0 => self.ad.x_ref(),
                1 => self.ad.dx_ref(),
                _ => self.ad.ddx_ref(),
            };
            self.index = self.index + 1;
            assert(self@ =~= old(self)@.drop_first());
            result
        } else {
            None
        }
    }

    /// Hands out the next coefficient from the back.
    pub fn next_back(&mut self) -> (r: Option<&'a T>)
        ensures
            old(self)@.len() == 0 ==> r.is_none() && final(self)@ == old(self)@,
            old(self)@.len() > 0 ==> r == Some(&old(self)@.last()) && final(self)@ == old(
                self,
            )@.drop_last(),
    {
        proof {
            use_type_invariant(&*self);
        }
        if self.index + self.r_index == self.ad.len() {
            return None;
        }
        let order = self.ad.order();
        let result = match order - self.r_index {
            0 => self.ad.x_ref(),
            1 => self.ad.dx_ref(),
            _ => self.ad.ddx_ref(),
        };
        self.r_index = self.r_index + 1;
        assert(self@ =~= old(self)@.drop_last());
        result
    }

    /// The number of coefficients still to come.
    pub fn len(&self) -> (n: usize)
        ensures
            n == self@.len(),
    {
        proof {
            use_type_invariant(self);
        }
        self.ad.len() - (self.index + self.r_index)
    }

    /// The number of coefficients still to come, as a lower and an upper
    /// bound.
    pub fn size_hint(&self) -> (r: (usize, Option<usize>))
        ensures
            r.0 == self@.len(),
            r.1 == Some(r.0),
    {
        let n = self.len();
        (n, Some(n))
    }
}

impl<T: Scalar> AD<T> {
    /// A cursor over the coefficients, which takes the dual number along.
    pub fn into_iter(self) -> (it: ADIntoIter<T>)
        ensures
            it@ == self@,
    {
        let it = ADIntoIter { ad: self, index: 0, r_index: 0 };
        assert(it@ =~= self@);
        it
    }

    /// A cursor over the coefficients.
    pub fn iter(&self) -> (it: ADIter<'_, T>)
        ensures
            it@ == self@,
    {
        let it = ADIter { ad: self, index: 0, r_index: 0 };
        assert(it@ =~= self@);
        it
    }

    /// The dual number with the coefficients of `v`, of which there must be
    /// one, two or three.
    pub fn from_vec(v: &Vec<T>) -> (z: Self)
        requires
            1 <= v@.len() <= 3,
        ensures
            z@ == v@,
            z == Self::from_coeffs(v@),
    {
        let z = if v.len() == 1 {
            AD::AD0(v[0])
        } else if v.len() == 2 {
            AD::AD1(v[0], v[1])
        } else {
            AD::AD2(v[0], v[1], v[2])
        };
        assert(z@ =~= v@);
        z
    }

    /// The coefficients, value first.
    pub fn to_vec(&self) -> (v: Vec<T>)
        ensures
            v@ == self@,
    {
        let mut v: Vec<T> = Vec::with_capacity(3);
        let mut i: usize = 0;
        while i < self.len()
            invariant
                i <= self@.len(),
                v@ == self@.take(i as int),
            decreases self@.len() - i,
        {
            v.push(self.at(i));
            i = i + 1;
            assert(v@ =~= self@.take(i as int));
        }
        assert(self@.take(self@.len() as int) =~= self@);
        v
    }
}

/// A cursor that lends out the coefficients of a dual number for writing,
/// one at a time, from the value on.
#[derive(Debug)]
pub struct ADIterMut<'a, T> {
    /// The dual number that is walked over.
    pub ad: &'a mut AD<T>,
    /// The number of coefficients lent out so far.
    pub index: usize,
}

impl<'a, T: Scalar> ADIterMut<'a, T> {
    /// Lends out the next coefficient; `None` when all have been lent.
    /// What is written to it is written to the dual number.
    pub fn next(&mut self) -> (r: Option<&mut T>)
        ensures
            *final(final(self).ad) == *final(old(self).ad),
            old(self).index >= old(self).ad@.len() ==> {
                &&& r.is_none()
                &&& *final(self).ad == *old(self).ad
                &&& final(self).index == old(self).index
            },
            old(self).index < old(self).ad@.len() ==> {
                &&& r matches Some(m)
                &&& *m == old(self).ad@[old(self).index as int]
                &&& *final(self).ad == old(self).ad.with_slot(old(self).index as int, *final(m))
                &&& final(self).index == old(self).index + 1
            },
    {
        if self.index < self.ad.len() {
            let i = self.index;
            self.index = i + 1;
            self.ad.get_mut(i)
        } else {
            None
        }
    }
}

impl<T: Scalar> AD<T> {
    /// A cursor over the coefficients that lends them out for writing.
    pub fn iter_mut(&mut self) -> (it: ADIterMut<'_, T>)
        ensures
            *it.ad == *old(self),
            it.index == 0,
            *final(self) == *final(it.ad),
    {
        ADIterMut { ad: self, index: 0 }
    }
}

} // verus!

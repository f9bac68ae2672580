//! Arithmetic on coordinate pairs: componentwise addition, and
//! subtraction clamped at zero.
use vstd::prelude::*;

verus! {

#[derive(PartialEq, Debug)]
pub struct T(pub (usize, usize));

/// The pair `(a, b)`.
pub fn t(a: usize, b: usize) -> (r: T)
    ensures
        r.0 == (a, b),
{
    T((a, b))
}

impl T {
    /// The componentwise sum.
    pub fn add(self, other: T) -> (r: T)
        requires
            self.0.0 + other.0.0 <= usize::MAX,
            self.0.1 + other.0.1 <= usize::MAX,
        ensures
            r.0.0 == self.0.0 + other.0.0,
            r.0.1 == self.0.1 + other.0.1,
    {
        T(((self.0).0 + (other.0).0, (self.0).1 + (other.0).1))
    }

    /// The componentwise difference, clamped at zero.
    pub fn sub(self, other: T) -> (r: T)
        ensures
            r.0.0 == if other.0.0 <= self.0.0 {
                self.0.0 - other.0.0
            } else {
                0int
            },
            r.0.1 == if other.0.1 <= self.0.1 {
                self.0.1 - other.0.1
            } else {
                0int
            },
    {
        let a = if (other.0).0 < (self.0).0 {
            (other.0).0
        } else {
            (self.0).0
        };
        let b = if (other.0).1 < (self.0).1 {
            (other.0).1
        } else {
            (self.0).1
        };
        T(((self.0).0 - a, (self.0).1 - b))
    }
}

} // verus!

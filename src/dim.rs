use vstd::prelude::*;
use crate::error::TractError;

verus! {

/// A tensor size: `sym * S + konst`, affine in one unknown quantity `S`
/// (a batch size or a sequence length). It is concrete when `sym` is zero.
#[derive(Debug, Clone, Copy, PartialEq, Eq, Structural)]
pub struct Dim {
    pub sym: i64,
    pub konst: i64,
}

impl Dim {
    /// The size as a pair (coefficient of the unknown, constant term).
    pub open spec fn view(self) -> (int, int) {
        (self.sym as int, self.konst as int)
    }

    pub open spec fn is_concrete(self) -> bool {
        self.sym == 0
    }

    /// A known size.
    pub fn from_int(v: i64) -> (r: Dim)
        ensures
            r@ == (0int, v as int),
    {
        Dim { sym: 0, konst: v }
    }

    /// The unknown quantity itself.
    pub fn symbol() -> (r: Dim)
        ensures
            r@ == (1int, 0int),
    {
        Dim { sym: 1, konst: 0 }
    }

    /// The concrete value, or `DimensionUnresolved` while the unknown remains.
    pub fn to_integer(&self) -> (r: Result<i64, TractError>)
        ensures
            self.is_concrete() ==> r == Ok::<i64, TractError>(self.konst),
            !self.is_concrete() ==> r == Err::<i64, TractError>(TractError::DimensionUnresolved),
    {
        if self.sym == 0 {
            Ok(self.konst)
        } else {
            Err(TractError::DimensionUnresolved)
        }
    }

    /// `self + o`.
    pub fn add(&self, o: &Dim) -> (r: Dim)
        requires
            i64::MIN <= self@.0 + o@.0 <= i64::MAX,
            i64::MIN <= self@.1 + o@.1 <= i64::MAX,
        ensures
            r@ == (self@.0 + o@.0, self@.1 + o@.1),
    {
        Dim { sym: self.sym + o.sym, konst: self.konst + o.konst }
    }

    /// `self - o`.
    pub fn sub(&self, o: &Dim) -> (r: Dim)
        requires
            i64::MIN <= self@.0 - o@.0 <= i64::MAX,
            i64::MIN <= self@.1 - o@.1 <= i64::MAX,
        ensures
            r@ == (self@.0 - o@.0, self@.1 - o@.1),
    {
        Dim { sym: self.sym - o.sym, konst: self.konst - o.konst }
    }

    /// `self * k` for a known integer `k`.
    pub fn mul_int(&self, k: i64) -> (r: Dim)
        requires
            i64::MIN <= self@.0 * k <= i64::MAX,
            i64::MIN <= self@.1 * k <= i64::MAX,
        ensures
            r@ == (self@.0 * k, self@.1 * k),
    {
        Dim { sym: self.sym * k, konst: self.konst * k }
    }
}

} // verus!

use vstd::prelude::*;

verus! {

/// How the padding needed on one spatial axis is split between the two sides.
#[derive(Debug, Clone, Copy, PartialEq, Eq, Structural)]
pub enum PaddingStrat {
    /// The side before is flexible, the side after holds the given amount.
    FlexFixed(usize),
    /// The side before holds the given amount, the side after is flexible.
    FixedFlex(usize),
    /// Both sides are fixed.
    FixedFixed(usize, usize),
}

/// The split of `spread` that a strategy asks for, as a pair of integers
/// (either of which may be negative when the strategy does not fit).
pub open spec fn split_spec(strat: PaddingStrat, spread: int) -> (int, int) {
    match strat {
        PaddingStrat::FlexFixed(f) => (spread - f, f as int),
        PaddingStrat::FixedFlex(f) => (f as int, spread - f),
        PaddingStrat::FixedFixed(a, b) => (a as int, b as int),
    }
}

/// A strategy fits a spread when both sides are non-negative and add up to it.
pub open spec fn fits(strat: PaddingStrat, spread: int) -> bool {
    let (b, a) = split_spec(strat, spread);
    spread >= 0 && b >= 0 && a >= 0 && b + a == spread
}

impl PaddingStrat {
    /// Splits `spread` into the padding before and after the axis, or `None`
    /// when the strategy cannot produce two non-negative sides summing to it.
    pub fn split(&self, spread: usize) -> (r: Option<(usize, usize)>)
        ensures
            r.is_some() <==> fits(*self, spread as int),
            r matches Some((b, a)) ==> (b as int, a as int) == split_spec(*self, spread as int),
            r matches Some((b, a)) ==> b + a == spread,
    {
        match *self {
            PaddingStrat::FlexFixed(f) => {
                if f <= spread {
                    Some((spread - f, f))
                } else {
                    None
                }
            },
            PaddingStrat::FixedFlex(f) => {
                if f <= spread {
                    Some((f, spread - f))
                } else {
                    None
                }
            },
            PaddingStrat::FixedFixed(a, b) => {
                if a <= spread && b == spread - a {
                    Some((a, b))
                } else {
                    None
                }
            },
        }
    }
}

} // verus!

//! The four-way table of outcomes, one per rating, and the optional prior
//! state of a card. Both are generic in what they carry.

use vstd::prelude::*;
use crate::rating::Rating;

verus! {

/// What each of the four possible answers would lead to.
#[derive(Clone, Copy, Debug)]
pub struct OutcomeSet<T> {
    pub again: T,
    pub hard: T,
    pub good: T,
    pub easy: T,
}

impl<T> OutcomeSet<T> {
    /// The branch that belongs to `rating`.
    pub open spec fn branch(self, rating: Rating) -> T {
        match rating {
            Rating::Again => self.again,
            Rating::Hard => self.hard,
            Rating::Good => self.good,
            Rating::Easy => self.easy,
        }
    }

    /// Hands out the branch that belongs to `rating`.
    pub fn select(self, rating: Rating) -> (chosen: T)
        ensures
            chosen == self.branch(rating),
    {
        match rating {
            Rating::Again => self.again,
            Rating::Hard => self.hard,
            Rating::Good => self.good,
            Rating::Easy => self.easy,
        }
    }

    /// Hands out the branch for a rating number, which saturates into `1..=4`.
    pub fn select_number(self, rating: i32) -> (chosen: T)
        ensures
            chosen == self.branch(Rating::nearest(rating as int)),
    {
        self.select(Rating::from_i32(rating))
    }
}

/// The prior state of a card as a pair of stability and difficulty. A card
/// has a prior state only where both are given.
pub fn prior_state<T>(stability: Option<T>, difficulty: Option<T>) -> (prior: Option<(T, T)>)
    ensures
        prior == match (stability, difficulty) {
            (Some(s), Some(d)) => Some((s, d)),
            _ => None,
        },
{
    match (stability, difficulty) {
        (Some(s), Some(d)) => Some((s, d)),
        _ => None,
    }
}

} // verus!

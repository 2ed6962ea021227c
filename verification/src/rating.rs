//! The learner's answer as a closed enumeration.

use vstd::prelude::*;

verus! {

/// A learner's self-reported recall outcome.
#[derive(Clone, Copy, Debug, PartialEq, Eq, Structural)]
pub enum Rating {
    Again,
    Hard,
    Good,
    Easy,
}

/// The nearest number in `1..=4`.
pub open spec fn clamp_rating(value: int) -> int {
    if value < 1 {
        1
    } else if value > 4 {
        4
    } else {
        value
    }
}

impl Rating {
    /// The number by which the rating is known: 1 for `Again` up to 4 for `Easy`.
    pub open spec fn number(self) -> int {
        match self {
            Rating::Again => 1,
            Rating::Hard => 2,
            Rating::Good => 3,
            Rating::Easy => 4,
        }
    }

    /// The rating whose number is nearest to `value`.
    pub open spec fn nearest(value: int) -> Rating {
        if value <= 1 {
            Rating::Again
        } else if value == 2 {
            Rating::Hard
        } else if value == 3 {
            Rating::Good
        } else {
            Rating::Easy
        }
    }

    /// Reads a rating from a number. Numbers outside `1..=4` saturate: 0 is
    /// read as `Again`, as is any negative number, anything above 4 as `Easy`.
    pub fn from_i32(value: i32) -> (rating: Rating)
        ensures
            rating == Rating::nearest(value as int),
            rating.number() == clamp_rating(value as int),
    {
        if value <= 1 {
            Rating::Again
        } else if value == 2 {
            Rating::Hard
        } else if value == 3 {
            Rating::Good
        } else {
            Rating::Easy
        }
    }

    /// The rating's number, 1 to 4.
    pub fn value(self) -> (value: u32)
        ensures
            value as int == self.number(),
            1 <= value <= 4,
    {
        match self {
            Rating::Again => 1,
            Rating::Hard => 2,
            Rating::Good => 3,
            Rating::Easy => 4,
        }
    }

    /// Whether the learner recalled the card: every rating but `Again`.
    pub open spec fn recalled(self) -> bool {
        self != Rating::Again
    }

    /// Whether the learner recalled the card: every rating but `Again`.
    pub fn is_recalled(self) -> (recalled: bool)
        ensures
            recalled == self.recalled(),
    {
        match self {
            Rating::Again => false,
            _ => true,
        }
    }

    /// The four ratings in ascending order.
    pub fn all() -> (ratings: Vec<Rating>)
        ensures
            ratings@ == seq![Rating::Again, Rating::Hard, Rating::Good, Rating::Easy],
    {
        let mut ratings: Vec<Rating> = Vec::new();
        ratings.push(Rating::Again);
        ratings.push(Rating::Hard);
        ratings.push(Rating::Good);
        ratings.push(Rating::Easy);
        assert(ratings@ =~= seq![Rating::Again, Rating::Hard, Rating::Good, Rating::Easy]);
        ratings
    }
}

/// Reading a rating's own number gives the rating back.
pub proof fn lemma_rating_round_trip(rating: Rating)
    ensures
        Rating::nearest(rating.number()) == rating,
        clamp_rating(rating.number()) == rating.number(),
{
}

/// Clamping is idempotent, stays within `1..=4` and leaves numbers that are
/// already in range unchanged.
pub proof fn lemma_clamp_rating(value: int)
    ensures
        1 <= clamp_rating(value) <= 4,
        clamp_rating(clamp_rating(value)) == clamp_rating(value),
        1 <= value <= 4 ==> clamp_rating(value) == value,
        Rating::nearest(value).number() == clamp_rating(value),
        Rating::nearest(clamp_rating(value)) == Rating::nearest(value),
{
}

} // verus!

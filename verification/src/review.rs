//! Reviews and review histories, read from parallel sequences of numbers.

use vstd::prelude::*;
use crate::error::FsrsError;
use crate::rating::Rating;

verus! {

/// One review of a card: the answer given and the days since the previous
/// review of the same card.
#[derive(Clone, Copy, Debug, PartialEq, Eq, Structural)]
pub struct Review {
    pub rating: Rating,
    pub elapsed_days: u32,
}

/// The shorter of two lengths.
pub open spec fn shorter(a: int, b: int) -> int {
    if a <= b {
        a
    } else {
        b
    }
}

/// The day count that a signed number stands for: itself where it is not
/// negative, else the unsigned number with the same 32 bits.
pub open spec fn elapsed_of(value: int) -> int {
    if value >= 0 {
        value
    } else {
        value + 0x1_0000_0000
    }
}

/// The review made of the `i`-th rating number and the `i`-th elapsed time.
pub open spec fn review_at(ratings: Seq<i32>, delta_ts: Seq<i32>, i: int) -> Review {
    Review {
        rating: Rating::nearest(ratings[i] as int),
        elapsed_days: elapsed_of(delta_ts[i] as int) as u32,
    }
}

/// The history that two parallel sequences describe, in their order. Where
/// one sequence is longer, what has no partner is left out.
pub open spec fn paired_reviews(ratings: Seq<i32>, delta_ts: Seq<i32>) -> Seq<Review> {
    Seq::new(
        shorter(ratings.len() as int, delta_ts.len() as int) as nat,
        |i: int| review_at(ratings, delta_ts, i),
    )
}

/// Reads a day count from a signed number. A negative number is read as the
/// unsigned number with the same 32 bits.
pub fn elapsed_from_i32(value: i32) -> (days: u32)
    ensures
        days as int == elapsed_of(value as int),
{
    if value >= 0 {
        value as u32
    } else {
        let lifted: i64 = value as i64 + 0x1_0000_0000;
        lifted as u32
    }
}

impl Review {
    /// A review from a rating number, which saturates into `1..=4`, and a
    /// signed day count.
    pub fn new(rating: i32, delta_t: i32) -> (review: Review)
        ensures
            review.rating == Rating::nearest(rating as int),
            review.elapsed_days as int == elapsed_of(delta_t as int),
    {
        Review { rating: Rating::from_i32(rating), elapsed_days: elapsed_from_i32(delta_t) }
    }
}

/// Pairs rating numbers with elapsed times, position by position.
pub fn reviews_from(ratings: &Vec<i32>, delta_ts: &Vec<i32>) -> (reviews: Vec<Review>)
    ensures
        reviews@ == paired_reviews(ratings@, delta_ts@),
{
    let count: usize = if ratings.len() <= delta_ts.len() {
        ratings.len()
    } else {
        delta_ts.len()
    };
    let mut reviews: Vec<Review> = Vec::new();
    let mut i: usize = 0;
    while i < count
        invariant
            i <= count,
            count as int == shorter(ratings@.len() as int, delta_ts@.len() as int),
            reviews@.len() == i,
            forall|j: int| 0 <= j < i ==> reviews@[j] == review_at(ratings@, delta_ts@, j),
        decreases count - i,
    {
        reviews.push(Review::new(ratings[i], delta_ts[i]));
        i += 1;
    }
    assert(reviews@ =~= paired_reviews(ratings@, delta_ts@));
    reviews
}

/// The history to replay: the paired reviews, or `EmptyHistory` where there
/// is not a single one.
pub fn history_from(ratings: &Vec<i32>, delta_ts: &Vec<i32>) -> (history: Result<
    Vec<Review>,
    FsrsError,
>)
    ensures
        paired_reviews(ratings@, delta_ts@).len() > 0 ==> history is Ok,
        match history {
            Ok(reviews) => reviews@ == paired_reviews(ratings@, delta_ts@) && reviews@.len() > 0,
            Err(e) => e == FsrsError::EmptyHistory && paired_reviews(ratings@, delta_ts@).len()
                == 0,
        },
{
    let reviews = reviews_from(ratings, delta_ts);
    if reviews.len() == 0 {
        Err(FsrsError::EmptyHistory)
    } else {
        Ok(reviews)
    }
}

} // verus!

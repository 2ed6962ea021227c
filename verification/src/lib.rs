//! Integer core of a spaced-repetition scheduler: ratings, review histories,
//! the four-way outcome table and the construction of training items from
//! flat review logs.

pub mod batch;
pub mod error;
pub mod failure;
pub mod outcome;
pub mod params;
pub mod rating;
pub mod report;
pub mod review;
pub mod training;

//! A generational genetic-algorithm engine over fixed-length integer
//! chromosomes, with every operator specified and proved.
//!
//! Scores and probabilities are exact integers: a fitness is a count, a
//! selection probability is a fraction with a shared denominator, and a random
//! draw is a ticket below that denominator.

pub mod genetic;

//! Indexed membership between two integer arrays: for a reference array `a`
//! and a probe array `b` of the same integer type, find the positions of `b`
//! whose value occurs somewhere in `a`, and for each such position one
//! position in `a` holding an equal value.

pub mod api;
pub mod key;
pub mod laws;
pub mod matcher;
pub mod search;
pub mod sorting;

pub use key::Key;

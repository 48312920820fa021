//! The per-type entry points: one sequential and one parallel matcher for
//! each supported integer width and signedness, each a compile-time
//! instantiation of the generic matcher.

use vstd::prelude::*;
use crate::matcher::{i1d, par_i1d, valid_match};

verus! {

/// Sequential matcher over `i8` values.
pub fn i1d_i8(a: Vec<i8>, b: Vec<i8>) -> (r: (Vec<usize>, Vec<usize>))
    ensures
        valid_match(a@, b@, r.0@, r.1@),
{
    i1d(&a, &b)
}

/// Sequential matcher over `i16` values.
pub fn i1d_i16(a: Vec<i16>, b: Vec<i16>) -> (r: (Vec<usize>, Vec<usize>))
    ensures
        valid_match(a@, b@, r.0@, r.1@),
{
    i1d(&a, &b)
}

/// Sequential matcher over `i32` values.
pub fn i1d_i32(a: Vec<i32>, b: Vec<i32>) -> (r: (Vec<usize>, Vec<usize>))
    ensures
        valid_match(a@, b@, r.0@, r.1@),
{
    i1d(&a, &b)
}

/// Sequential matcher over `i64` values.
pub fn i1d_i64(a: Vec<i64>, b: Vec<i64>) -> (r: (Vec<usize>, Vec<usize>))
    ensures
        valid_match(a@, b@, r.0@, r.1@),
{
    i1d(&a, &b)
}

/// Sequential matcher over `u8` values.
pub fn i1d_u8(a: Vec<u8>, b: Vec<u8>) -> (r: (Vec<usize>, Vec<usize>))
    ensures
        valid_match(a@, b@, r.0@, r.1@),
{
    i1d(&a, &b)
}

/// Sequential matcher over `u16` values.
pub fn i1d_u16(a: Vec<u16>, b: Vec<u16>) -> (r: (Vec<usize>, Vec<usize>))
    ensures
        valid_match(a@, b@, r.0@, r.1@),
{
    i1d(&a, &b)
}

/// Sequential matcher over `u32` values.
pub fn i1d_u32(a: Vec<u32>, b: Vec<u32>) -> (r: (Vec<usize>, Vec<usize>))
    ensures
        valid_match(a@, b@, r.0@, r.1@),
{
    i1d(&a, &b)
}

/// Sequential matcher over `u64` values.
pub fn i1d_u64(a: Vec<u64>, b: Vec<u64>) -> (r: (Vec<usize>, Vec<usize>))
    ensures
        valid_match(a@, b@, r.0@, r.1@),
{
    i1d(&a, &b)
}

/// Sequential matcher over `isize` values.
pub fn i1d_isize(a: Vec<isize>, b: Vec<isize>) -> (r: (Vec<usize>, Vec<usize>))
    ensures
        valid_match(a@, b@, r.0@, r.1@),
{
    i1d(&a, &b)
}

/// Sequential matcher over `usize` values.
pub fn i1d_usize(a: Vec<usize>, b: Vec<usize>) -> (r: (Vec<usize>, Vec<usize>))
    ensures
        valid_match(a@, b@, r.0@, r.1@),
{
    i1d(&a, &b)
}

/// Parallel matcher over `i8` values.
pub fn par_i1d_i8(a: Vec<i8>, b: Vec<i8>) -> (r: (Vec<usize>, Vec<usize>))
    ensures
        valid_match(a@, b@, r.0@, r.1@),
{
    par_i1d(&a, &b)
}

/// Parallel matcher over `i16` values.
pub fn par_i1d_i16(a: Vec<i16>, b: Vec<i16>) -> (r: (Vec<usize>, Vec<usize>))
    ensures
        valid_match(a@, b@, r.0@, r.1@),
{
    par_i1d(&a, &b)
}

/// Parallel matcher over `i32` values.
pub fn par_i1d_i32(a: Vec<i32>, b: Vec<i32>) -> (r: (Vec<usize>, Vec<usize>))
    ensures
        valid_match(a@, b@, r.0@, r.1@),
{
    par_i1d(&a, &b)
}

/// Parallel matcher over `i64` values.
pub fn par_i1d_i64(a: Vec<i64>, b: Vec<i64>) -> (r: (Vec<usize>, Vec<usize>))
    ensures
        valid_match(a@, b@, r.0@, r.1@),
{
    par_i1d(&a, &b)
}

/// Parallel matcher over `u8` values.
pub fn par_i1d_u8(a: Vec<u8>, b: Vec<u8>) -> (r: (Vec<usize>, Vec<usize>))
    ensures
        valid_match(a@, b@, r.0@, r.1@),
{
    par_i1d(&a, &b)
}

/// Parallel matcher over `u16` values.
pub fn par_i1d_u16(a: Vec<u16>, b: Vec<u16>) -> (r: (Vec<usize>, Vec<usize>))
    ensures
        valid_match(a@, b@, r.0@, r.1@),
{
    par_i1d(&a, &b)
}

/// Parallel matcher over `u32` values.
pub fn par_i1d_u32(a: Vec<u32>, b: Vec<u32>) -> (r: (Vec<usize>, Vec<usize>))
    ensures
        valid_match(a@, b@, r.0@, r.1@),
{
    par_i1d(&a, &b)
}

/// Parallel matcher over `u64` values.
pub fn par_i1d_u64(a: Vec<u64>, b: Vec<u64>) -> (r: (Vec<usize>, Vec<usize>))
    ensures
        valid_match(a@, b@, r.0@, r.1@),
{
    par_i1d(&a, &b)
}

/// Parallel matcher over `isize` values.
pub fn par_i1d_isize(a: Vec<isize>, b: Vec<isize>) -> (r: (Vec<usize>, Vec<usize>))
    ensures
        valid_match(a@, b@, r.0@, r.1@),
{
    par_i1d(&a, &b)
}

/// Parallel matcher over `usize` values.
pub fn par_i1d_usize(a: Vec<usize>, b: Vec<usize>) -> (r: (Vec<usize>, Vec<usize>))
    ensures
        valid_match(a@, b@, r.0@, r.1@),
{
    par_i1d(&a, &b)
}

} // verus!

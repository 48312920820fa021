use i1d::api::{i1d_i16, i1d_i32, i1d_i64, i1d_i8, i1d_isize, i1d_u16, i1d_u32, i1d_u64, i1d_u8,
    i1d_usize};
use i1d::api::{par_i1d_i16, par_i1d_i32, par_i1d_i64, par_i1d_i8, par_i1d_isize, par_i1d_u16,
    par_i1d_u32, par_i1d_u64, par_i1d_u8, par_i1d_usize};
use i1d::sorting::argsort;

#[test]
fn mixed_values_sequential() {
    let a: Vec<i64> = vec![5, 3, 3, 9];
    let b: Vec<i64> = vec![3, 7, 9];
    let (ia, ib) = i1d_i64(a.clone(), b.clone());
    assert_eq!(ib, vec![0, 2]);
    assert_eq!(ia.len(), 2);
    assert!(ia[0] == 1 || ia[0] == 2);
    assert_eq!(ia[1], 3);
    assert_eq!(a[ia[0]], b[0]);
    assert_eq!(a[ia[1]], b[2]);
}

#[test]
fn mixed_values_parallel() {
    let a: Vec<i64> = vec![5, 3, 3, 9];
    let b: Vec<i64> = vec![3, 7, 9];
    let (ia, ib) = par_i1d_i64(a.clone(), b.clone());
    assert_eq!(ib, vec![0, 2]);
    assert_eq!(ia.len(), 2);
    assert!(ia[0] == 1 || ia[0] == 2);
    assert_eq!(ia[1], 3);
}

#[test]
fn empty_reference_array() {
    let a: Vec<i32> = vec![];
    let b: Vec<i32> = vec![1, 2, 3];
    let (ia, ib) = i1d_i32(a.clone(), b.clone());
    assert_eq!(ia, Vec::<usize>::new());
    assert_eq!(ib, Vec::<usize>::new());
    let (ia, ib) = par_i1d_i32(a, b);
    assert_eq!(ia, Vec::<usize>::new());
    assert_eq!(ib, Vec::<usize>::new());
}

#[test]
fn empty_probe_array() {
    let a: Vec<i32> = vec![1, 2, 3];
    let b: Vec<i32> = vec![];
    let (ia, ib) = i1d_i32(a.clone(), b.clone());
    assert_eq!(ia, Vec::<usize>::new());
    assert_eq!(ib, Vec::<usize>::new());
    let (ia, ib) = par_i1d_i32(a, b);
    assert_eq!(ia, Vec::<usize>::new());
    assert_eq!(ib, Vec::<usize>::new());
}

#[test]
fn duplicates_in_probe_array_are_kept() {
    let a: Vec<u8> = vec![4];
    let b: Vec<u8> = vec![4, 4];
    let (ia, ib) = i1d_u8(a.clone(), b.clone());
    assert_eq!(ia, vec![0, 0]);
    assert_eq!(ib, vec![0, 1]);
    let (ia, ib) = par_i1d_u8(a, b);
    assert_eq!(ia, vec![0, 0]);
    assert_eq!(ib, vec![0, 1]);
}

#[test]
fn duplicates_in_reference_array_matched_once() {
    let a: Vec<u32> = vec![7, 7, 7, 1];
    let b: Vec<u32> = vec![7, 2, 7];
    let (ia, ib) = i1d_u32(a.clone(), b.clone());
    assert_eq!(ib, vec![0, 2]);
    for (&pa, &pb) in ia.iter().zip(ib.iter()) {
        assert_eq!(a[pa], b[pb]);
    }
}

#[test]
fn membership_and_completeness_on_larger_input() {
    let a: Vec<i16> = vec![10, -3, 42, 0, 10, 7, -3, 99];
    let b: Vec<i16> = vec![0, 5, -3, 10, 11, 99, 42, 42, -100];
    let (ia, ib) = i1d_i16(a.clone(), b.clone());
    assert_eq!(ia.len(), ib.len());
    for (&pa, &pb) in ia.iter().zip(ib.iter()) {
        assert_eq!(a[pa], b[pb]);
    }
    for j in 0..b.len() {
        let occurs = a.contains(&b[j]);
        let emitted = ib.iter().filter(|&&p| p == j).count();
        assert_eq!(emitted, if occurs { 1 } else { 0 });
    }
}

#[test]
fn sequential_and_parallel_agree() {
    let a: Vec<i8> = vec![3, -1, 3, 100, -128, 0, 7];
    let b: Vec<i8> = vec![-128, 7, 7, 2, 3, 0, 127, -1];
    let (ia_s, ib_s) = i1d_i8(a.clone(), b.clone());
    let (ia_p, ib_p) = par_i1d_i8(a.clone(), b.clone());
    assert_eq!(ib_s, ib_p);
    let pairs_s: Vec<(i8, usize)> = ia_s.iter().zip(ib_s.iter()).map(|(&pa, &pb)| (a[pa], pb)).collect();
    let pairs_p: Vec<(i8, usize)> = ia_p.iter().zip(ib_p.iter()).map(|(&pa, &pb)| (a[pa], pb)).collect();
    assert_eq!(pairs_s, pairs_p);
}

#[test]
fn permuting_reference_array_keeps_matches() {
    let a1: Vec<u64> = vec![8, 2, 5, 2, 11];
    let a2: Vec<u64> = vec![11, 2, 2, 8, 5];
    let b: Vec<u64> = vec![2, 9, 11, 8, 8];
    let (ia1, ib1) = i1d_u64(a1.clone(), b.clone());
    let (ia2, ib2) = i1d_u64(a2.clone(), b.clone());
    assert_eq!(ib1, ib2);
    assert_eq!(ia1.len(), ia2.len());
    let v1: Vec<u64> = ia1.iter().zip(ib1.iter()).map(|(_, &pb)| b[pb]).collect();
    let v2: Vec<u64> = ia2.iter().zip(ib2.iter()).map(|(_, &pb)| b[pb]).collect();
    assert_eq!(v1, v2);
}

#[test]
fn argsort_reads_values_ascending() {
    let data: Vec<i64> = vec![9, -4, 7, -4, 0];
    let perm = argsort(&data);
    assert_eq!(perm.len(), data.len());
    let mut seen = vec![false; data.len()];
    for &p in perm.iter() {
        assert!(p < data.len());
        seen[p] = true;
    }
    assert!(seen.iter().all(|&s| s));
    for w in perm.windows(2) {
        assert!(data[w[0]] <= data[w[1]]);
    }
}

#[test]
fn signed_extremes() {
    let a: Vec<i64> = vec![i64::MIN, -1, i64::MAX];
    let b: Vec<i64> = vec![i64::MAX, 0, i64::MIN];
    let (ia, ib) = i1d_i64(a.clone(), b.clone());
    assert_eq!(ib, vec![0, 2]);
    assert_eq!(a[ia[0]], i64::MAX);
    assert_eq!(a[ia[1]], i64::MIN);
}

#[test]
fn unsigned_extremes() {
    let a: Vec<u64> = vec![u64::MAX, 0];
    let b: Vec<u64> = vec![0, u64::MAX, 1];
    let (ia, ib) = par_i1d_u64(a.clone(), b.clone());
    assert_eq!(ib, vec![0, 1]);
    assert_eq!(ia, vec![1, 0]);
}

#[test]
fn every_width_sequential() {
    assert_eq!(i1d_i8(vec![1, 2], vec![2]), (vec![1], vec![0]));
    assert_eq!(i1d_i16(vec![1, 2], vec![2]), (vec![1], vec![0]));
    assert_eq!(i1d_i32(vec![1, 2], vec![2]), (vec![1], vec![0]));
    assert_eq!(i1d_i64(vec![1, 2], vec![2]), (vec![1], vec![0]));
    assert_eq!(i1d_u8(vec![1, 2], vec![2]), (vec![1], vec![0]));
    assert_eq!(i1d_u16(vec![1, 2], vec![2]), (vec![1], vec![0]));
    assert_eq!(i1d_u32(vec![1, 2], vec![2]), (vec![1], vec![0]));
    assert_eq!(i1d_u64(vec![1, 2], vec![2]), (vec![1], vec![0]));
    assert_eq!(i1d_isize(vec![1, 2], vec![2]), (vec![1], vec![0]));
    assert_eq!(i1d_usize(vec![1, 2], vec![2]), (vec![1], vec![0]));
}

#[test]
fn every_width_parallel() {
    assert_eq!(par_i1d_i8(vec![3, 1], vec![3, 5]), (vec![0], vec![0]));
    assert_eq!(par_i1d_i16(vec![3, 1], vec![3, 5]), (vec![0], vec![0]));
    assert_eq!(par_i1d_i32(vec![3, 1], vec![3, 5]), (vec![0], vec![0]));
    assert_eq!(par_i1d_i64(vec![3, 1], vec![3, 5]), (vec![0], vec![0]));
    assert_eq!(par_i1d_u8(vec![3, 1], vec![3, 5]), (vec![0], vec![0]));
    assert_eq!(par_i1d_u16(vec![3, 1], vec![3, 5]), (vec![0], vec![0]));
    assert_eq!(par_i1d_u32(vec![3, 1], vec![3, 5]), (vec![0], vec![0]));
    assert_eq!(par_i1d_u64(vec![3, 1], vec![3, 5]), (vec![0], vec![0]));
    assert_eq!(par_i1d_isize(vec![3, 1], vec![3, 5]), (vec![0], vec![0]));
    assert_eq!(par_i1d_usize(vec![3, 1], vec![3, 5]), (vec![0], vec![0]));
}

#[test]
fn parallel_scan_on_long_probe_array() {
    let a: Vec<u32> = (0..500).map(|x| x * 2).collect();
    let b: Vec<u32> = (0..2000).collect();
    let (ia, ib) = par_i1d_u32(a.clone(), b.clone());
    let (ia_s, ib_s) = i1d_u32(a.clone(), b.clone());
    assert_eq!(ib, ib_s);
    assert_eq!(ia, ia_s);
    assert_eq!(ib.len(), 500);
    for (&pa, &pb) in ia.iter().zip(ib.iter()) {
        assert_eq!(a[pa], b[pb]);
        assert_eq!(b[pb] % 2, 0);
    }
}

use soa_iter::bench::{
    test_iter_opt, test_izip, test_new, test_new2, test_new2_rev, test_new_rev, test_old,
    test_old2, test_zip, test_zip_rev, test_zip_without_ref,
};
use soa_iter::{new2_slice, new_slice, old2_slice, old_slice, SRef, SSlice};

fn calc(r: SRef<'_, f32>) -> f32 {
    *r.a as f32 + r.b + r.c + r.d
}

// Records the visit order: each row's `a` is appended.
fn visit(mut acc: Vec<u32>, r: SRef<'_, f32>) -> Vec<u32> {
    acc.push(*r.a);
    acc
}

const A: [u32; 4] = [1, 2, 3, 4];
const B: [f32; 4] = [0.5, 1.5, 2.5, 3.5];
const C: [f32; 4] = [10.0, 20.0, 30.0, 40.0];
const D: [f32; 4] = [100.0, 200.0, 300.0, 400.0];
// 10 + 8 + 100 + 1000
const SUM: f32 = 1118.0;

#[test]
fn every_walk_sums_the_same() {
    let sl_old = old_slice::SSlice { a: &A, b: &B, c: &C, d: &D };
    let sl_old2 = old2_slice::SSlice { a: &A, b: &B, c: &C, d: &D };
    let sl_new = new_slice::SSlice { a: &A, b: &B, c: &C, d: &D };
    let sl_new2 = new2_slice::SSlice { a: &A, b: &B, c: &C, d: &D };
    let sl_soa = SSlice { a: &A, b: &B, c: &C, d: &D };
    let step = |acc: f32, r: SRef<'_, f32>| acc + calc(r);
    assert_eq!(test_izip(&sl_old, 0.0, step), SUM);
    assert_eq!(test_zip(&sl_old, 0.0, step), SUM);
    assert_eq!(test_zip_rev(&sl_old, 0.0, step), SUM);
    assert_eq!(
        test_zip_without_ref(&sl_old, 0.0, |acc: f32, (((a, b), c), d)| acc + (*a as f32 + b + c + d)),
        SUM
    );
    assert_eq!(test_old(&sl_old, 0.0, step), SUM);
    assert_eq!(test_old2(&sl_old2, 0.0, step), SUM);
    assert_eq!(test_new(&sl_new, 0.0, step), SUM);
    assert_eq!(test_new_rev(&sl_new, 0.0, step), SUM);
    assert_eq!(test_new2(&sl_new2, 0.0, step), SUM);
    assert_eq!(test_new2_rev(&sl_new2, 0.0, step), SUM);
    assert_eq!(test_iter_opt(&sl_soa, 0.0, step), SUM);
}

#[test]
fn forward_walks_visit_in_order_and_reverse_walks_backwards() {
    let sl_old = old_slice::SSlice { a: &A, b: &B, c: &C, d: &D };
    let sl_new = new_slice::SSlice { a: &A, b: &B, c: &C, d: &D };
    let sl_new2 = new2_slice::SSlice { a: &A, b: &B, c: &C, d: &D };
    assert_eq!(test_izip(&sl_old, Vec::new(), visit), vec![1, 2, 3, 4]);
    assert_eq!(test_zip(&sl_old, Vec::new(), visit), vec![1, 2, 3, 4]);
    assert_eq!(test_old(&sl_old, Vec::new(), visit), vec![1, 2, 3, 4]);
    assert_eq!(test_new(&sl_new, Vec::new(), visit), vec![1, 2, 3, 4]);
    assert_eq!(test_new2(&sl_new2, Vec::new(), visit), vec![1, 2, 3, 4]);
    assert_eq!(test_zip_rev(&sl_old, Vec::new(), visit), vec![4, 3, 2, 1]);
    assert_eq!(test_new_rev(&sl_new, Vec::new(), visit), vec![4, 3, 2, 1]);
    assert_eq!(test_new2_rev(&sl_new2, Vec::new(), visit), vec![4, 3, 2, 1]);
}

#[test]
fn zipped_folds_stop_at_the_shortest_column() {
    let short_b = [0.5f32, 1.5];
    let sl_old = old_slice::SSlice { a: &A, b: &short_b, c: &C, d: &D };
    let sl_new = new_slice::SSlice { a: &A, b: &short_b, c: &C, d: &D };
    let sl_soa = SSlice { a: &A, b: &short_b, c: &C, d: &D };
    assert_eq!(test_izip(&sl_old, Vec::new(), visit), vec![1, 2]);
    assert_eq!(test_zip_rev(&sl_old, Vec::new(), visit), vec![2, 1]);
    assert_eq!(test_new(&sl_new, Vec::new(), visit), vec![1, 2]);
    assert_eq!(test_new_rev(&sl_new, Vec::new(), visit), vec![2, 1]);
    assert_eq!(test_iter_opt(&sl_soa, Vec::new(), visit), vec![1, 2]);
}

#[test]
fn cursor_and_index_folds_follow_column_a() {
    let long_b = [0.5f32, 1.5, 2.5, 3.5, 4.5, 5.5];
    let sl_old = old_slice::SSlice { a: &A, b: &long_b, c: &C, d: &D };
    let sl_old2 = old2_slice::SSlice { a: &A, b: &long_b, c: &C, d: &D };
    let sl_new2 = new2_slice::SSlice { a: &A, b: &long_b, c: &C, d: &D };
    assert_eq!(test_old(&sl_old, Vec::new(), visit), vec![1, 2, 3, 4]);
    assert_eq!(test_old2(&sl_old2, Vec::new(), visit), vec![1, 2, 3, 4]);
    assert_eq!(test_new2_rev(&sl_new2, Vec::new(), visit), vec![4, 3, 2, 1]);
}

#[test]
fn folds_over_no_rows_give_the_start_value() {
    let a: [u32; 0] = [];
    let b: [f32; 0] = [];
    let sl_old = old_slice::SSlice { a: &a, b: &b, c: &b, d: &b };
    let sl_new2 = new2_slice::SSlice { a: &a, b: &b, c: &b, d: &b };
    assert_eq!(test_old(&sl_old, 7.0, |acc: f32, r: SRef<'_, f32>| acc + calc(r)), 7.0);
    assert_eq!(test_new2_rev(&sl_new2, 7.0, |acc: f32, r: SRef<'_, f32>| acc + calc(r)), 7.0);
}

use soa_iter::{indexed, straightforward, zipped, ContainerRef, InitFromVectors};

fn row<'a>(a: &'a u32, b: &'a f32, c: &'a f32, d: &'a f32) -> ContainerRef<'a, f32> {
    ContainerRef { a, b, c, d }
}

#[test]
fn straightforward_walks_forward_then_stops() {
    let a = [1u32, 2, 3];
    let b = [10.0f32, 20.0, 30.0];
    let c = [100.0f32, 200.0, 300.0];
    let d = [0.5f32, 1.5, 2.5];
    let sl = straightforward::ContainerSlice::new(&a, &b, &c, &d);
    let mut it = sl.into_iter();
    assert_eq!(it.next(), Some(row(&1, &10.0, &100.0, &0.5)));
    assert_eq!(it.next(), Some(row(&2, &20.0, &200.0, &1.5)));
    assert_eq!(it.next(), Some(row(&3, &30.0, &300.0, &2.5)));
    assert_eq!(it.next(), None);
    assert_eq!(it.next(), None);
}

#[test]
fn straightforward_front_and_back_meet() {
    let a = [1u32, 2, 3, 4];
    let b = [1.0f32, 2.0, 3.0, 4.0];
    let sl = straightforward::ContainerSlice::new(&a, &b, &b, &b);
    let mut it = sl.into_iter();
    assert_eq!(it.next_back(), Some(row(&4, &4.0, &4.0, &4.0)));
    assert_eq!(it.next(), Some(row(&1, &1.0, &1.0, &1.0)));
    assert_eq!(it.next_back(), Some(row(&3, &3.0, &3.0, &3.0)));
    assert_eq!(it.next(), Some(row(&2, &2.0, &2.0, &2.0)));
    assert_eq!(it.next(), None);
    assert_eq!(it.next_back(), None);
}

#[test]
fn straightforward_longer_tail_columns_misalign_from_the_back() {
    // Column `b` is one longer: from the front the rows line up by index,
    // from the back each cursor starts at the end of its own column.
    let a = [1u32];
    let b = [10.0f32, 20.0];
    let sl = straightforward::ContainerSlice::new(&a, &b, &b, &b);
    let mut front = sl.into_iter();
    assert_eq!(front.next(), Some(row(&1, &10.0, &10.0, &10.0)));
    let mut back = sl.into_iter();
    assert_eq!(back.next_back(), Some(row(&1, &20.0, &20.0, &20.0)));
}

#[test]
fn zipped_stops_at_the_shortest_column() {
    let a = [1u32, 2, 3];
    let b = [1.0f32, 2.0];
    let c = [1.0f32, 2.0, 3.0];
    let sl = zipped::ContainerSlice::new(&a, &b, &c, &c);
    let mut it = sl.into_iter();
    assert_eq!(it.next(), Some(row(&1, &1.0, &1.0, &1.0)));
    assert_eq!(it.next(), Some(row(&2, &2.0, &2.0, &2.0)));
    assert_eq!(it.next(), None);
    let mut back = sl.into_iter();
    assert_eq!(back.next_back(), Some(row(&2, &2.0, &2.0, &2.0)));
    assert_eq!(back.next_back(), Some(row(&1, &1.0, &1.0, &1.0)));
    assert_eq!(back.next_back(), None);
}

#[test]
fn indexed_front_and_back_meet() {
    let a = [7u32, 8, 9];
    let b = [0.25f32, 0.5, 0.75];
    let sl = indexed::ContainerSlice::new(&a, &b, &b, &b);
    let mut it = sl.into_iter();
    assert_eq!(it.next(), Some(row(&7, &0.25, &0.25, &0.25)));
    assert_eq!(it.next_back(), Some(row(&9, &0.75, &0.75, &0.75)));
    assert_eq!(it.next_back(), Some(row(&8, &0.5, &0.5, &0.5)));
    assert_eq!(it.next(), None);
    assert_eq!(it.next_back(), None);
}

#[test]
fn indexed_reads_only_the_first_rows_of_longer_columns() {
    let a = [1u32, 2];
    let b = [1.0f32, 2.0, 3.0, 4.0];
    let sl = indexed::ContainerSlice::new(&a, &b, &b, &b);
    let mut it = sl.into_iter();
    assert_eq!(it.next_back(), Some(row(&2, &2.0, &2.0, &2.0)));
    assert_eq!(it.next_back(), Some(row(&1, &1.0, &1.0, &1.0)));
    assert_eq!(it.next_back(), None);
}

#[test]
fn empty_columns_yield_nothing() {
    let a: [u32; 0] = [];
    let b: [f32; 0] = [];
    let s1 = straightforward::ContainerSlice::new(&a, &b, &b, &b);
    let s2 = zipped::ContainerSlice::new(&a, &b, &b, &b);
    let s3 = indexed::ContainerSlice::new(&a, &b, &b, &b);
    assert_eq!(s1.into_iter().next(), None);
    assert_eq!(s1.into_iter().next_back(), None);
    assert_eq!(s2.into_iter().next(), None);
    assert_eq!(s2.into_iter().next_back(), None);
    assert_eq!(s3.into_iter().next(), None);
    assert_eq!(s3.into_iter().next_back(), None);
}

#[test]
fn the_three_walks_agree_on_equal_columns() {
    let a = [5u32, 6, 7, 8, 9];
    let b = [0.5f32, 1.5, 2.5, 3.5, 4.5];
    let c = [9.0f32, 8.0, 7.0, 6.0, 5.0];
    let d = [1.0f32, 1.0, 2.0, 3.0, 5.0];
    let s1 = straightforward::ContainerSlice::new(&a, &b, &c, &d);
    let s2 = zipped::ContainerSlice::new(&a, &b, &c, &d);
    let s3 = indexed::ContainerSlice::new(&a, &b, &c, &d);
    let (mut i1, mut i2, mut i3) = (s1.into_iter(), s2.into_iter(), s3.into_iter());
    for k in 0..5 {
        let expected = Some(row(&a[k], &b[k], &c[k], &d[k]));
        assert_eq!(i1.next(), expected);
        assert_eq!(i2.next(), expected);
        assert_eq!(i3.next(), expected);
    }
    assert_eq!(i1.next(), None);
    assert_eq!(i2.next(), None);
    assert_eq!(i3.next(), None);
}

#[test]
fn from_keeps_the_columns() {
    let a = [1u32];
    let b = [2.0f32];
    let original = soa_iter::ContainerSlice { a: &a, b: &b, c: &b, d: &b };
    let sl: zipped::ContainerSlice<f32> = zipped::ContainerSlice::from(original);
    assert_eq!(sl.0.a, &[1u32][..]);
    assert_eq!(sl.0.b, &[2.0f32][..]);
}

// The library's own benchmark passes, run once on integer columns so that
// the forward and backward sums can be compared exactly.

fn columns(n: u32) -> (Vec<u32>, Vec<u32>, Vec<u32>, Vec<u32>) {
    let a: Vec<u32> = (0..n).collect();
    let b: Vec<u32> = (0..n).map(|x| 2 * x).collect();
    let c: Vec<u32> = (0..n).map(|x| 3 * x).collect();
    let d: Vec<u32> = (0..n).map(|x| x % 7).collect();
    (a, b, c, d)
}

fn value(r: &ContainerRef<'_, u32>) -> u64 {
    *r.a as u64 + *r.b as u64 + *r.c as u64 + *r.d as u64
}

fn expected(a: &[u32], b: &[u32], c: &[u32], d: &[u32]) -> u64 {
    (0..a.len()).map(|i| a[i] as u64 + b[i] as u64 + c[i] as u64 + d[i] as u64).sum()
}

#[test]
fn straightforward_go_straight_and_go_backwards() {
    let (a, b, c, d) = columns(1000);
    let sl = straightforward::ContainerSlice::new(&a, &b, &c, &d);
    let (mut fwd, mut bwd) = (0u64, 0u64);
    let mut it = sl.into_iter();
    while let Some(r) = it.next() {
        fwd += value(&r);
    }
    let mut it = sl.into_iter();
    while let Some(r) = it.next_back() {
        bwd += value(&r);
    }
    assert_eq!(fwd, expected(&a, &b, &c, &d));
    assert_eq!(bwd, fwd);
}

#[test]
fn zipped_go_straight_and_go_backwards() {
    let (a, b, c, d) = columns(1000);
    let sl = zipped::ContainerSlice::new(&a, &b, &c, &d);
    let (mut fwd, mut bwd) = (0u64, 0u64);
    let mut it = sl.into_iter();
    while let Some(r) = it.next() {
        fwd += value(&r);
    }
    let mut it = sl.into_iter();
    while let Some(r) = it.next_back() {
        bwd += value(&r);
    }
    assert_eq!(fwd, expected(&a, &b, &c, &d));
    assert_eq!(bwd, fwd);
}

#[test]
fn indexed_go_straight_and_go_backwards() {
    let (a, b, c, d) = columns(1000);
    let sl = indexed::ContainerSlice::new(&a, &b, &c, &d);
    let (mut fwd, mut bwd) = (0u64, 0u64);
    let mut it = sl.into_iter();
    while let Some(r) = it.next() {
        fwd += value(&r);
    }
    let mut it = sl.into_iter();
    while let Some(r) = it.next_back() {
        bwd += value(&r);
    }
    assert_eq!(fwd, expected(&a, &b, &c, &d));
    assert_eq!(bwd, fwd);
}

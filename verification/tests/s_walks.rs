use soa_iter::data::random_u32_column;
use soa_iter::{new2_slice, new_slice, old2_slice, old_slice, SRef, SSlice};

fn row<'a>(a: &'a u32, b: &'a u32, c: &'a u32, d: &'a u32) -> SRef<'a, u32> {
    SRef { a, b, c, d }
}

#[test]
fn old_walk_steps_every_cursor() {
    let a = [1u32, 2];
    let b = [3u32, 4, 5];
    let sl = old_slice::SSlice { a: &a, b: &b, c: &b, d: &b };
    let mut it = sl.into_iter();
    assert_eq!(it.next(), Some(row(&1, &3, &3, &3)));
    assert_eq!(it.next(), Some(row(&2, &4, &4, &4)));
    assert_eq!(it.next(), None);
    // The last call stepped the other cursors past the third entry too.
    assert_eq!(it.b.size_hint(), (0, Some(0)));
}

#[test]
fn old2_walk_steps_the_tails_only_with_a() {
    let a = [1u32, 2];
    let b = [3u32, 4, 5];
    let sl = old2_slice::SSlice { a: &a, b: &b, c: &b, d: &b };
    let mut it = sl.into_iter();
    assert_eq!(it.size_hint(), (2, Some(2)));
    assert_eq!(it.next(), Some(row(&1, &3, &3, &3)));
    assert_eq!(it.size_hint(), (1, Some(1)));
    assert_eq!(it.next(), Some(row(&2, &4, &4, &4)));
    assert_eq!(it.next(), None);
    assert_eq!(it.size_hint(), (0, Some(0)));
    assert_eq!(it.b.size_hint(), (1, Some(1)));
}

#[test]
fn new_walk_is_double_ended_and_stops_at_the_shortest() {
    let a = [1u32, 2, 3, 4];
    let b = [5u32, 6, 7];
    let sl = new_slice::SSlice { a: &a, b: &b, c: &b, d: &b };
    let mut it = sl.into_iter();
    assert_eq!(it.next_back(), Some(row(&3, &7, &7, &7)));
    assert_eq!(it.next(), Some(row(&1, &5, &5, &5)));
    assert_eq!(it.next(), Some(row(&2, &6, &6, &6)));
    assert_eq!(it.next(), None);
    assert_eq!(it.next_back(), None);
}

#[test]
fn new2_walk_is_double_ended() {
    let a = [1u32, 2, 3];
    let b = [4u32, 5, 6];
    let sl = new2_slice::SSlice { a: &a, b: &b, c: &b, d: &b };
    let mut it = sl.into_iter();
    assert_eq!(it.next_back(), Some(row(&3, &6, &6, &6)));
    assert_eq!(it.next(), Some(row(&1, &4, &4, &4)));
    assert_eq!(it.next_back(), Some(row(&2, &5, &5, &5)));
    assert_eq!(it.next(), None);
    assert_eq!(it.next_back(), None);
}

#[test]
fn new2_collect_and_collect_rev() {
    let a = [1u32, 2, 3];
    let b = [4u32, 5, 6];
    let sl = new2_slice::SSlice { a: &a, b: &b, c: &b, d: &b };
    let forward = sl.into_iter().collect();
    assert_eq!(forward, vec![row(&1, &4, &4, &4), row(&2, &5, &5, &5), row(&3, &6, &6, &6)]);
    let backward = sl.into_iter().collect_rev();
    assert_eq!(backward, vec![row(&3, &6, &6, &6), row(&2, &5, &5, &5), row(&1, &4, &4, &4)]);
    let mut it = sl.into_iter();
    it.next();
    assert_eq!(it.collect_rev(), vec![row(&3, &6, &6, &6), row(&2, &5, &5, &5)]);
}

#[test]
fn soa_walk_zips_the_columns() {
    let a = [1u32, 2];
    let b = [3u32, 4];
    let sl = SSlice { a: &a, b: &b, c: &b, d: &b };
    let mut it = sl.iter();
    assert_eq!(it.next_back(), Some(row(&2, &4, &4, &4)));
    assert_eq!(it.next(), Some(row(&1, &3, &3, &3)));
    assert_eq!(it.next(), None);
    assert_eq!(it.next_back(), None);
}

#[test]
fn every_walk_agrees_on_random_equal_columns() {
    let a = random_u32_column(257);
    let b = random_u32_column(257);
    let c = random_u32_column(257);
    let d = random_u32_column(257);
    let old = old_slice::SSlice { a: &a, b: &b, c: &c, d: &d };
    let old2 = old2_slice::SSlice { a: &a, b: &b, c: &c, d: &d };
    let new = new_slice::SSlice { a: &a, b: &b, c: &c, d: &d };
    let new2 = new2_slice::SSlice { a: &a, b: &b, c: &c, d: &d };
    let soa = SSlice { a: &a, b: &b, c: &c, d: &d };
    let (mut i1, mut i2, mut i3, mut i4, mut i5) =
        (old.into_iter(), old2.into_iter(), new.into_iter(), new2.into_iter(), soa.iter());
    for k in 0..257 {
        let expected = Some(row(&a[k], &b[k], &c[k], &d[k]));
        assert_eq!(i1.next(), expected);
        assert_eq!(i2.next(), expected);
        assert_eq!(i3.next(), expected);
        assert_eq!(i4.next(), expected);
        assert_eq!(i5.next(), expected);
    }
    assert_eq!(i1.next(), None);
    assert_eq!(i2.next(), None);
    assert_eq!(i3.next(), None);
    assert_eq!(i4.next(), None);
    assert_eq!(i5.next(), None);
}

#[test]
fn random_column_has_the_asked_length() {
    assert_eq!(random_u32_column(0).len(), 0);
    assert_eq!(random_u32_column(1000).len(), 1000);
}

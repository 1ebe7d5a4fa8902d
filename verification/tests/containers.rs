use branded::certificate::NonEmpty;
use branded::container::scope;
use branded::index::Index;
use branded::range::Range;
use branded::storage::{ContainerTrait, Contiguous, ContiguousMut, GetUnchecked, GetUncheckedMut};

#[test]
fn scope_returns_what_the_routine_returns() {
    let n = scope(vec![1, 2, 3], |c| c.len() * 2);
    assert_eq!(n, 6);
    let unit = scope(Vec::<u8>::new(), |c| c.len());
    assert_eq!(unit, 0);
}

#[test]
fn scope_over_borrowed_storage() {
    let data = [4, 5, 6];
    let last = scope(&data[..], |c| {
        let r = c.range().nonempty().unwrap();
        *c.index(r.last())
    });
    assert_eq!(last, 6);
    let mut owned = [1, 2, 3];
    scope(&mut owned[..], |mut c| {
        let r = c.range().nonempty().unwrap();
        c.swap(r.first(), r.last());
    });
    assert_eq!(owned, [3, 2, 1]);
}

#[test]
fn full_range_spans_the_container() {
    scope(vec![0u8; 10], |c| {
        let r = c.range();
        assert_eq!((r.start(), r.end()), (0, 10));
        assert_eq!(c.len(), 10);
    });
    scope(Vec::<u8>::new(), |c| {
        assert!(c.range().is_empty());
        assert!(c.range().nonempty().is_none());
    });
}

#[test]
fn container_split_at_index() {
    scope(vec![0u8; 6], |c| {
        let (before, from) = c.split_at(Index::<'_, NonEmpty>::new(2));
        assert_eq!((before.start(), before.end()), (0, 2));
        assert_eq!((from.start(), from.end()), (2, 6));
        assert_eq!(from.last().integer(), 5);
    });
}

#[test]
fn read_and_write_by_index() {
    let out = scope(vec![10, 20, 30], |mut c| {
        let r = c.range().nonempty().unwrap();
        assert_eq!(*c.index(r.first()), 10);
        assert_eq!(*c.index(r.upper_middle()), 20);
        assert_eq!(*c.index(r.last()), 30);
        *c.index_mut(r.upper_middle()) = 25;
        c.into_inner()
    });
    assert_eq!(out, [10, 25, 30]);
}

#[test]
fn swap_exchanges_two_elements() {
    let out = scope(vec![String::from("a"), String::from("b"), String::from("c")], |mut c| {
        let r = c.range().nonempty().unwrap();
        c.swap(r.first(), r.last());
        c.swap(r.last(), r.upper_middle());
        c.swap(r.first(), r.first());
        c.into_inner()
    });
    assert_eq!(out, ["c", "a", "b"]);
}

#[test]
fn slices_of_ranges() {
    scope(vec![1, 2, 3, 4, 5], |mut c| {
        let (_, rest, _) = c.range().split_at(1);
        let (middle, _, _) = rest.split_at(3);
        assert_eq!(c.slice(middle), [2, 3, 4]);
        assert_eq!(c.slice(Range::from(2, 2)), []);
        assert_eq!(c.slice_from(Index::<'_, NonEmpty>::new(3)), [4, 5]);
        assert_eq!(c.slice_to(Index::<'_, NonEmpty>::new(3)), [1, 2, 3]);
        assert_eq!(c.as_slice(), [1, 2, 3, 4, 5]);
        c.slice_mut(middle)[0] = 20;
        c.slice_from_mut(Index::<'_, NonEmpty>::new(4))[0] = 50;
        c.slice_to_mut(Index::<'_, NonEmpty>::new(1))[0] = 10;
        c.as_mut_slice()[2] = 30;
        assert_eq!(c.as_slice(), [10, 20, 30, 4, 50]);
    });
}

#[test]
fn rotate_moves_the_last_to_the_front() {
    let out = scope(vec![1, 2, 3, 4, 5], |mut c| {
        c.rotate1_up(Range::from_ne(1, 4));
        c.into_inner()
    });
    assert_eq!(out, [1, 4, 2, 3, 5]);
    let whole = scope(vec![1, 2, 3], |mut c| {
        let r = c.range().nonempty().unwrap();
        c.rotate1_up(r);
        c.into_inner()
    });
    assert_eq!(whole, [3, 1, 2]);
    let single = scope(vec![1, 2, 3], |mut c| {
        c.rotate1_up(Range::from_ne(1, 2));
        c.into_inner()
    });
    assert_eq!(single, [1, 2, 3]);
}

#[test]
fn scan_back_over_a_run() {
    scope(vec![1, 5, 6, 7, 2], |c| {
        let run = c.scan_from_rev(Index::new(4), |x: &i32| *x > 4);
        assert_eq!((run.start(), run.end()), (1, 5));
        let none = c.scan_from_rev(Index::new(1), |x: &i32| *x > 4);
        assert_eq!((none.start(), none.end()), (1, 2));
        let all = c.scan_from_rev(Index::new(3), |_: &i32| true);
        assert_eq!((all.start(), all.end()), (0, 4));
        let first = c.scan_from_rev(Index::new(0), |_: &i32| true);
        assert_eq!((first.start(), first.end()), (0, 1));
    });
}

#[test]
fn zipped_stops_at_the_shorter() {
    scope(vec![1, 2, 3], |a| {
        scope(vec![0u8; 5], |b| {
            let mut z = a.zipped(&b);
            assert_eq!(z.len(), 3);
            let (i, j) = z.next_back().unwrap();
            assert_eq!((i.integer(), j.integer()), (2, 2));
            assert_eq!(b.zipped(&a).len(), 3);
        })
    });
}

#[test]
fn storage_of_vectors_and_slices() {
    let mut v = vec![1, 2, 3];
    assert_eq!(v.base_len(), 3);
    assert_eq!(*v.unchecked(1), 2);
    *v.unchecked_mut(1) = 7;
    assert_eq!(Contiguous::as_slice(&v), [1, 7, 3]);
    ContiguousMut::as_mut_slice(&mut v)[0] = 9;
    assert_eq!(v, [9, 7, 3]);
    let s: &mut [i32] = &mut v[..];
    assert_eq!(s.base_len(), 3);
    assert_eq!(*s.unchecked(0), 9);
    *s.unchecked_mut(2) = 4;
    assert_eq!(Contiguous::as_slice(s), [9, 7, 4]);
    let shared: &[i32] = &v[..];
    assert_eq!((&shared).base_len(), 3);
    assert_eq!(*(&shared).unchecked(2), 4);
}

use std::collections::HashSet;
use branded::certificate::{NonEmpty, Provable, Unknown};
use branded::index::Index;
use branded::range::Range;
use branded::ziprange::ZipRange;

#[test]
fn range_bounds_and_length() {
    let r = Range::from(3, 8);
    assert_eq!(r.start(), 3);
    assert_eq!(r.end(), 8);
    assert_eq!(r.len(), 5);
    assert!(!r.is_empty());
    let e = Range::from(4, 4);
    assert_eq!(e.len(), 0);
    assert!(e.is_empty());
}

#[test]
fn nonempty_upgrades_only_what_holds_an_offset() {
    let r = Range::from(2, 5);
    let certified = r.nonempty().unwrap();
    assert_eq!(certified.start(), 2);
    assert_eq!(certified.end(), 5);
    assert!(Range::from(5, 5).nonempty().is_none());
    assert!(Range::from(0, 0).nonempty().is_none());
    let one = Range::from(7, 8).nonempty().unwrap();
    assert_eq!(one.len(), 1);
}

#[test]
fn nonempty_unchecked_keeps_the_bounds() {
    let r = Range::from(1, 4).nonempty_unchecked();
    assert_eq!((r.start(), r.end()), (1, 4));
    assert_eq!(r.last().integer(), 3);
}

#[test]
fn from_any_under_either_tag() {
    let a: Range<'_, Unknown> = Range::from_any(2, 2);
    assert!(a.is_empty());
    let b: Range<'_, NonEmpty> = Range::from_any(2, 6);
    assert_eq!(b.len(), 4);
}

#[test]
fn first_middle_last() {
    let r = Range::from_ne(0, 9);
    assert_eq!(r.first().integer(), 0);
    assert_eq!(r.upper_middle().integer(), 4);
    assert_eq!(r.last().integer(), 8);
    let even = Range::from_ne(2, 6);
    assert_eq!(even.upper_middle().integer(), 4);
    let one = Range::from_ne(5, 6);
    assert_eq!(one.first().integer(), 5);
    assert_eq!(one.upper_middle().integer(), 5);
    assert_eq!(one.last().integer(), 5);
    let empty = Range::from(3, 3);
    assert_eq!(empty.first().integer(), 3);
    assert_eq!(empty.upper_middle().integer(), 3);
}

#[test]
fn split_in_half_puts_the_middle_in_the_second_half() {
    let (a, b) = Range::from(0, 5).split_in_half();
    assert_eq!((a.start(), a.end()), (0, 2));
    assert_eq!((b.start(), b.end()), (2, 5));
    let (c, d) = Range::from_ne(4, 8).split_in_half();
    assert_eq!((c.start(), c.end()), (4, 6));
    assert_eq!((d.start(), d.end()), (6, 8));
    assert_eq!(d.last().integer(), 7);
    let (e, f) = Range::from_ne(3, 4).split_in_half();
    assert!(e.is_empty());
    assert_eq!((f.start(), f.end()), (3, 4));
}

#[test]
fn split_at_offset_within_the_range() {
    let (a, b, inside) = Range::from(2, 10).split_at(3);
    assert!(inside);
    assert_eq!((a.start(), a.end()), (2, 5));
    assert_eq!((b.start(), b.end()), (5, 10));
    let (c, d, at_end) = Range::from(2, 10).split_at(8);
    assert!(at_end);
    assert_eq!((c.start(), c.end()), (2, 10));
    assert!(d.is_empty());
}

#[test]
fn split_at_offset_past_the_end_clamps() {
    let (a, b, inside) = Range::from(2, 10).split_at(9);
    assert!(!inside);
    assert_eq!((a.start(), a.end()), (2, 10));
    assert_eq!((b.start(), b.end()), (10, 10));
    let (_, _, far) = Range::from(2, 10).split_at(usize::MAX);
    assert!(!far);
}

#[test]
fn split_nonempty_range_at_its_start() {
    let r = Range::from_ne(0, 10);
    let (left, right, inside) = r.split_at(0);
    assert!(inside);
    assert_eq!((left.start(), left.end()), (0, 0));
    assert!(left.is_empty());
    assert!(left.nonempty().is_none());
    let right = right.nonempty().unwrap();
    assert_eq!((right.start(), right.end()), (0, 10));
    let (lhs, rhs) = r.split_index(r.first());
    assert!(lhs.is_empty());
    assert_eq!((rhs.start(), rhs.end()), (0, 10));
    assert_eq!(rhs.last().integer(), 9);
}

#[test]
fn split_index_keeps_the_tag_on_the_right() {
    let r = Range::from_ne(2, 9);
    let (lhs, rhs) = r.split_index(Index::new(5));
    assert_eq!((lhs.start(), lhs.end()), (2, 5));
    assert_eq!((rhs.start(), rhs.end()), (5, 9));
    assert_eq!(rhs.last().integer(), 8);
    let (a, b) = r.unsafe_split_index(Index::new(3));
    assert_eq!(a.last().integer(), 2);
    assert_eq!(b.first().integer(), 3);
}

#[test]
fn split_then_join_gives_the_range_back() {
    let r = Range::from(3, 12);
    for at in 3..=12usize {
        let (l, r2) = r.split_index(Index::new(at));
        let joined = l.join(r2).unwrap();
        assert!(joined == r);
        assert_eq!((joined.start(), joined.end()), (3, 12));
    }
    let (l, r2, _) = r.split_at(4);
    assert!(l.join(r2).unwrap() == r);
}

#[test]
fn join_needs_adjacent_ranges() {
    let a = Range::from(0, 4);
    assert!(a.join(Range::from(5, 8)).is_none());
    assert!(a.join(Range::from(3, 8)).is_none());
    assert!(Range::from(4, 8).join(a).is_none());
    let j = a.join(Range::from(4, 8)).unwrap();
    assert_eq!((j.start(), j.end()), (0, 8));
}

#[test]
fn join_adds_the_tags() {
    let unknown = Range::from(0, 0);
    let certain = Range::from_ne(0, 3);
    let right: Range<'_, NonEmpty> = unknown.join(certain).unwrap();
    assert_eq!(right.last().integer(), 2);
    let left: Range<'_, NonEmpty> = certain.join(Range::from(3, 3)).unwrap();
    assert_eq!(left.last().integer(), 2);
    let both: Range<'_, NonEmpty> = certain.join(Range::from_ne(3, 5)).unwrap();
    assert_eq!(both.last().integer(), 4);
    let neither: Range<'_, Unknown> = unknown.join(Range::from(0, 0)).unwrap();
    assert!(neither.is_empty());
}

#[test]
fn contains_gives_an_index_inside_only() {
    let r = Range::from(2, 5);
    assert!(r.contains(1).is_none());
    assert_eq!(r.contains(2).unwrap().integer(), 2);
    assert_eq!(r.contains(4).unwrap().integer(), 4);
    assert!(r.contains(5).is_none());
    assert!(Range::from(3, 3).contains(3).is_none());
}

#[test]
fn head_and_tail() {
    let r = Range::from_ne(2, 6);
    let t = r.tail();
    assert_eq!((t.start(), t.end()), (3, 6));
    let h = r.head();
    assert_eq!((h.start(), h.end()), (2, 5));
    let one = Range::from_ne(4, 5);
    assert!(one.tail().is_empty());
    assert!(one.head().is_empty());
}

#[test]
fn advance_moves_the_start_while_one_is_left() {
    let mut r = Range::from_ne(0, 3);
    assert!(r.advance());
    assert_eq!((r.start(), r.end()), (1, 3));
    assert!(r.advance());
    assert_eq!((r.start(), r.end()), (2, 3));
    assert!(!r.advance());
    assert_eq!((r.start(), r.end()), (2, 3));
}

#[test]
fn advance_back_moves_the_end_while_one_is_left() {
    let mut r = Range::from_ne(0, 3);
    assert!(r.advance_back());
    assert_eq!((r.start(), r.end()), (0, 2));
    assert!(r.advance_back());
    assert_eq!((r.start(), r.end()), (0, 1));
    assert!(!r.advance_back());
    assert_eq!((r.start(), r.end()), (0, 1));
}

#[test]
fn ranges_compare_by_their_bounds() {
    let a = Range::from(1, 4);
    let b = Range::from_ne(1, 4);
    assert!(a == b);
    assert!(a == a.clone());
    assert!(a != Range::from(1, 5));
    assert!(b.no_proof() == a);
}

#[test]
fn range_iterates_from_both_ends() {
    let r = Range::from(2, 6);
    let mut it = r.into_iter();
    assert_eq!(it.len(), 4);
    assert_eq!(it.next().unwrap().integer(), 2);
    assert_eq!(it.next_back().unwrap().integer(), 5);
    assert_eq!(it.len(), 2);
    assert_eq!(it.next().unwrap().integer(), 3);
    assert_eq!(it.next().unwrap().integer(), 4);
    assert_eq!(it.len(), 0);
    assert!(it.next().is_none());
    assert!(it.next_back().is_none());
    let mut again = r.into_iter();
    assert_eq!(again.next().unwrap().integer(), 2);
    assert!(Range::from(3, 3).into_iter().next().is_none());
}

#[test]
fn indices_compare_by_their_offsets() {
    let a: Index<'_, NonEmpty> = Index::new(3);
    let b: Index<'_, Unknown> = Index::new(3);
    let c: Index<'_, NonEmpty> = Index::new(7);
    assert_eq!(a.integer(), 3);
    assert!(a == b);
    assert!(a != c);
    assert!(a < c);
    assert!(c > b);
    assert!(a <= b && a >= b);
    assert!(a.no_proof() == b);
    let copy = a;
    assert!(copy == a);
    assert_eq!(a.clone().integer(), 3);
}

#[test]
fn zip_range_hands_out_pairs() {
    let mut z = ZipRange::new(0, 3);
    assert_eq!(z.len(), 3);
    let (l, r) = z.next().unwrap();
    assert_eq!((l.integer(), r.integer()), (0, 0));
    let (l, r) = z.next_back().unwrap();
    assert_eq!((l.integer(), r.integer()), (2, 2));
    assert_eq!(z.len(), 1);
    let (l, r) = z.next().unwrap();
    assert_eq!((l.integer(), r.integer()), (1, 1));
    assert!(z.next().is_none());
    assert!(z.next_back().is_none());
    assert_eq!(z.len(), 0);
}

#[test]
fn zip_range_into_ranges() {
    let mut z = ZipRange::new(1, 5);
    z.next();
    let (a, b) = z.into_ranges();
    assert_eq!((a.start(), a.end()), (2, 5));
    assert_eq!((b.start(), b.end()), (2, 5));
}

#[test]
fn indices_hash_and_order_by_their_offsets() {
    let mut seen: HashSet<Index<'_, NonEmpty>> = HashSet::new();
    assert!(seen.insert(Index::new(1)));
    assert!(seen.insert(Index::new(2)));
    assert!(!seen.insert(Index::new(1)));
    assert_eq!(seen.len(), 2);
    let mut all: Vec<Index<'_, NonEmpty>> = vec![Index::new(5), Index::new(1), Index::new(3)];
    all.sort();
    assert_eq!(all[0].integer(), 1);
    assert_eq!(all[1].integer(), 3);
    assert_eq!(all[2].integer(), 5);
    assert_eq!(Index::<'_, NonEmpty>::new(4).max(Index::new(9)).integer(), 9);
}

#[test]
fn ranges_hash_by_their_bounds() {
    let mut seen: HashSet<Range<'_, NonEmpty>> = HashSet::new();
    assert!(seen.insert(Range::from_ne(0, 3)));
    assert!(seen.insert(Range::from_ne(0, 4)));
    assert!(!seen.insert(Range::from_ne(0, 3)));
    assert_eq!(seen.len(), 2);
}

#[test]
fn values_print_for_diagnosis() {
    let text = format!("{:?}", Range::from(1, 2));
    assert!(text.contains("start: 1"));
    assert!(text.contains("end: 2"));
    let index: Index<'_, NonEmpty> = Index::new(7);
    assert!(format!("{:?}", index).contains("index: 7"));
}

use canicapillus::{
    FromPage, Hole, HoleEntry, HoleID, HoleKind, HoleSet, MergeResource, OneOrMany, RawHole,
    RawHoleID, RawHolePage, RawReply, RawReplyID, RawReplyPage, ReplyID, ReplySet, Resource,
};

fn raw_hole(id: usize, likes: usize) -> RawHole {
    RawHole {
        id: RawHoleID(id),
        text: format!("hole {}", id),
        kind: HoleKind::Text,
        timestamp: 1_653_983_358,
        reply: 0,
        likenum: likes,
        tag: None,
    }
}

fn page(ids: &[usize], likes: usize, timestamp: Option<i64>) -> RawHolePage {
    RawHolePage {
        code: 0,
        count: Some(ids.len() as i32),
        data: OneOrMany::Vec(ids.iter().map(|&id| raw_hole(id, likes)).collect()),
        timestamp,
    }
}

fn set(ids: &[usize], likes: usize) -> HoleSet {
    HoleSet::from_page(page(ids, likes, None), 100)
}

fn ids(s: HoleSet) -> Vec<usize> {
    s.into_entries().into_iter().map(|e| e.entry.id.0).collect()
}

fn likes(s: HoleSet) -> Vec<usize> {
    s.into_entries().into_iter().map(|e| e.entry.likenum).collect()
}

fn merge(a: HoleSet, b: HoleSet) -> HoleSet {
    HoleSet::merge(a, b).unwrap()
}

#[test]
fn page_entries_keep_order_and_stamp() {
    let entries = page(&[5, 3, 9], 1, None).into_entries(42);
    let got: Vec<(usize, i64)> = entries.iter().map(|e| (e.entry.id.0, e.snapshot)).collect();
    assert_eq!(got, vec![(5, 42), (3, 42), (9, 42)]);
    let stamped = page(&[5], 1, Some(7)).into_entries(42);
    assert_eq!(stamped[0].snapshot, 7);
}

#[test]
fn one_record_page() {
    let p = RawHolePage { code: 0, count: None, data: OneOrMany::One(raw_hole(8, 0)), timestamp: None };
    let s = HoleSet::from_page(p, 1);
    assert_eq!(s.len(), 1);
    assert!(s.contains_key(8));
}

#[test]
fn duplicate_ids_in_a_page_keep_the_first() {
    let mut data = vec![raw_hole(4, 1), raw_hole(2, 1)];
    data.push(raw_hole(4, 9));
    let p = RawHolePage { code: 0, count: None, data: OneOrMany::Vec(data), timestamp: None };
    let s = HoleSet::from_page(p, 1);
    assert_eq!(s.len(), 2);
    assert_eq!(s.get(4).unwrap().entry.likenum, 1);
    assert_eq!(ids(s), vec![2, 4]);
}

#[test]
fn blank_set_is_empty() {
    let b = HoleSet::blank();
    assert!(b.is_empty());
    assert_eq!(b.len(), 0);
    assert!(b.get(1).is_none());
}

#[test]
fn merge_keeps_left_on_shared_key() {
    let m = merge(set(&[1, 2], 10), set(&[2, 3], 20));
    assert_eq!(likes(m), vec![10, 10, 20]);
}

#[test]
fn merge_is_associative_on_values() {
    let left = merge(set(&[1, 2], 1), merge(set(&[2, 3], 2), set(&[3, 4], 3)));
    let right = merge(merge(set(&[1, 2], 1), set(&[2, 3], 2)), set(&[3, 4], 3));
    assert_eq!(ids(left), vec![1, 2, 3, 4]);
    let left = merge(set(&[1, 2], 1), merge(set(&[2, 3], 2), set(&[3, 4], 3)));
    assert_eq!(likes(left), likes(right));
}

#[test]
fn merge_blank_is_identity() {
    assert_eq!(ids(merge(set(&[7, 1], 1), HoleSet::blank())), vec![1, 7]);
    assert_eq!(ids(merge(HoleSet::blank(), set(&[7, 1], 1))), vec![1, 7]);
}

#[test]
fn merge_with_itself_is_idempotent() {
    let m = merge(set(&[3, 1, 2], 5), set(&[3, 1, 2], 5));
    assert_eq!(m.len(), 3);
    assert_eq!(ids(m), vec![1, 2, 3]);
}

#[test]
fn hole_conversions() {
    let hole = Hole::from(raw_hole(12, 3));
    assert_eq!(hole.id, HoleID(12));
    assert_eq!(usize::from(HoleID(12)), 12);
    assert_eq!(HoleID::from(RawHoleID(5)), HoleID(5));
    assert_eq!(HoleID::from(6usize), HoleID(6));
    assert_eq!(String::from(HoleID(472865)), "472865");
    assert_eq!(HoleID(0).to_decimal(), "0");
    let mut other = Hole::from(raw_hole(12, 99));
    other.text = "changed".to_string();
    assert_eq!(hole, other);
    let entry = HoleEntry { entry: hole, snapshot: 1 };
    assert_eq!(entry.snapshot, 1);
}

fn raw_reply(id: usize) -> RawReply {
    RawReply {
        id: RawReplyID(id),
        hole: RawHoleID(3761702),
        name: "Alice".to_string(),
        text: "hi".to_string(),
        dz: false,
        timestamp: 5,
        tag: None,
    }
}

#[test]
fn replies_are_keyed_by_reply_id() {
    let p = RawReplyPage { code: 0, data: vec![raw_reply(9), raw_reply(3), raw_reply(9)], attention: false };
    let s = ReplySet::from_page(p, 77);
    assert_eq!(s.len(), 2);
    let entries = s.into_entries();
    assert_eq!(entries[0].entry.id, ReplyID(3));
    assert_eq!(entries[1].entry.id, ReplyID(9));
    assert_eq!(entries[0].entry.hole, HoleID(3761702));
    assert_eq!(entries[0].snapshot, 77);
    assert_eq!(String::from(ReplyID(41)), "41");
    assert_eq!(usize::from(ReplyID::from(RawReplyID(2))), 2);
}

#[test]
fn distinct_page_reads_as_all_its_holes_and_rereads_merge_idempotently() {
    let first = HoleSet::from_page(page(&[21, 7, 13, 2], 1, None), 100);
    let again = HoleSet::from_page(page(&[21, 7, 13, 2], 1, None), 500);
    assert_eq!(first.len(), 4);
    let merged = merge(first, again);
    assert_eq!(merged.len(), 4);
    assert_eq!(ids(merged), vec![2, 7, 13, 21]);
}

use stream_engine::chunk::{Op, StreamChunk};
use stream_engine::error::StreamError;

fn sample() -> StreamChunk {
    StreamChunk::new(
        vec![Op::Insert, Op::Delete, Op::UpdateDelete, Op::UpdateInsert],
        vec![
            vec![Some(1), Some(2), None, Some(4)],
            vec![Some(10), Some(20), Some(30), Some(40)],
        ],
        Some(vec![true, false, true, false]),
    )
    .unwrap()
}

#[test]
fn new_accepts_matching_lengths() {
    let c = sample();
    assert_eq!(c.cardinality(), 4);
    assert_eq!(c.columns().len(), 2);
}

#[test]
fn new_rejects_short_column() {
    let r = StreamChunk::new(
        vec![Op::Insert, Op::Insert],
        vec![vec![Some(1), Some(2)], vec![Some(1)]],
        None,
    );
    assert_eq!(r, Err(StreamError::SchemaViolation));
}

#[test]
fn new_rejects_visibility_of_other_length() {
    let r = StreamChunk::new(vec![Op::Insert], vec![vec![Some(1)]], Some(vec![true, true]));
    assert_eq!(r, Err(StreamError::SchemaViolation));
}

#[test]
fn new_accepts_no_columns() {
    let c = StreamChunk::new(vec![Op::Insert, Op::Delete], vec![], None).unwrap();
    assert_eq!(c.cardinality(), 2);
}

#[test]
fn compact_keeps_visible_rows_only() {
    let c = sample().compact();
    assert_eq!(c.ops(), &vec![Op::Insert, Op::UpdateDelete]);
    assert_eq!(c.columns(), &vec![vec![Some(1), None], vec![Some(10), Some(30)]]);
    assert!(c.visibility().is_none());
}

#[test]
fn compact_is_idempotent() {
    let once = sample().compact();
    let (ops, cols, vis) = sample().compact().into_inner();
    let twice = StreamChunk::new(ops, cols, vis).unwrap().compact();
    assert_eq!(once, twice);
}

#[test]
fn compact_without_mask_changes_nothing() {
    let c = StreamChunk::new(vec![Op::Insert], vec![vec![Some(5)]], None).unwrap();
    let d = StreamChunk::new(vec![Op::Insert], vec![vec![Some(5)]], None).unwrap();
    assert_eq!(c.compact(), d);
}

#[test]
fn compact_of_all_hidden_rows_is_empty() {
    let c = StreamChunk::new(
        vec![Op::Insert, Op::Insert],
        vec![vec![Some(1), Some(2)]],
        Some(vec![false, false]),
    )
    .unwrap()
    .compact();
    assert_eq!(c.cardinality(), 0);
    assert_eq!(c.columns(), &vec![Vec::<Option<i64>>::new()]);
}

use stream_engine::agg::{AggCall, AggKind, WriteEntry};
use stream_engine::chunk::{Op, StreamChunk};
use stream_engine::error::StreamError;
use stream_engine::message::{Barrier, Message};
use stream_engine::simple_agg::SimpleAggExecutor;
use stream_engine::value::HummockValue;

fn calls() -> Vec<AggCall> {
    vec![
        AggCall { kind: AggKind::RowCount, arg: 0 },
        AggCall { kind: AggKind::Sum, arg: 0 },
        AggCall { kind: AggKind::Sum, arg: 1 },
        AggCall { kind: AggKind::Min, arg: 0 },
    ]
}

fn rows(msg: &Message) -> Vec<(Op, Vec<Option<i64>>)> {
    match msg {
        Message::Chunk(c) => {
            let mut out = vec![];
            for i in 0..c.cardinality() {
                let row = c.columns().iter().map(|col| col[i]).collect();
                out.push((c.ops()[i], row));
            }
            out
        }
        Message::Barrier(_) => panic!("expected a chunk"),
    }
}

fn chunk1() -> StreamChunk {
    StreamChunk::new(
        vec![Op::Insert, Op::Insert, Op::Insert],
        vec![
            vec![Some(100), Some(10), Some(4)],
            vec![Some(200), Some(14), Some(300)],
            vec![Some(1001), Some(1002), Some(1003)],
        ],
        None,
    )
    .unwrap()
}

fn chunk2() -> StreamChunk {
    StreamChunk::new(
        vec![Op::Delete, Op::Delete, Op::Delete, Op::Insert],
        vec![
            vec![Some(100), Some(10), Some(4), Some(104)],
            vec![Some(200), Some(14), Some(300), Some(500)],
            vec![Some(1001), Some(1002), Some(1003), Some(1004)],
        ],
        Some(vec![true, false, true, true]),
    )
    .unwrap()
}

#[test]
fn test_local_simple_aggregation_in_memory() {
    let mut agg = SimpleAggExecutor::new(calls(), vec![7u8], vec![]);
    let mut batch: Vec<WriteEntry> = vec![];

    let out = agg.process(Message::Chunk(chunk1()), &mut batch).unwrap();
    assert!(out.is_empty());
    let out = agg.process(Message::Barrier(Barrier::new(1)), &mut batch).unwrap();
    assert_eq!(out.len(), 2);
    assert_eq!(
        rows(&out[0]),
        vec![(Op::Insert, vec![Some(3), Some(114), Some(514), Some(4)])]
    );
    assert!(matches!(out[1], Message::Barrier(_)));

    let out = agg.process(Message::Chunk(chunk2()), &mut batch).unwrap();
    assert!(out.is_empty());
    let out = agg.process(Message::Barrier(Barrier::new(2)), &mut batch).unwrap();
    assert_eq!(out.len(), 2);
    assert_eq!(
        rows(&out[0]),
        vec![
            (Op::UpdateDelete, vec![Some(3), Some(114), Some(514), Some(4)]),
            (Op::UpdateInsert, vec![Some(2), Some(114), Some(514), Some(10)]),
        ]
    );
    assert_eq!(out[1], Message::Barrier(Barrier::new(2)));
}

#[test]
fn second_flush_without_input_is_empty() {
    let mut agg = SimpleAggExecutor::new(calls(), vec![], vec![]);
    let mut batch: Vec<WriteEntry> = vec![];
    agg.apply_chunk(chunk1()).unwrap();
    assert!(agg.flush_data(&mut batch).is_some());
    let before = batch.len();
    assert!(agg.flush_data(&mut batch).is_none());
    assert_eq!(batch.len(), before);
}

#[test]
fn flush_before_any_chunk_is_empty() {
    let mut agg = SimpleAggExecutor::new(calls(), vec![], vec![]);
    let mut batch: Vec<WriteEntry> = vec![];
    assert!(agg.flush_data(&mut batch).is_none());
    assert!(batch.is_empty());
}

#[test]
fn unchanged_output_emits_nothing() {
    let mut agg = SimpleAggExecutor::new(calls(), vec![], vec![]);
    let mut batch: Vec<WriteEntry> = vec![];
    agg.apply_chunk(chunk1()).unwrap();
    agg.flush_data(&mut batch).unwrap();
    let churn = StreamChunk::new(
        vec![Op::Insert, Op::Delete],
        vec![vec![Some(50), Some(50)], vec![Some(1), Some(1)], vec![None, None]],
        None,
    )
    .unwrap();
    agg.apply_chunk(churn).unwrap();
    assert!(agg.flush_data(&mut batch).is_none());
}

#[test]
fn barrier_goes_last_and_alone_when_clean() {
    let mut agg = SimpleAggExecutor::new(calls(), vec![], vec![]);
    let mut batch: Vec<WriteEntry> = vec![];
    let out = agg.process(Message::Barrier(Barrier::new_stop(5)), &mut batch).unwrap();
    assert_eq!(out, vec![Message::Barrier(Barrier::new_stop(5))]);
    assert!(out[0].is_stop());
}

#[test]
fn flush_writes_one_entry_per_call() {
    let mut agg = SimpleAggExecutor::new(calls(), vec![0xAA], vec![]);
    let mut batch: Vec<WriteEntry> = vec![];
    agg.apply_chunk(chunk1()).unwrap();
    agg.flush_data(&mut batch).unwrap();
    assert_eq!(batch.len(), 4);
    assert_eq!(batch[0].0, vec![0xAA, 0, 0, 0, 0, 0, 0, 0, 0]);
    assert_eq!(batch[0].1, HummockValue::Put(3u64.to_le_bytes().to_vec()));
    assert_eq!(batch[2].0, vec![0xAA, 2, 0, 0, 0, 0, 0, 0, 0]);
    assert_eq!(batch[2].1, HummockValue::Put(514u64.to_le_bytes().to_vec()));
}

#[test]
fn empty_min_is_persisted_as_tombstone() {
    let mut agg = SimpleAggExecutor::new(vec![AggCall { kind: AggKind::Min, arg: 0 }], vec![], vec![]);
    let mut batch: Vec<WriteEntry> = vec![];
    let c = StreamChunk::new(vec![Op::Insert], vec![vec![None]], None).unwrap();
    agg.apply_chunk(c).unwrap();
    let out = agg.flush_data(&mut batch).unwrap();
    assert_eq!(out.columns(), &vec![vec![None]]);
    assert_eq!(batch[0].1, HummockValue::Delete);
}

#[test]
fn max_retracts_its_greatest_value() {
    let mut agg = SimpleAggExecutor::new(vec![AggCall { kind: AggKind::Max, arg: 0 }], vec![], vec![]);
    let mut batch: Vec<WriteEntry> = vec![];
    let c = StreamChunk::new(
        vec![Op::Insert, Op::Insert, Op::Insert],
        vec![vec![Some(5), Some(9), Some(9)]],
        None,
    )
    .unwrap();
    agg.apply_chunk(c).unwrap();
    agg.flush_data(&mut batch).unwrap();
    let d = StreamChunk::new(vec![Op::Delete], vec![vec![Some(9)]], None).unwrap();
    agg.apply_chunk(d).unwrap();
    assert!(agg.flush_data(&mut batch).is_none());
    let e = StreamChunk::new(vec![Op::UpdateDelete], vec![vec![Some(9)]], None).unwrap();
    agg.apply_chunk(e).unwrap();
    let out = agg.flush_data(&mut batch).unwrap();
    assert_eq!(out.ops(), &vec![Op::UpdateDelete, Op::UpdateInsert]);
    assert_eq!(out.columns(), &vec![vec![Some(9), Some(5)]]);
}

#[test]
fn missing_input_column_is_a_schema_violation() {
    let mut agg = SimpleAggExecutor::new(vec![AggCall { kind: AggKind::Sum, arg: 3 }], vec![], vec![]);
    let c = StreamChunk::new(vec![Op::Insert], vec![vec![Some(1)]], None).unwrap();
    assert_eq!(agg.apply_chunk(c), Err(StreamError::SchemaViolation));
    assert!(agg.states.is_none());
}

#[test]
fn sum_overflow_is_an_eval_error() {
    let mut agg = SimpleAggExecutor::new(vec![AggCall { kind: AggKind::Sum, arg: 0 }], vec![], vec![]);
    let c = StreamChunk::new(
        vec![Op::Insert, Op::Insert],
        vec![vec![Some(i64::MAX), Some(1)]],
        None,
    )
    .unwrap();
    assert_eq!(agg.apply_chunk(c), Err(StreamError::EvalError));
    assert!(agg.states.is_none());
}

#[test]
fn failed_chunk_leaves_the_state_as_it_was() {
    let mut agg = SimpleAggExecutor::new(
        vec![AggCall { kind: AggKind::RowCount, arg: 0 }, AggCall { kind: AggKind::Sum, arg: 0 }],
        vec![],
        vec![],
    );
    let mut batch: Vec<WriteEntry> = vec![];
    let ok = StreamChunk::new(vec![Op::Insert], vec![vec![Some(i64::MAX)]], None).unwrap();
    agg.apply_chunk(ok).unwrap();
    agg.flush_data(&mut batch).unwrap();
    let bad = StreamChunk::new(vec![Op::Insert], vec![vec![Some(1)]], None).unwrap();
    assert_eq!(agg.apply_chunk(bad), Err(StreamError::EvalError));
    assert!(agg.flush_data(&mut batch).is_none());
}

#[test]
fn schema_has_one_int64_field_per_call() {
    let agg = SimpleAggExecutor::new(calls(), vec![], vec![]);
    assert_eq!(agg.schema().len(), 4);
    assert!(agg.schema().fields().iter().all(|f| f.data_type == stream_engine::schema::DataType::Int64));
}

#[test]
fn row_count_ignores_its_argument_and_nulls_count() {
    let mut agg = SimpleAggExecutor::new(
        vec![AggCall { kind: AggKind::RowCount, arg: 99 }, AggCall { kind: AggKind::Sum, arg: 0 }],
        vec![],
        vec![],
    );
    let mut batch: Vec<WriteEntry> = vec![];
    let c = StreamChunk::new(vec![Op::Insert, Op::UpdateInsert], vec![vec![None, Some(6)]], None).unwrap();
    agg.apply_chunk(c).unwrap();
    let out = agg.flush_data(&mut batch).unwrap();
    assert_eq!(out.ops(), &vec![Op::Insert]);
    assert_eq!(out.columns(), &vec![vec![Some(2)], vec![Some(6)]]);
}

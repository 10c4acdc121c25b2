use stream_engine::chunk::{Op, StreamChunk};
use stream_engine::error::StreamError;
use stream_engine::expr::Expression;
use stream_engine::message::{Barrier, Message};
use stream_engine::project::{ExecutorInfo, ProjectExecutor};
use stream_engine::schema::{DataType, Field, Schema};

fn info() -> ExecutorInfo {
    ExecutorInfo {
        schema: Schema::new(vec![Field::unnamed(DataType::Int64), Field::unnamed(DataType::Int64)]),
        pk_indices: vec![],
        identity: String::new(),
    }
}

fn add01() -> Expression {
    Expression::Add(Box::new(Expression::InputRef(0)), Box::new(Expression::InputRef(1)))
}

fn column0(msg: &Message) -> (Vec<Op>, Vec<Option<i64>>, usize) {
    match msg {
        Message::Chunk(c) => (c.ops().clone(), c.columns()[0].clone(), c.columns().len()),
        Message::Barrier(_) => panic!("expected a chunk"),
    }
}

#[test]
fn test_projection() {
    let chunk1 = StreamChunk::new(
        vec![Op::Insert, Op::Insert, Op::Insert],
        vec![vec![Some(1), Some(2), Some(3)], vec![Some(4), Some(5), Some(6)]],
        None,
    )
    .unwrap();
    let chunk2 = StreamChunk::new(
        vec![Op::Insert, Op::Delete],
        vec![vec![Some(7), Some(3)], vec![Some(8), Some(6)]],
        Some(vec![true, true]),
    )
    .unwrap();
    let mut project = ProjectExecutor::new(info(), vec![add01()], 1);

    let out = project.process(Message::Chunk(chunk1)).unwrap().unwrap();
    let (ops, col, width) = column0(&out);
    assert_eq!(ops, vec![Op::Insert, Op::Insert, Op::Insert]);
    assert_eq!(width, 1);
    assert_eq!(col, vec![Some(5), Some(7), Some(9)]);

    let out = project.process(Message::Chunk(chunk2)).unwrap().unwrap();
    let (ops, col, width) = column0(&out);
    assert_eq!(ops, vec![Op::Insert, Op::Delete]);
    assert_eq!(width, 1);
    assert_eq!(col, vec![Some(15), Some(9)]);

    let out = project.process(Message::Barrier(Barrier::new_stop(1))).unwrap().unwrap();
    assert!(out.is_stop());
}

#[test]
fn barriers_pass_through_unchanged() {
    let mut project = ProjectExecutor::new(info(), vec![add01()], 2);
    let chunk = StreamChunk::new(vec![Op::Insert], vec![vec![Some(1)], vec![Some(2)]], None).unwrap();
    let input = vec![
        Message::Barrier(Barrier::new(1)),
        Message::Chunk(chunk),
        Message::Barrier(Barrier::new(2)),
        Message::Barrier(Barrier::new_stop(3)),
    ];
    let out = project.run(input).unwrap();
    assert_eq!(out.len(), 4);
    match &out[1] {
        Message::Chunk(c) => assert_eq!(c.columns(), &vec![vec![Some(3)]]),
        Message::Barrier(_) => panic!("expected a chunk"),
    }
    assert_eq!(out[0], Message::Barrier(Barrier::new(1)));
    assert_eq!(out[2], Message::Barrier(Barrier::new(2)));
    assert_eq!(out[3], Message::Barrier(Barrier::new_stop(3)));
}

#[test]
fn hidden_rows_are_dropped_and_nulls_propagate() {
    let mut project = ProjectExecutor::new(info(), vec![add01(), Expression::Literal(Some(7))], 3);
    let chunk = StreamChunk::new(
        vec![Op::Insert, Op::Delete, Op::Insert],
        vec![vec![Some(1), Some(2), None], vec![Some(1), Some(2), Some(3)]],
        Some(vec![true, false, true]),
    )
    .unwrap();
    let out = project.process(Message::Chunk(chunk)).unwrap().unwrap();
    match out {
        Message::Chunk(c) => {
            assert_eq!(c.ops(), &vec![Op::Insert, Op::Insert]);
            assert_eq!(c.columns(), &vec![vec![Some(2), None], vec![Some(7), Some(7)]]);
        }
        Message::Barrier(_) => panic!("expected a chunk"),
    }
}

#[test]
fn overflow_is_an_eval_error() {
    let mut project = ProjectExecutor::new(info(), vec![add01()], 4);
    let chunk = StreamChunk::new(vec![Op::Insert], vec![vec![Some(i64::MAX)], vec![Some(1)]], None).unwrap();
    assert_eq!(project.process(Message::Chunk(chunk)), Err(StreamError::EvalError));
}

#[test]
fn missing_column_is_an_eval_error() {
    let mut project = ProjectExecutor::new(info(), vec![Expression::InputRef(5)], 5);
    let chunk = StreamChunk::new(vec![Op::Insert], vec![vec![Some(1)]], None).unwrap();
    assert_eq!(project.run(vec![Message::Chunk(chunk)]), Err(StreamError::EvalError));
}

#[test]
fn identity_names_the_executor_in_hex() {
    let project = ProjectExecutor::new(info(), vec![add01()], 255);
    assert_eq!(project.inner.identity(), "ProjectExecutor FF");
    assert_eq!(project.inner.schema().len(), 1);
    assert_eq!(project.inner.schema().index(0).data_type(), DataType::Int64);
}

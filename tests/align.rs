use stream_engine::align::BarrierAligner;
use stream_engine::chunk::{Op, StreamChunk};
use stream_engine::message::{Barrier, Message};

fn chunk(v: i64) -> StreamChunk {
    StreamChunk::new(vec![Op::Insert], vec![vec![Some(v)]], None).unwrap()
}

#[test]
fn chunks_before_barrier_pass_at_once() {
    let mut a = BarrierAligner::new(2);
    assert_eq!(a.on_message(0, Message::Chunk(chunk(1))), vec![Message::Chunk(chunk(1))]);
    assert_eq!(a.on_message(1, Message::Chunk(chunk(2))), vec![Message::Chunk(chunk(2))]);
}

#[test]
fn aligned_barrier_goes_out_before_held_chunks() {
    let mut a = BarrierAligner::new(2);
    assert!(a.on_message(0, Message::Barrier(Barrier::new(1))).is_empty());
    assert!(a.on_message(0, Message::Chunk(chunk(10))).is_empty());
    assert_eq!(a.on_message(1, Message::Chunk(chunk(20))), vec![Message::Chunk(chunk(20))]);
    assert!(a.on_message(0, Message::Chunk(chunk(11))).is_empty());
    let out = a.on_message(1, Message::Barrier(Barrier::new(1)));
    assert_eq!(
        out,
        vec![
            Message::Barrier(Barrier::new(1)),
            Message::Chunk(chunk(10)),
            Message::Chunk(chunk(11)),
        ]
    );
    assert!(a.pending.is_none());
    assert!(a.arrived.iter().all(|x| !x));
}

#[test]
fn single_input_passes_barrier_through() {
    let mut a = BarrierAligner::new(1);
    assert_eq!(
        a.on_message(0, Message::Barrier(Barrier::new_stop(4))),
        vec![Message::Barrier(Barrier::new_stop(4))]
    );
}

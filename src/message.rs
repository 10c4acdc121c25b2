use vstd::prelude::*;

use crate::chunk::StreamChunk;

verus! {

/// What a barrier asks of the executors that it passes, besides a checkpoint.
#[derive(Clone, Copy, Debug, PartialEq, Eq, Structural)]
pub enum Mutation {
    /// The stream ends after this barrier.
    Stop,
}

/// A control message that marks the end of an epoch.
#[derive(Clone, Copy, Debug, PartialEq, Eq, Structural)]
pub struct Barrier {
    pub epoch: u64,
    pub mutation: Option<Mutation>,
}

impl Barrier {
    /// A plain checkpoint barrier.
    pub fn new(epoch: u64) -> (r: Barrier)
        ensures
            r.epoch == epoch,
            r.mutation is None,
    {
        Barrier { epoch, mutation: None }
    }

    /// A barrier that stops the stream.
    pub fn new_stop(epoch: u64) -> (r: Barrier)
        ensures
            r.epoch == epoch,
            r.mutation == Some(Mutation::Stop),
    {
        Barrier { epoch, mutation: Some(Mutation::Stop) }
    }

    pub fn is_stop(&self) -> (r: bool)
        ensures
            r == (self.mutation matches Some(Mutation::Stop)),
    {
        match self.mutation {
            Some(Mutation::Stop) => true,
            None => false,
        }
    }
}

/// What flows on every edge between two executors.
#[derive(Debug, PartialEq, Eq)]
pub enum Message {
    Chunk(StreamChunk),
    Barrier(Barrier),
}

impl Message {
    /// Whether this is a barrier that stops the stream.
    pub fn is_stop(&self) -> (r: bool)
        ensures
            r == (self matches Message::Barrier(b) && b.mutation matches Some(Mutation::Stop)),
    {
        match self {
            Message::Barrier(b) => b.is_stop(),
            Message::Chunk(_) => false,
        }
    }
}

/// The barriers of a message sequence, in order.
pub open spec fn barriers_of(s: Seq<Message>) -> Seq<Barrier>
    decreases s.len(),
{
    if s.len() == 0 {
        Seq::empty()
    } else {
        match s.last() {
            Message::Barrier(b) => barriers_of(s.drop_last()).push(b),
            Message::Chunk(_) => barriers_of(s.drop_last()),
        }
    }
}

} // verus!

use vstd::prelude::*;

use crate::chunk::StreamChunk;
use crate::message::{Barrier, Message};

verus! {

/// Barrier alignment for an operator with several inputs. Once the barrier of
/// the current epoch has come on an input, later chunks of that input are
/// held back; when it has come on every input, the barrier goes downstream,
/// followed by the held chunks in their order of arrival.
#[derive(Debug)]
pub struct BarrierAligner {
    /// Whether the barrier of the current epoch has come on each input.
    pub arrived: Vec<bool>,
    /// The barrier being aligned, once it has come on some input.
    pub pending: Option<Barrier>,
    /// Chunks held back, with the input that they came on.
    pub buffered: Vec<(usize, StreamChunk)>,
}

/// The messages that the held chunks become, in order.
pub open spec fn held_messages(buffered: Seq<(usize, StreamChunk)>) -> Seq<Message> {
    Seq::new(buffered.len(), |k: int| Message::Chunk(buffered[k].1))
}

impl BarrierAligner {
    pub open spec fn wf(&self) -> bool {
        &&& self.pending is None <==> (forall|j: int|
            0 <= j < self.arrived@.len() ==> !#[trigger] self.arrived@[j])
        &&& forall|k: int|
            0 <= k < self.buffered@.len() ==> {
                let j = (#[trigger] self.buffered@[k]).0 as int;
                0 <= j < self.arrived@.len() && self.arrived@[j]
            }
    }

    /// Whether the barrier on `input` completes the alignment: it has come on
    /// every other input.
    pub open spec fn completes(&self, input: int) -> bool {
        forall|j: int| 0 <= j < self.arrived@.len() && j != input ==> #[trigger] self.arrived@[j]
    }

    /// An aligner for `n_inputs` inputs, in the middle of no epoch.
    pub fn new(n_inputs: usize) -> (r: BarrierAligner)
        ensures
            r.wf(),
            r.arrived@.len() == n_inputs,
            r.pending is None,
            r.buffered@.len() == 0,
    {
        let mut arrived: Vec<bool> = Vec::with_capacity(n_inputs);
        let mut i: usize = 0;
        while i < n_inputs
            invariant
                0 <= i <= n_inputs,
                arrived@.len() == i,
                forall|j: int| 0 <= j < i ==> !#[trigger] arrived@[j],
            decreases n_inputs - i,
        {
            arrived.push(false);
            i += 1;
        }
        BarrierAligner { arrived, pending: None, buffered: Vec::new() }
    }

    /// Takes one message from input `input` and gives what goes downstream.
    /// A second barrier on an input before alignment, or a barrier of another
    /// epoch than the pending one, breaks the protocol and is not admitted.
    pub fn on_message(&mut self, input: usize, msg: Message) -> (r: Vec<Message>)
        requires
            old(self).wf(),
            input < old(self).arrived@.len(),
            msg is Barrier ==> !old(self).arrived@[input as int],
            msg matches Message::Barrier(b) ==> (old(self).pending matches Some(p) ==> p.epoch
                == b.epoch),
        ensures
            final(self).wf(),
            final(self).arrived@.len() == old(self).arrived@.len(),
            msg is Chunk && !old(self).arrived@[input as int] ==> r@ == seq![msg] && *final(self)
                == *old(self),
            msg is Chunk && old(self).arrived@[input as int] ==> r@.len() == 0
                && final(self).buffered@ == old(self).buffered@.push((input, msg->Chunk_0))
                && final(self).arrived == old(self).arrived && final(self).pending == old(
                self,
            ).pending,
            msg is Barrier && !old(self).completes(input as int) ==> r@.len() == 0
                && final(self).arrived@ == old(self).arrived@.update(input as int, true)
                && final(self).pending == Some(msg->Barrier_0) && final(self).buffered
                == old(self).buffered,
            msg is Barrier && old(self).completes(input as int) ==> r@ == seq![msg].add(
                held_messages(old(self).buffered@),
            ) && final(self).pending is None && final(self).buffered@.len() == 0,
    {
        match msg {
            Message::Chunk(c) => {
                if self.arrived[input] {
                    self.buffered.push((input, c));
                    Vec::new()
                } else {
                    let mut out: Vec<Message> = Vec::new();
                    out.push(Message::Chunk(c));
                    out
                }
            },
            Message::Barrier(b) => {
                let mut complete = true;
                let mut j: usize = 0;
                while j < self.arrived.len()
                    invariant
                        0 <= j <= self.arrived@.len(),
                        *self == *old(self),
                        input < self.arrived@.len(),
                        complete <==> (forall|k: int|
                            0 <= k < j && k != input ==> #[trigger] self.arrived@[k]),
                    decreases self.arrived@.len() - j,
                {
                    if j != input && !self.arrived[j] {
                        complete = false;
                    }
                    j += 1;
                }
                if !complete {
                    self.arrived.set(input, true);
                    self.pending = Some(b);
                    proof {
                        assert(self.arrived@[input as int]);
                    }
                    return Vec::new();
                }
                let mut out: Vec<Message> = Vec::new();
                out.push(Message::Barrier(b));
                let ghost held = self.buffered@;
                let mut buffered: Vec<(usize, StreamChunk)> = Vec::new();
                std::mem::swap(&mut buffered, &mut self.buffered);
                assert(self.buffered@.len() == 0);
                let mut k: usize = 0;
                let total = buffered.len();
                while buffered.len() > 0
                    invariant
                        k <= total,
                        total == held.len(),
                        held == old(self).buffered@,
                        self.buffered@.len() == 0,
                        self.arrived == old(self).arrived,
                        msg == Message::Barrier(b),
                        buffered@ == held.subrange(k as int, total as int),
                        out@ == seq![Message::Barrier(b)].add(held_messages(held.take(k as int))),
                    decreases buffered@.len(),
                {
                    let (_, c) = buffered.remove(0);
                    assert(held_messages(held.take(k as int + 1)) =~= held_messages(
                        held.take(k as int),
                    ).push(Message::Chunk(c)));
                    out.push(Message::Chunk(c));
                    k += 1;
                    assert(out@ =~= seq![Message::Barrier(b)].add(
                        held_messages(held.take(k as int)),
                    ));
                }
                assert(held.take(k as int) =~= held);
                let n = self.arrived.len();
                let mut j: usize = 0;
                while j < n
                    invariant
                        0 <= j <= n,
                        n == self.arrived@.len(),
                        n == old(self).arrived@.len(),
                        self.buffered@.len() == 0,
                        out@ == seq![Message::Barrier(b)].add(held_messages(held)),
                        held == old(self).buffered@,
                        msg == Message::Barrier(b),
                        forall|i: int| 0 <= i < j ==> !#[trigger] self.arrived@[i],
                    decreases n - j,
                {
                    self.arrived.set(j, false);
                    j += 1;
                }
                self.pending = None;
                out
            },
        }
    }
}

} // verus!

use vstd::prelude::*;

use crate::agg::{
    call_fits, change_columns, change_ops, entry_view, fold_fits, fold_rows, state_entry, AggCall,
    AggState, WriteEntry,
};
use crate::chunk::{lengths_agree, Datum, StreamChunk};
use crate::error::{StreamError, StreamResult};
use crate::message::{Barrier, Message};
use crate::schema::{DataType, Field, Schema};

verus! {

/// Streaming aggregation without group key: one output row, one column per
/// aggregate call. The state is made on the first chunk; every barrier
/// flushes it, emitting how the output row moved since the last flush.
#[derive(Debug)]
pub struct SimpleAggExecutor {
    pub schema: Schema,
    pub pk_indices: Vec<usize>,
    /// The key prefix under which the state is persisted.
    pub keyspace: Vec<u8>,
    pub agg_calls: Vec<AggCall>,
    /// `None` until the first chunk arrives.
    pub states: Option<AggState>,
}

/// Whether two executors differ at most in their state.
pub open spec fn same_config(a: &SimpleAggExecutor, b: &SimpleAggExecutor) -> bool {
    &&& a.schema == b.schema
    &&& a.pk_indices@ == b.pk_indices@
    &&& a.keyspace@ == b.keyspace@
    &&& a.agg_calls@ == b.agg_calls@
}

/// Whether every call finds its input column among `n` columns.
pub open spec fn calls_fit(calls: Seq<AggCall>, n: nat) -> bool {
    forall|i: int| 0 <= i < calls.len() ==> call_fits(#[trigger] calls[i], n)
}

/// Whether applying `c` to `e` keeps every counter and sum in range.
pub open spec fn chunk_fits(e: &SimpleAggExecutor, c: &StreamChunk) -> bool {
    forall|i: int|
        0 <= i < e.agg_calls@.len() ==> fold_fits(
            #[trigger] e.agg_calls@[i],
            e.prior_acc(i),
            e.prior_values(i),
            c.ops_view(),
            c.visibility_view(),
            c.columns_view(),
            c.ops_view().len(),
        )
}

/// What `apply_chunk` does: `SchemaViolation` (and no change) when a call's
/// column is missing; else `EvalError` exactly when a counter or sum leaves
/// the range of `i64`; else every call's state is the fold of the chunk's
/// visible rows into its prior state, and the last flushed output stays.
pub open spec fn apply_post(
    before: &SimpleAggExecutor,
    after: &SimpleAggExecutor,
    c: &StreamChunk,
    r: StreamResult<()>,
) -> bool {
    &&& same_config(before, after)
    &&& after.wf()
    &&& (r matches Err(e) && e is SchemaViolation) <==> !calls_fit(
        before.agg_calls@,
        c.columns_view().len(),
    )
    &&& !calls_fit(before.agg_calls@, c.columns_view().len()) ==> after == before
    &&& calls_fit(before.agg_calls@, c.columns_view().len()) ==> (r is Ok <==> chunk_fits(
        before,
        c,
    ))
    &&& calls_fit(before.agg_calls@, c.columns_view().len()) ==> (r matches Err(e) ==> e
        is EvalError)
    &&& r is Err ==> after == before
    &&& r is Ok ==> match after.states {
        Some(s) => s.prev_view() == before.prior_prev() && forall|i: int|
            0 <= i < before.agg_calls@.len() ==> (
            #[trigger] s.managed_states@[i].acc as int,
            s.managed_states@[i].values@,
        ) == fold_rows(
                before.agg_calls@[i],
                before.prior_acc(i),
                before.prior_values(i),
                c.ops_view(),
                c.visibility_view(),
                c.columns_view(),
                c.ops_view().len(),
            ),
        None => false,
    }
}

/// What `flush_data` does: when clean, nothing; when dirty, the rows of
/// [`change_ops`] and [`change_columns`] from the last flushed output to the
/// current one, which then becomes the last flushed output.
pub open spec fn flush_post(
    before: &SimpleAggExecutor,
    after: &SimpleAggExecutor,
    r: Option<StreamChunk>,
) -> bool {
    &&& same_config(before, after)
    &&& after.wf()
    &&& !before.dirty() ==> r is None && after == before
    &&& before.dirty() ==> match (r, before.states, after.states) {
        (Some(c), Some(s), Some(t)) => {
            &&& c.ops_view() == change_ops(s.prev_view())
            &&& c.columns_view() == change_columns(s.prev_view(), s.outputs())
            &&& c.visibility_view() is None
            &&& c.columns_view().len() == after.schema.fields@.len()
            &&& lengths_agree(c.ops_view(), c.columns_view(), c.visibility_view())
            &&& t.managed_states == s.managed_states
            &&& t.prev_view() == Some(s.outputs())
        },
        _ => false,
    }
}

/// What goes downstream at a barrier: the rows of the flush, if it emitted
/// any, then the barrier itself, last.
pub open spec fn barrier_output(
    before: &SimpleAggExecutor,
    after: &SimpleAggExecutor,
    b: Barrier,
    out: Seq<Message>,
) -> bool {
    if out.len() == 1 {
        out[0] == Message::Barrier(b) && flush_post(before, after, None)
    } else if out.len() == 2 {
        out[1] == Message::Barrier(b) && match out[0] {
            Message::Chunk(d) => flush_post(before, after, Some(d)),
            Message::Barrier(_) => false,
        }
    } else {
        false
    }
}

impl SimpleAggExecutor {
    pub open spec fn wf(&self) -> bool {
        &&& self.states matches Some(s) ==> s.wf() && s.calls() == self.agg_calls@
        &&& self.schema.fields@.len() == self.agg_calls@.len()
        &&& forall|i: int|
            0 <= i < self.schema.fields@.len() ==> (#[trigger] self.schema.fields@[i]).data_type
                == DataType::Int64
    }

    /// Dirty: there is state, and its output moved since the last flush (or
    /// was never flushed).
    pub open spec fn dirty(&self) -> bool {
        self.states matches Some(s) && s.dirty()
    }

    /// The counter or sum of call `i` before the next chunk.
    pub open spec fn prior_acc(&self, i: int) -> int {
        match self.states {
            Some(s) => s.managed_states@[i].acc as int,
            None => 0,
        }
    }

    /// The live values of call `i` before the next chunk.
    pub open spec fn prior_values(&self, i: int) -> Seq<i64> {
        match self.states {
            Some(s) => s.managed_states@[i].values@,
            None => Seq::empty(),
        }
    }

    /// The output row of the last flush, if any.
    pub open spec fn prior_prev(&self) -> Option<Seq<Datum>> {
        match self.states {
            Some(s) => s.prev_view(),
            None => None,
        }
    }

    /// An executor with no state yet; its schema has one 64-bit integer
    /// column per call.
    pub fn new(agg_calls: Vec<AggCall>, keyspace: Vec<u8>, pk_indices: Vec<usize>) -> (r:
        SimpleAggExecutor)
        ensures
            r.wf(),
            r.agg_calls@ == agg_calls@,
            r.keyspace@ == keyspace@,
            r.pk_indices@ == pk_indices@,
            r.states is None,
            r.schema.fields@.len() == agg_calls@.len(),
            forall|i: int|
                0 <= i < agg_calls@.len() ==> (#[trigger] r.schema.fields@[i]).data_type
                    == DataType::Int64,
    {
        let mut fields: Vec<Field> = Vec::with_capacity(agg_calls.len());
        let mut i: usize = 0;
        while i < agg_calls.len()
            invariant
                0 <= i <= agg_calls@.len(),
                fields@.len() == i,
                forall|k: int| 0 <= k < i ==> (#[trigger] fields@[k]).data_type == DataType::Int64,
            decreases agg_calls@.len() - i,
        {
            fields.push(Field::unnamed(DataType::Int64));
            i += 1;
        }
        SimpleAggExecutor {
            schema: Schema::new(fields),
            pk_indices,
            keyspace,
            agg_calls,
            states: None,
        }
    }

    /// Folds the visible rows of a chunk into the state, making the state
    /// first if there is none yet.
    pub fn apply_chunk(&mut self, chunk: StreamChunk) -> (r: StreamResult<()>)
        requires
            old(self).wf(),
        ensures
            apply_post(old(self), final(self), &chunk, r),
            lengths_agree(chunk.ops_view(), chunk.columns_view(), chunk.visibility_view()),
    {
        let ghost c = chunk;
        let (ops, columns, visibility) = chunk.into_inner();
        assert(c.columns_view().len() == columns@.len());
        let mut i: usize = 0;
        while i < self.agg_calls.len()
            invariant
                0 <= i <= self.agg_calls@.len(),
                *self == *old(self),
                self.wf(),
                c == chunk,
                lengths_agree(c.ops_view(), c.columns_view(), c.visibility_view()),
                crate::chunk::columns_view(columns@) == c.columns_view(),
                c.columns_view().len() == columns@.len(),
                forall|k: int| 0 <= k < i ==> call_fits(#[trigger] self.agg_calls@[k], columns@.len()),
            decreases self.agg_calls@.len() - i,
        {
            let call = self.agg_calls[i];
            let fits = match call.kind {
                crate::agg::AggKind::RowCount => true,
                _ => call.arg < columns.len(),
            };
            if !fits {
                assert(!call_fits(self.agg_calls@[i as int], c.columns_view().len()));
                assert(!calls_fit(old(self).agg_calls@, chunk.columns_view().len()));
                return Err(StreamError::SchemaViolation);
            }
            i += 1;
        }
        assert(c.columns_view().len() == columns@.len());
        let was_empty = self.states.is_none();
        let mut st = match self.states.take() {
            Some(s) => s,
            None => AggState::new(&self.agg_calls),
        };
        let ghost s0 = st;
        proof {
            assert forall|k: int| 0 <= k < old(self).agg_calls@.len() implies (fold_fits(
                #[trigger] old(self).agg_calls@[k],
                old(self).prior_acc(k),
                old(self).prior_values(k),
                c.ops_view(),
                c.visibility_view(),
                c.columns_view(),
                c.ops_view().len(),
            ) == fold_fits(
                s0.managed_states@[k].call,
                s0.managed_states@[k].acc as int,
                s0.managed_states@[k].values@,
                ops@,
                match visibility {
                    Some(v) => Some(v@),
                    None => None,
                },
                crate::chunk::columns_view(columns@),
                ops@.len(),
            ) && old(self).prior_acc(k) == s0.managed_states@[k].acc as int
                && old(self).prior_values(k) == s0.managed_states@[k].values@) by {
                assert(s0.managed_states@[k].call == s0.calls()[k]);
                if old(self).states is None {
                    assert(s0.managed_states@[k].values@ =~= Seq::<i64>::empty());
                }
            }
            assert(forall|k: int|
                0 <= k < s0.managed_states@.len() ==> #[trigger] s0.managed_states@[k].call
                    == s0.calls()[k]);
        }
        let r = st.apply_batch(&ops, &visibility, &columns);
        if r.is_err() && was_empty {
            self.states = None;
        } else {
            self.states = Some(st);
        }
        proof {
            if r is Ok {
                assert(chunk_fits(old(self), &c));
            } else {
                assert(!chunk_fits(old(self), &c)) by {
                    let k = choose|k: int|
                        0 <= k < s0.managed_states@.len() && !fold_fits(
                            #[trigger] s0.managed_states@[k].call,
                            s0.managed_states@[k].acc as int,
                            s0.managed_states@[k].values@,
                            ops@,
                            match visibility {
                                Some(v) => Some(v@),
                                None => None,
                            },
                            crate::chunk::columns_view(columns@),
                            ops@.len(),
                        );
                    assert(s0.calls()[k] == s0.managed_states@[k].call);
                }
            }
        }
        r
    }

    /// At a barrier: when dirty, appends to `write_batch` the entries that
    /// persist every call's output and returns the rows of how the output
    /// moved; when clean, returns `None` and writes nothing.
    pub fn flush_data(&mut self, write_batch: &mut Vec<WriteEntry>) -> (r: Option<StreamChunk>)
        requires
            old(self).wf(),
        ensures
            flush_post(old(self), final(self), r),
            !old(self).dirty() ==> final(write_batch)@ == old(write_batch)@,
            old(self).dirty() ==> final(write_batch)@.len() == old(write_batch)@.len()
                + old(self).agg_calls@.len(),
            old(self).dirty() ==> forall|k: int|
                0 <= k < old(write_batch)@.len() ==> #[trigger] final(write_batch)@[k] == old(
                    write_batch,
                )@[k],
            old(self).dirty() ==> forall|i: int|
                0 <= i < old(self).agg_calls@.len() ==> entry_view(
                    #[trigger] final(write_batch)@[old(write_batch)@.len() + i],
                ) == state_entry(old(self).keyspace@, i, old(self).states->Some_0.outputs()[i]),
    {
        let dirty = match &self.states {
            Some(s) => s.is_dirty(),
            None => false,
        };
        if !dirty {
            return None;
        }
        let mut st = match self.states.take() {
            Some(s) => s,
            None => {
                return None;
            },
        };
        let ghost s0 = st;
        st.flush(&self.keyspace, write_batch);
        assert(s0.calls().len() == s0.managed_states@.len());
        let r = st.build_changes();
        self.states = Some(st);
        r
    }

    /// Handles one message from upstream and gives what goes downstream, in
    /// order. A chunk is folded into the state and yields nothing. A barrier
    /// flushes the state: the rows of the flush, if any, go out before the
    /// barrier, and the barrier is always the last message.
    pub fn process(&mut self, msg: Message, write_batch: &mut Vec<WriteEntry>) -> (r: StreamResult<
        Vec<Message>,
    >)
        requires
            old(self).wf(),
        ensures
            final(self).wf(),
            msg matches Message::Chunk(c) ==> apply_post(
                old(self),
                final(self),
                &c,
                match r {
                    Ok(_) => Ok(()),
                    Err(e) => Err(e),
                },
            ),
            msg matches Message::Chunk(c) ==> (r matches Ok(out) ==> out@.len() == 0),
            msg matches Message::Chunk(c) ==> final(write_batch)@ == old(write_batch)@,
            msg matches Message::Barrier(b) ==> (r matches Ok(out) && barrier_output(
                old(self),
                final(self),
                b,
                out@,
            )),
            msg matches Message::Barrier(b) ==> final(write_batch)@.len() >= old(write_batch)@.len(),
    {
        match msg {
            Message::Chunk(c) => {
                match self.apply_chunk(c) {
                    Ok(()) => Ok(Vec::new()),
                    Err(e) => Err(e),
                }
            },
            Message::Barrier(b) => {
                let mut out: Vec<Message> = Vec::new();
                match self.flush_data(write_batch) {
                    Some(chunk) => {
                        out.push(Message::Chunk(chunk));
                    },
                    None => {},
                }
                out.push(Message::Barrier(b));
                Ok(out)
            },
        }
    }

    pub fn schema(&self) -> (r: &Schema)
        ensures
            *r == self.schema,
    {
        &self.schema
    }

    pub fn pk_indices(&self) -> (r: &Vec<usize>)
        ensures
            r@ == self.pk_indices@,
    {
        &self.pk_indices
    }
}

/// Two flushes in a row, with no chunk between them: the second emits
/// nothing.
pub proof fn lemma_second_flush_is_empty(
    a: &SimpleAggExecutor,
    b: &SimpleAggExecutor,
    c: &SimpleAggExecutor,
    r1: Option<StreamChunk>,
    r2: Option<StreamChunk>,
)
    requires
        flush_post(a, b, r1),
        flush_post(b, c, r2),
    ensures
        !b.dirty(),
        r2 is None,
{
    if a.dirty() {
        let s = a.states->Some_0;
        let t = b.states->Some_0;
        assert(t.outputs() =~= s.outputs());
    }
}

} // verus!

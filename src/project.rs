use vstd::prelude::*;
use vstd::string::StringExecFns;

use crate::chunk::{compact_seq, Column, Datum, StreamChunk};
use crate::error::{StreamError, StreamResult};
use crate::expr::{eval_spec, Expression};
use crate::message::{barriers_of, Message};
use crate::hex::{hex_digits, upper_hex};
use crate::schema::{DataType, Field, Schema};

verus! {

/// What every executor exposes: its output schema, the positions of its
/// primary-key columns, and a name for diagnostics.
#[derive(Debug)]
pub struct ExecutorInfo {
    pub schema: Schema,
    pub pk_indices: Vec<usize>,
    pub identity: String,
}

/// The columns of a chunk after compaction.
pub open spec fn compacted_columns(c: &StreamChunk) -> Seq<Seq<Datum>> {
    Seq::new(
        c.columns_view().len(),
        |j: int| compact_seq(c.columns_view()[j], c.visibility_view()),
    )
}

/// Whether every expression can be computed over the visible rows of `c`.
pub open spec fn projection_ok(exprs: Seq<Expression>, c: &StreamChunk) -> bool {
    forall|j: int|
        0 <= j < exprs.len() ==> (#[trigger] eval_spec(
            exprs[j],
            compacted_columns(c),
            compact_seq(c.ops_view(), c.visibility_view()).len(),
        )) is Ok
}

/// Whether `r` is the projection of `c`: the visible rows' ops, and one column
/// per expression, computed over the visible rows.
pub open spec fn is_projection_of(r: &StreamChunk, exprs: Seq<Expression>, c: &StreamChunk) -> bool {
    &&& r.ops_view() == compact_seq(c.ops_view(), c.visibility_view())
    &&& r.columns_view().len() == exprs.len()
    &&& forall|j: int|
        0 <= j < exprs.len() ==> Ok::<_, ()>(#[trigger] r.columns_view()[j]) == eval_spec(
            exprs[j],
            compacted_columns(c),
            r.ops_view().len(),
        )
    &&& r.visibility_view() is None
}

/// Projects each chunk through a list of expressions.
#[derive(Debug)]
pub struct SimpleProjectExecutor {
    pub info: ExecutorInfo,
    pub exprs: Vec<Expression>,
}

impl SimpleProjectExecutor {
    /// One unnamed field per expression; the primary key of the input.
    pub fn new(input_info: ExecutorInfo, exprs: Vec<Expression>, executor_id: u64) -> (r:
        SimpleProjectExecutor)
        ensures
            r.exprs@ == exprs@,
            r.info.pk_indices@ == input_info.pk_indices@,
            r.info.schema.fields@.len() == exprs@.len(),
            forall|j: int|
                0 <= j < exprs@.len() ==> (#[trigger] r.info.schema.fields@[j]).name@.len() == 0
                    && r.info.schema.fields@[j].data_type == DataType::Int64,
            r.info.identity@ == "ProjectExecutor "@ + hex_digits(executor_id as nat),
    {
        let mut fields: Vec<Field> = Vec::with_capacity(exprs.len());
        let mut j: usize = 0;
        while j < exprs.len()
            invariant
                0 <= j <= exprs@.len(),
                fields@.len() == j,
                forall|k: int|
                    0 <= k < j ==> (#[trigger] fields@[k]).name@.len() == 0 && fields@[k].data_type
                        == DataType::Int64,
            decreases exprs@.len() - j,
        {
            fields.push(Field::unnamed(exprs[j].return_type()));
            j += 1;
        }
        let hex = upper_hex(executor_id);
        let identity = "ProjectExecutor ".to_owned().concat(hex.as_str());
        SimpleProjectExecutor {
            info: ExecutorInfo {
                schema: Schema::new(fields),
                pk_indices: input_info.pk_indices,
                identity,
            },
            exprs,
        }
    }

    /// The projection of the visible rows of `chunk`; `EvalError` when an
    /// expression cannot be computed.
    pub fn map_filter_chunk(&mut self, chunk: StreamChunk) -> (r: StreamResult<
        Option<StreamChunk>,
    >)
        ensures
            *final(self) == *old(self),
            r is Ok <==> projection_ok(old(self).exprs@, &chunk),
            r matches Ok(o) ==> (o matches Some(c) && is_projection_of(
                &c,
                old(self).exprs@,
                &chunk,
            )),
            r matches Err(e) ==> e is EvalError,
    {
        let ghost orig = chunk;
        let compacted = chunk.compact();
        let (ops, columns, _visibility) = compacted.into_inner();
        let n = ops.len();
        proof {
            assert(crate::chunk::columns_view(columns@) =~= compacted_columns(&orig));
            assert forall|k: int| 0 <= k < columns@.len() implies (#[trigger] columns@[k])@.len()
                == n by {
                assert(crate::chunk::columns_view(columns@)[k] == columns@[k]@);
            }
        }
        let mut projected: Vec<Column> = Vec::with_capacity(self.exprs.len());
        let mut j: usize = 0;
        while j < self.exprs.len()
            invariant
                0 <= j <= self.exprs@.len(),
                *self == *old(self),
                orig == chunk,
                n == ops@.len(),
                ops@ == compact_seq(orig.ops_view(), orig.visibility_view()),
                crate::chunk::columns_view(columns@) == compacted_columns(&orig),
                forall|k: int| 0 <= k < columns@.len() ==> (#[trigger] columns@[k])@.len() == n,
                projected@.len() == j,
                forall|k: int|
                    0 <= k < j ==> Ok::<_, ()>((#[trigger] projected@[k])@) == eval_spec(
                        self.exprs@[k],
                        compacted_columns(&orig),
                        n as nat,
                    ),
                forall|k: int| 0 <= k < j ==> (#[trigger] projected@[k])@.len() == n,
            decreases self.exprs@.len() - j,
        {
            let col = self.exprs[j].eval(&columns, n);
            match col {
                Ok(c) => {
                    projected.push(c);
                },
                Err(e) => {
                    assert(!(eval_spec(self.exprs@[j as int], compacted_columns(&orig), n as nat)
                        is Ok));
                    assert(!(eval_spec(
                        old(self).exprs@[j as int],
                        compacted_columns(&orig),
                        compact_seq(orig.ops_view(), orig.visibility_view()).len(),
                    ) is Ok));
                    assert(!projection_ok(old(self).exprs@, &orig));
                    return Err(e);
                },
            }
            j += 1;
        }
        proof {
            assert forall|k: int| 0 <= k < projected@.len() implies (#[trigger] crate::chunk::columns_view(
                projected@,
            )[k]).len() == ops@.len() by {}
            assert forall|k: int| 0 <= k < self.exprs@.len() implies (#[trigger] eval_spec(
                self.exprs@[k],
                compacted_columns(&orig),
                compact_seq(orig.ops_view(), orig.visibility_view()).len(),
            )) is Ok by {
                assert(Ok::<_, ()>(projected@[k]@) == eval_spec(
                    self.exprs@[k],
                    compacted_columns(&orig),
                    n as nat,
                ));
            }
        }
        let r = StreamChunk::new(ops, projected, None);
        match r {
            Ok(c) => {
                proof {
                    assert forall|k: int| 0 <= k < projected@.len() implies Ok::<_, ()>(
                        #[trigger] c.columns_view()[k],
                    ) == eval_spec(self.exprs@[k], compacted_columns(&orig), n as nat) by {
                        assert(c.columns_view()[k] == projected@[k]@);
                    }
                }
                Ok(Some(c))
            },
            Err(e) => Err(e),
        }
    }

    pub fn schema(&self) -> (r: &Schema)
        ensures
            *r == self.info.schema,
    {
        &self.info.schema
    }

    pub fn pk_indices(&self) -> (r: &Vec<usize>)
        ensures
            r@ == self.info.pk_indices@,
    {
        &self.info.pk_indices
    }

    pub fn identity(&self) -> (r: &str)
        ensures
            r@ == self.info.identity@,
    {
        self.info.identity.as_str()
    }
}

/// Whether every chunk of `msgs` can be projected through `exprs`.
pub open spec fn all_projectable(exprs: Seq<Expression>, msgs: Seq<Message>) -> bool {
    forall|k: int|
        0 <= k < msgs.len() ==> (#[trigger] msgs[k] matches Message::Chunk(c) ==> projection_ok(
            exprs,
            &c,
        ))
}

/// A stateless executor: chunks go through [`SimpleProjectExecutor`],
/// barriers pass untouched.
#[derive(Debug)]
pub struct ProjectExecutor {
    pub inner: SimpleProjectExecutor,
}

impl ProjectExecutor {
    pub fn new(input_info: ExecutorInfo, exprs: Vec<Expression>, executor_id: u64) -> (r:
        ProjectExecutor)
        ensures
            r.inner.exprs@ == exprs@,
            r.inner.info.pk_indices@ == input_info.pk_indices@,
            r.inner.info.schema.fields@.len() == exprs@.len(),
            forall|j: int|
                0 <= j < exprs@.len() ==> (#[trigger] r.inner.info.schema.fields@[j]).name@.len()
                    == 0 && r.inner.info.schema.fields@[j].data_type == DataType::Int64,
            r.inner.info.identity@ == "ProjectExecutor "@ + hex_digits(executor_id as nat),
    {
        ProjectExecutor { inner: SimpleProjectExecutor::new(input_info, exprs, executor_id) }
    }

    /// Handles one message from upstream and gives what goes downstream: a
    /// barrier as it came, a chunk projected.
    pub fn process(&mut self, msg: Message) -> (r: StreamResult<Option<Message>>)
        ensures
            *final(self) == *old(self),
            msg matches Message::Chunk(c) ==> (r is Ok <==> projection_ok(
                old(self).inner.exprs@,
                &c,
            )),
            r matches Ok(o) ==> (o matches Some(m) && projected_message(
                old(self).inner.exprs@,
                msg,
                m,
            )),
            msg is Barrier ==> r is Ok,
            r matches Err(e) ==> e is EvalError,
    {
        match msg {
            Message::Barrier(b) => Ok(Some(Message::Barrier(b))),
            Message::Chunk(c) => {
                match self.inner.map_filter_chunk(c) {
                    Ok(Some(d)) => Ok(Some(Message::Chunk(d))),
                    Ok(None) => Ok(None),
                    Err(e) => Err(e),
                }
            },
        }
    }

    /// Runs a sequence of messages through the executor, in order: each
    /// barrier goes out as it came, each chunk projected, one message out for
    /// each message in.
    pub fn run(&mut self, msgs: Vec<Message>) -> (r: StreamResult<Vec<Message>>)
        ensures
            *final(self) == *old(self),
            r is Ok <==> all_projectable(old(self).inner.exprs@, msgs@),
            r matches Ok(out) ==> out@.len() == msgs@.len() && forall|k: int|
                0 <= k < msgs@.len() ==> projected_message(
                    old(self).inner.exprs@,
                    #[trigger] msgs@[k],
                    out@[k],
                ),
            r matches Ok(out) ==> barriers_of(out@) == barriers_of(msgs@),
            r matches Err(e) ==> e is EvalError,
    {
        let ghost input = msgs@;
        let total = msgs.len();
        let mut rest = msgs;
        let mut out: Vec<Message> = Vec::new();
        let mut i: usize = 0;
        while rest.len() > 0
            invariant
                *self == *old(self),
                i <= input.len(),
                input == msgs@,
                input.len() == total,
                rest@ == input.subrange(i as int, input.len() as int),
                out@.len() == i,
                forall|k: int|
                    0 <= k < i ==> projected_message(
                        old(self).inner.exprs@,
                        #[trigger] input[k],
                        out@[k],
                    ),
                barriers_of(out@) == barriers_of(input.take(i as int)),
                all_projectable(old(self).inner.exprs@, input.take(i as int)),
            decreases rest@.len(),
        {
            assert(i < input.len());
            let msg = rest.remove(0);
            assert(msg == input[i as int]);
            let ghost before = out@;
            assert(input.take(i as int + 1).drop_last() =~= input.take(i as int));
            match self.process(msg) {
                Ok(Some(m)) => {
                    out.push(m);
                    assert(out@.drop_last() =~= before);
                    proof {
                        lemma_projected_barriers(old(self).inner.exprs@, input[i as int], m);
                    }
                },
                Ok(None) => {
                    assert(false);
                },
                Err(e) => {
                    assert(!all_projectable(old(self).inner.exprs@, input)) by {
                        assert(input[i as int] matches Message::Chunk(c) && !projection_ok(
                            old(self).inner.exprs@,
                            &c,
                        ));
                    }
                    return Err(e);
                },
            }
            proof {
                assert forall|k: int| 0 <= k < i + 1 implies (#[trigger] input.take(
                    i as int + 1,
                )[k] matches Message::Chunk(c) ==> projection_ok(old(self).inner.exprs@, &c)) by {
                    if k < i {
                        assert(input.take(i as int + 1)[k] == input.take(i as int)[k]);
                    }
                }
            }
            i += 1;
        }
        assert(input.take(i as int) =~= input);
        Ok(out)
    }
}

/// Whether `out` is what the projection sends for `m`: a barrier as it came,
/// a chunk projected.
pub open spec fn projected_message(exprs: Seq<Expression>, m: Message, out: Message) -> bool {
    match m {
        Message::Barrier(b) => out == Message::Barrier(b),
        Message::Chunk(c) => out matches Message::Chunk(d) && is_projection_of(&d, exprs, &c),
    }
}

proof fn lemma_projected_barriers(exprs: Seq<Expression>, m: Message, out: Message)
    requires
        projected_message(exprs, m, out),
    ensures
        m matches Message::Barrier(b) ==> out == Message::Barrier(b),
        m is Chunk ==> out is Chunk,
{
}

} // verus!

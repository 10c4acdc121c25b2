use vstd::prelude::*;

use crate::chunk::{columns_view, lengths_agree, row_visible, Column, Datum, Op, StreamChunk};
use crate::error::{StreamError, StreamResult};
use crate::value::HummockValue;
use vstd::bytes::{spec_u64_to_le_bytes, u64_to_le_bytes};

verus! {

/// The aggregate functions that a streaming aggregation maintains.
#[derive(Clone, Copy, Debug, PartialEq, Eq, Structural)]
pub enum AggKind {
    /// The number of rows, counting inserts up and deletes down.
    RowCount,
    /// The sum of the non-null values of a column.
    Sum,
    /// The least non-null value of a column, `None` when there is none.
    Min,
    /// The greatest non-null value of a column, `None` when there is none.
    Max,
}

/// One aggregate call: a function and the input column it reads (unused by
/// `RowCount`).
#[derive(Clone, Copy, Debug, PartialEq, Eq, Structural)]
pub struct AggCall {
    pub kind: AggKind,
    pub arg: usize,
}

/// Whether `v` fits in an `i64`.
pub open spec fn in_i64(v: int) -> bool {
    i64::MIN <= v <= i64::MAX
}

/// `s` without its first occurrence of `v`; `s` itself when `v` is absent.
pub open spec fn remove_one(s: Seq<i64>, v: i64) -> Seq<i64>
    decreases s.len(),
{
    if s.len() == 0 {
        s
    } else if s[0] == v {
        s.subrange(1, s.len() as int)
    } else {
        seq![s[0]].add(remove_one(s.subrange(1, s.len() as int), v))
    }
}

/// The least element of `s`, `None` when `s` is empty.
pub open spec fn seq_min(s: Seq<i64>) -> Option<i64>
    decreases s.len(),
{
    if s.len() == 0 {
        None
    } else {
        match seq_min(s.drop_last()) {
            None => Some(s.last()),
            Some(m) => Some(if s.last() < m { s.last() } else { m }),
        }
    }
}

/// The greatest element of `s`, `None` when `s` is empty.
pub open spec fn seq_max(s: Seq<i64>) -> Option<i64>
    decreases s.len(),
{
    if s.len() == 0 {
        None
    } else {
        match seq_max(s.drop_last()) {
            None => Some(s.last()),
            Some(m) => Some(if s.last() > m { s.last() } else { m }),
        }
    }
}

/// The value that an aggregate call reads from row `i`.
pub open spec fn arg_datum(call: AggCall, columns: Seq<Seq<Datum>>, i: int) -> Datum {
    match call.kind {
        AggKind::RowCount => None,
        _ => columns[call.arg as int][i],
    }
}

/// Whether the chunk has the column that the call reads.
pub open spec fn call_fits(call: AggCall, n_columns: nat) -> bool {
    call.kind is RowCount || call.arg < n_columns
}

/// The state of one call after one visible row: counters and sums move by
/// the row's sign, min and max keep every live value, so that a delete can
/// take back any of them.
pub open spec fn row_step(call: AggCall, acc: int, values: Seq<i64>, op: Op, d: Datum) -> (int, Seq<
    i64,
>) {
    match call.kind {
        AggKind::RowCount => (if op.positive() { acc + 1 } else { acc - 1 }, values),
        AggKind::Sum => match d {
            None => (acc, values),
            Some(x) => (if op.positive() { acc + x } else { acc - x }, values),
        },
        _ => match d {
            None => (acc, values),
            Some(x) => (acc, if op.positive() { values.push(x) } else { remove_one(values, x) }),
        },
    }
}

/// The state of one call after the first `n` rows of a batch; invisible rows
/// leave it alone.
pub open spec fn fold_rows(
    call: AggCall,
    acc: int,
    values: Seq<i64>,
    ops: Seq<Op>,
    vis: Option<Seq<bool>>,
    columns: Seq<Seq<Datum>>,
    n: nat,
) -> (int, Seq<i64>)
    decreases n,
{
    if n == 0 {
        (acc, values)
    } else {
        let p = fold_rows(call, acc, values, ops, vis, columns, (n - 1) as nat);
        if row_visible(vis, n - 1) {
            row_step(call, p.0, p.1, ops[n - 1], arg_datum(call, columns, n - 1))
        } else {
            p
        }
    }
}

/// Whether the counter or the sum fits in an `i64` after every prefix of
/// the first `n` rows.
pub open spec fn fold_fits(
    call: AggCall,
    acc: int,
    values: Seq<i64>,
    ops: Seq<Op>,
    vis: Option<Seq<bool>>,
    columns: Seq<Seq<Datum>>,
    n: nat,
) -> bool {
    forall|k: nat|
        k <= n ==> in_i64(#[trigger] fold_rows(call, acc, values, ops, vis, columns, k).0)
}

/// The value that a call outputs from its state.
pub open spec fn output_of(call: AggCall, acc: i64, values: Seq<i64>) -> Datum {
    match call.kind {
        AggKind::RowCount => Some(acc),
        AggKind::Sum => Some(acc),
        AggKind::Min => seq_min(values),
        AggKind::Max => seq_max(values),
    }
}

proof fn lemma_remove_at_first(s: Seq<i64>, v: i64, i: int)
    requires
        0 <= i < s.len(),
        s[i] == v,
        forall|k: int| 0 <= k < i ==> s[k] != v,
    ensures
        remove_one(s, v) == s.remove(i),
    decreases s.len(),
{
    if i == 0 {
        assert(s.subrange(1, s.len() as int) =~= s.remove(0));
    } else {
        let t = s.subrange(1, s.len() as int);
        lemma_remove_at_first(t, v, i - 1);
        assert(seq![s[0]].add(t.remove(i - 1)) =~= s.remove(i));
    }
}

proof fn lemma_remove_absent(s: Seq<i64>, v: i64)
    requires
        forall|k: int| 0 <= k < s.len() ==> s[k] != v,
    ensures
        remove_one(s, v) == s,
    decreases s.len(),
{
    if s.len() > 0 {
        let t = s.subrange(1, s.len() as int);
        lemma_remove_absent(t, v);
        assert(seq![s[0]].add(t) =~= s);
    }
}

/// Removes the first occurrence of `v`, if any.
fn remove_first(values: &mut Vec<i64>, v: i64)
    ensures
        final(values)@ == remove_one(old(values)@, v),
{
    let mut i: usize = 0;
    while i < values.len()
        invariant
            0 <= i <= values@.len(),
            values@ == old(values)@,
            forall|k: int| 0 <= k < i ==> values@[k] != v,
        decreases values@.len() - i,
    {
        if values[i] == v {
            proof {
                lemma_remove_at_first(values@, v, i as int);
            }
            values.remove(i);
            return;
        }
        i += 1;
    }
    proof {
        lemma_remove_absent(values@, v);
    }
}

/// The least and the greatest element, `None` when `s` is empty.
fn extremes(s: &Vec<i64>) -> (r: (Option<i64>, Option<i64>))
    ensures
        r.0 == seq_min(s@),
        r.1 == seq_max(s@),
{
    let mut lo: Option<i64> = None;
    let mut hi: Option<i64> = None;
    let mut i: usize = 0;
    while i < s.len()
        invariant
            0 <= i <= s@.len(),
            lo == seq_min(s@.take(i as int)),
            hi == seq_max(s@.take(i as int)),
        decreases s@.len() - i,
    {
        let x = s[i];
        assert(s@.take(i as int + 1).drop_last() =~= s@.take(i as int));
        lo = match lo {
            None => Some(x),
            Some(m) => Some(if x < m { x } else { m }),
        };
        hi = match hi {
            None => Some(x),
            Some(m) => Some(if x > m { x } else { m }),
        };
        i += 1;
    }
    assert(s@.take(s@.len() as int) =~= s@);
    (lo, hi)
}

/// The state that one aggregate call keeps: a counter or sum in `acc`, and
/// for min and max every live value in `values`.
#[derive(Debug)]
pub struct ManagedState {
    pub call: AggCall,
    pub acc: i64,
    pub values: Vec<i64>,
}

impl ManagedState {
    /// The state before any row.
    pub fn new(call: AggCall) -> (r: ManagedState)
        ensures
            r.call == call,
            r.acc == 0,
            r.values@.len() == 0,
    {
        ManagedState { call, acc: 0, values: Vec::new() }
    }

    /// A copy of the state.
    pub fn copy(&self) -> (r: ManagedState)
        ensures
            r.call == self.call,
            r.acc == self.acc,
            r.values@ == self.values@,
    {
        let mut values: Vec<i64> = Vec::with_capacity(self.values.len());
        let mut i: usize = 0;
        while i < self.values.len()
            invariant
                0 <= i <= self.values@.len(),
                values@ == self.values@.take(i as int),
            decreases self.values@.len() - i,
        {
            values.push(self.values[i]);
            i += 1;
            assert(values@ =~= self.values@.take(i as int));
        }
        assert(self.values@.take(self.values@.len() as int) =~= self.values@);
        ManagedState { call: self.call, acc: self.acc, values }
    }

    pub open spec fn output_spec(&self) -> Datum {
        output_of(self.call, self.acc, self.values@)
    }

    /// The value that the call outputs now.
    pub fn output(&self) -> (r: Datum)
        ensures
            r == self.output_spec(),
    {
        match self.call.kind {
            AggKind::RowCount | AggKind::Sum => Some(self.acc),
            AggKind::Min => extremes(&self.values).0,
            AggKind::Max => extremes(&self.values).1,
        }
    }

    /// Folds the visible rows of a batch into the state, in order.
    /// Fails with `EvalError` exactly when the counter or the sum leaves the
    /// range of `i64` on the way; the state is then not specified.
    pub fn apply_batch(
        &mut self,
        ops: &Vec<Op>,
        visibility: &Option<Vec<bool>>,
        columns: &Vec<Column>,
    ) -> (r: StreamResult<()>)
        requires
            lengths_agree(
                ops@,
                columns_view(columns@),
                match visibility {
                    Some(v) => Some(v@),
                    None => None,
                },
            ),
            call_fits(old(self).call, columns@.len()),
        ensures
            final(self).call == old(self).call,
            r is Ok <==> fold_fits(
                old(self).call,
                old(self).acc as int,
                old(self).values@,
                ops@,
                match visibility {
                    Some(v) => Some(v@),
                    None => None,
                },
                columns_view(columns@),
                ops@.len(),
            ),
            r is Ok ==> (final(self).acc as int, final(self).values@) == fold_rows(
                old(self).call,
                old(self).acc as int,
                old(self).values@,
                ops@,
                match visibility {
                    Some(v) => Some(v@),
                    None => None,
                },
                columns_view(columns@),
                ops@.len(),
            ),
            r matches Err(e) ==> e is EvalError,
    {
        let ghost vis = match visibility {
            Some(v) => Some(v@),
            None => None,
        };
        let ghost cols = columns_view(columns@);
        let ghost acc0 = self.acc as int;
        let ghost values0 = self.values@;
        let call = self.call;
        let mut i: usize = 0;
        while i < ops.len()
            invariant
                0 <= i <= ops@.len(),
                self.call == call,
                call == old(self).call,
                acc0 == old(self).acc as int,
                values0 == old(self).values@,
                vis == match visibility {
                    Some(v) => Some(v@),
                    None => None,
                },
                cols == columns_view(columns@),
                lengths_agree(ops@, cols, vis),
                call_fits(call, columns@.len()),
                fold_fits(call, acc0, values0, ops@, vis, cols, i as nat),
                (self.acc as int, self.values@) == fold_rows(
                    call,
                    acc0,
                    values0,
                    ops@,
                    vis,
                    cols,
                    i as nat,
                ),
            decreases ops@.len() - i,
        {
            let visible = match visibility {
                Some(v) => v[i],
                None => true,
            };
            if visible {
                let op = ops[i];
                let positive = op.is_positive();
                let d: Datum = match call.kind {
                    AggKind::RowCount => None,
                    _ => {
                        assert(cols[call.arg as int] == columns@[call.arg as int]@);
                        columns[call.arg][i]
                    },
                };
                assert(d == arg_datum(call, cols, i as int));
                match call.kind {
                    AggKind::RowCount => {
                        let next = if positive {
                            self.acc.checked_add(1)
                        } else {
                            self.acc.checked_sub(1)
                        };
                        match next {
                            Some(a) => self.acc = a,
                            None => {
                                assert(!in_i64(fold_rows(call, acc0, values0, ops@, vis, cols, (i + 1) as nat).0));
                                return Err(StreamError::EvalError);
                            },
                        }
                    },
                    AggKind::Sum => {
                        if let Some(x) = d {
                            let next = if positive {
                                self.acc.checked_add(x)
                            } else {
                                self.acc.checked_sub(x)
                            };
                            match next {
                                Some(a) => self.acc = a,
                                None => {
                                    assert(!in_i64(fold_rows(call, acc0, values0, ops@, vis, cols, (i + 1) as nat).0));
                                    return Err(StreamError::EvalError);
                                },
                            }
                        }
                    },
                    _ => {
                        if let Some(x) = d {
                            if positive {
                                self.values.push(x);
                            } else {
                                remove_first(&mut self.values, x);
                            }
                        }
                    },
                }
            }
            proof {
                assert forall|k: nat| k <= i + 1 implies in_i64(
                    #[trigger] fold_rows(call, acc0, values0, ops@, vis, cols, k).0,
                ) by {
                    if k <= i {
                        assert(in_i64(fold_rows(call, acc0, values0, ops@, vis, cols, k).0));
                    }
                }
            }
            i += 1;
        }
        Ok(())
    }
}

/// One entry of a write batch for the state store: a key and a value or a
/// tombstone.
pub type WriteEntry = (Vec<u8>, HummockValue<Vec<u8>>);

pub open spec fn entry_view(e: WriteEntry) -> (Seq<u8>, HummockValue<Seq<u8>>) {
    (e.0@, e.1.bytes_view())
}

/// The entry that persists the output `d` of call `i` under `keyspace`: the
/// key is the keyspace prefix and the call's position, the value the output
/// as eight little-endian bytes, or a tombstone for `None`.
pub open spec fn state_entry(keyspace: Seq<u8>, i: int, d: Datum) -> (Seq<u8>, HummockValue<
    Seq<u8>,
>) {
    (
        keyspace.add(spec_u64_to_le_bytes(i as u64)),
        match d {
            Some(v) => HummockValue::Put(spec_u64_to_le_bytes(v as u64)),
            None => HummockValue::Delete,
        },
    )
}

/// The ops of the rows that a flush emits: an insert when nothing was output
/// before, else a retract followed by the new value.
pub open spec fn change_ops(prev: Option<Seq<Datum>>) -> Seq<Op> {
    match prev {
        None => seq![Op::Insert],
        Some(_) => seq![Op::UpdateDelete, Op::UpdateInsert],
    }
}

/// The columns of the rows that a flush emits, in the order of
/// [`change_ops`]: the previous output (if any), then the current one.
pub open spec fn change_columns(prev: Option<Seq<Datum>>, cur: Seq<Datum>) -> Seq<Seq<Datum>> {
    Seq::new(
        cur.len(),
        |j: int|
            match prev {
                None => seq![cur[j]],
                Some(p) => seq![p[j], cur[j]],
            },
    )
}

/// The aggregation state of one operator: one [`ManagedState`] per call, and
/// the output row of the last flush (`None` before the first).
#[derive(Debug)]
pub struct AggState {
    pub managed_states: Vec<ManagedState>,
    pub prev_output: Option<Vec<Datum>>,
}

impl AggState {
    pub open spec fn wf(&self) -> bool {
        self.prev_output matches Some(p) ==> p@.len() == self.managed_states@.len()
    }

    pub open spec fn calls(&self) -> Seq<AggCall> {
        Seq::new(self.managed_states@.len(), |i: int| self.managed_states@[i].call)
    }

    /// The output row that the state stands for now.
    pub open spec fn outputs(&self) -> Seq<Datum> {
        Seq::new(self.managed_states@.len(), |i: int| self.managed_states@[i].output_spec())
    }

    pub open spec fn prev_view(&self) -> Option<Seq<Datum>> {
        match &self.prev_output {
            Some(p) => Some(p@),
            None => None,
        }
    }

    /// Dirty: nothing was flushed yet, or the output moved since the last
    /// flush.
    pub open spec fn dirty(&self) -> bool {
        match self.prev_view() {
            None => true,
            Some(p) => p != self.outputs(),
        }
    }

    /// A fresh state for the given calls, with no output yet.
    pub fn new(calls: &Vec<AggCall>) -> (r: AggState)
        ensures
            r.wf(),
            r.calls() == calls@,
            r.prev_output is None,
            forall|i: int|
                0 <= i < calls@.len() ==> (#[trigger] r.managed_states@[i]).acc == 0
                    && r.managed_states@[i].values@.len() == 0,
    {
        let mut states: Vec<ManagedState> = Vec::with_capacity(calls.len());
        let mut i: usize = 0;
        while i < calls.len()
            invariant
                0 <= i <= calls@.len(),
                states@.len() == i,
                forall|k: int|
                    0 <= k < i ==> (#[trigger] states@[k]).call == calls@[k] && states@[k].acc
                        == 0 && states@[k].values@.len() == 0,
            decreases calls@.len() - i,
        {
            states.push(ManagedState::new(calls[i]));
            i += 1;
        }
        let r = AggState { managed_states: states, prev_output: None };
        assert(r.calls() =~= calls@);
        r
    }

    /// The current output row.
    pub fn current_output(&self) -> (r: Vec<Datum>)
        ensures
            r@ == self.outputs(),
    {
        let mut r: Vec<Datum> = Vec::with_capacity(self.managed_states.len());
        let mut i: usize = 0;
        while i < self.managed_states.len()
            invariant
                0 <= i <= self.managed_states@.len(),
                r@.len() == i,
                forall|k: int| 0 <= k < i ==> r@[k] == self.managed_states@[k].output_spec(),
            decreases self.managed_states@.len() - i,
        {
            r.push(self.managed_states[i].output());
            i += 1;
        }
        assert(r@ =~= self.outputs());
        r
    }

    pub fn is_dirty(&self) -> (r: bool)
        requires
            self.wf(),
        ensures
            r == self.dirty(),
    {
        match &self.prev_output {
            None => true,
            Some(p) => {
                assert(self.prev_view() == Some(p@));
                let cur = self.current_output();
                let mut i: usize = 0;
                while i < p.len()
                    invariant
                        0 <= i <= p@.len(),
                        p@.len() == cur@.len(),
                        cur@ == self.outputs(),
                        self.prev_view() == Some(p@),
                        forall|k: int| 0 <= k < i ==> p@[k] == cur@[k],
                    decreases p@.len() - i,
                {
                    if p[i] != cur[i] {
                        assert(p@[i as int] != self.outputs()[i as int]);
                        assert(p@ != self.outputs());
                        return true;
                    }
                    i += 1;
                }
                assert(p@ =~= cur@);
                false
            },
        }
    }

    /// Folds one batch into every call's state. All or nothing: when a call
    /// fails, the state is left as it was.
    pub fn apply_batch(
        &mut self,
        ops: &Vec<Op>,
        visibility: &Option<Vec<bool>>,
        columns: &Vec<Column>,
    ) -> (r: StreamResult<()>)
        requires
            old(self).wf(),
            lengths_agree(
                ops@,
                columns_view(columns@),
                match visibility {
                    Some(v) => Some(v@),
                    None => None,
                },
            ),
            forall|i: int|
                0 <= i < old(self).managed_states@.len() ==> call_fits(
                    #[trigger] old(self).managed_states@[i].call,
                    columns@.len(),
                ),
        ensures
            final(self).wf(),
            final(self).calls() == old(self).calls(),
            final(self).prev_view() == old(self).prev_view(),
            r is Ok <==> forall|i: int|
                0 <= i < old(self).managed_states@.len() ==> fold_fits(
                    #[trigger] old(self).managed_states@[i].call,
                    old(self).managed_states@[i].acc as int,
                    old(self).managed_states@[i].values@,
                    ops@,
                    match visibility {
                        Some(v) => Some(v@),
                        None => None,
                    },
                    columns_view(columns@),
                    ops@.len(),
                ),
            r is Ok ==> forall|i: int|
                0 <= i < old(self).managed_states@.len() ==> (
                #[trigger] final(self).managed_states@[i].acc as int,
                final(self).managed_states@[i].values@,
            ) == fold_rows(
                    old(self).managed_states@[i].call,
                    old(self).managed_states@[i].acc as int,
                    old(self).managed_states@[i].values@,
                    ops@,
                    match visibility {
                        Some(v) => Some(v@),
                        None => None,
                    },
                    columns_view(columns@),
                    ops@.len(),
                ),
            r matches Err(e) ==> e is EvalError && *final(self) == *old(self),
    {
        let ghost vis = match visibility {
            Some(v) => Some(v@),
            None => None,
        };
        let ghost cols = columns_view(columns@);
        let ghost old_states = self.managed_states@;
        let n = self.managed_states.len();
        let mut next: Vec<ManagedState> = Vec::with_capacity(n);
        let mut i: usize = 0;
        while i < n
            invariant
                0 <= i <= n,
                n == old_states.len(),
                *self == *old(self),
                self.wf(),
                old_states == old(self).managed_states@,
                vis == match visibility {
                    Some(v) => Some(v@),
                    None => None,
                },
                cols == columns_view(columns@),
                lengths_agree(ops@, cols, vis),
                forall|k: int|
                    0 <= k < n ==> call_fits(#[trigger] old_states[k].call, columns@.len()),
                next@.len() == i,
                forall|k: int| 0 <= k < i ==> (#[trigger] next@[k]).call == old_states[k].call,
                forall|k: int|
                    0 <= k < i ==> fold_fits(
                        #[trigger] old_states[k].call,
                        old_states[k].acc as int,
                        old_states[k].values@,
                        ops@,
                        vis,
                        cols,
                        ops@.len(),
                    ),
                forall|k: int|
                    0 <= k < i ==> (#[trigger] next@[k].acc as int, next@[k].values@) == fold_rows(
                        old_states[k].call,
                        old_states[k].acc as int,
                        old_states[k].values@,
                        ops@,
                        vis,
                        cols,
                        ops@.len(),
                    ),
            decreases n - i,
        {
            let mut st = self.managed_states[i].copy();
            let res = st.apply_batch(ops, visibility, columns);
            if res.is_err() {
                return res;
            }
            next.push(st);
            i += 1;
        }
        self.managed_states = next;
        assert(self.calls() =~= old(self).calls());
        Ok(())
    }

    /// Appends to `write_batch` one entry per call that persists its current
    /// output under `keyspace`.
    pub fn flush(&self, keyspace: &Vec<u8>, write_batch: &mut Vec<WriteEntry>)
        ensures
            final(write_batch)@.len() == old(write_batch)@.len() + self.managed_states@.len(),
            forall|k: int|
                0 <= k < old(write_batch)@.len() ==> #[trigger] final(write_batch)@[k] == old(
                    write_batch,
                )@[k],
            forall|i: int|
                0 <= i < self.managed_states@.len() ==> entry_view(
                    #[trigger] final(write_batch)@[old(write_batch)@.len() + i],
                ) == state_entry(keyspace@, i, self.outputs()[i]),
    {
        let ghost base = old(write_batch)@.len();
        let mut i: usize = 0;
        while i < self.managed_states.len()
            invariant
                0 <= i <= self.managed_states@.len(),
                base == old(write_batch)@.len(),
                write_batch@.len() == base + i,
                forall|k: int| 0 <= k < base ==> #[trigger] write_batch@[k] == old(write_batch)@[k],
                forall|j: int|
                    0 <= j < i ==> entry_view(#[trigger] write_batch@[base + j]) == state_entry(
                        keyspace@,
                        j,
                        self.outputs()[j],
                    ),
            decreases self.managed_states@.len() - i,
        {
            let mut key: Vec<u8> = Vec::new();
            let mut k: usize = 0;
            while k < keyspace.len()
                invariant
                    0 <= k <= keyspace@.len(),
                    key@ == keyspace@.take(k as int),
                decreases keyspace@.len() - k,
            {
                key.push(keyspace[k]);
                k += 1;
                assert(key@ =~= keyspace@.take(k as int));
            }
            let mut suffix = u64_to_le_bytes(i as u64);
            key.append(&mut suffix);
            assert(keyspace@.take(keyspace@.len() as int) =~= keyspace@);
            let out = self.managed_states[i].output();
            let value = match out {
                Some(v) => HummockValue::Put(u64_to_le_bytes(#[verifier::truncate] (v as u64))),
                None => HummockValue::Delete,
            };
            write_batch.push((key, value));
            i += 1;
        }
    }

    /// When dirty, the rows that tell downstream how the output moved since
    /// the last flush (see [`change_ops`] and [`change_columns`]), and the
    /// current output becomes the previous one; when clean, nothing.
    pub fn build_changes(&mut self) -> (r: Option<StreamChunk>)
        requires
            old(self).wf(),
        ensures
            final(self).wf(),
            final(self).managed_states == old(self).managed_states,
            !old(self).dirty() ==> r is None && final(self).prev_view() == old(self).prev_view(),
            old(self).dirty() ==> (r matches Some(c) && c.ops_view() == change_ops(
                old(self).prev_view(),
            ) && c.columns_view() == change_columns(old(self).prev_view(), old(self).outputs())
                && c.visibility_view() is None),
            old(self).dirty() ==> final(self).prev_view() == Some(old(self).outputs()),
    {
        if !self.is_dirty() {
            return None;
        }
        let cur = self.current_output();
        let n = cur.len();
        let mut ops: Vec<Op> = Vec::new();
        let mut columns: Vec<Column> = Vec::with_capacity(n);
        match &self.prev_output {
            None => {
                ops.push(Op::Insert);
            },
            Some(_) => {
                ops.push(Op::UpdateDelete);
                ops.push(Op::UpdateInsert);
            },
        }
        let mut j: usize = 0;
        while j < n
            invariant
                0 <= j <= n,
                n == cur@.len(),
                cur@ == self.outputs(),
                self.wf(),
                self.prev_output == old(self).prev_output,
                self.managed_states == old(self).managed_states,
                columns@.len() == j,
                forall|k: int|
                    0 <= k < j ==> (#[trigger] columns@[k])@ == change_columns(
                        self.prev_view(),
                        cur@,
                    )[k],
            decreases n - j,
        {
            let mut col: Column = Vec::with_capacity(2);
            match &self.prev_output {
                None => {},
                Some(p) => {
                    col.push(p[j]);
                },
            }
            col.push(cur[j]);
            assert(col@ =~= change_columns(self.prev_view(), cur@)[j as int]);
            columns.push(col);
            j += 1;
        }
        assert(columns_view(columns@) =~= change_columns(self.prev_view(), cur@));
        let chunk = StreamChunk::new(ops, columns, None);
        match chunk {
            Ok(c) => {
                self.prev_output = Some(cur);
                Some(c)
            },
            Err(_) => None,
        }
    }
}

} // verus!

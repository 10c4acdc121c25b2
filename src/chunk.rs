use vstd::prelude::*;

use crate::error::{StreamError, StreamResult};

verus! {

/// The kind of change that a row of a chunk carries.
#[derive(Clone, Copy, Debug, PartialEq, Eq, Structural)]
pub enum Op {
    Insert,
    Delete,
    UpdateDelete,
    UpdateInsert,
}

impl Op {
    /// Whether the row adds to the state (`Insert`, `UpdateInsert`) rather
    /// than retracting from it.
    pub open spec fn positive(self) -> bool {
        self is Insert || self is UpdateInsert
    }

    pub fn is_positive(&self) -> (r: bool)
        ensures
            r == self.positive(),
    {
        match self {
            Op::Insert | Op::UpdateInsert => true,
            _ => false,
        }
    }
}

/// A nullable 64-bit integer: the value of one cell of a column.
pub type Datum = Option<i64>;

/// One column of a chunk.
pub type Column = Vec<Datum>;

/// Whether row `i` is visible under an optional visibility mask.
pub open spec fn row_visible(vis: Option<Seq<bool>>, i: int) -> bool {
    match vis {
        Some(v) => v[i],
        None => true,
    }
}

/// The elements of `s` whose flag in `keep` is set, in order.
pub open spec fn filter_by<A>(s: Seq<A>, keep: Seq<bool>) -> Seq<A>
    decreases s.len(),
{
    if s.len() == 0 {
        s
    } else {
        let rest = filter_by(s.drop_last(), keep.take(s.len() - 1));
        if keep[s.len() - 1] {
            rest.push(s.last())
        } else {
            rest
        }
    }
}

/// The length rules of a chunk: every column is as long as the op sequence,
/// and so is the visibility mask when there is one.
pub open spec fn lengths_agree(
    ops: Seq<Op>,
    columns: Seq<Seq<Datum>>,
    vis: Option<Seq<bool>>,
) -> bool {
    &&& forall|j: int| 0 <= j < columns.len() ==> (#[trigger] columns[j]).len() == ops.len()
    &&& (vis matches Some(v) ==> v.len() == ops.len())
}

/// The view of a vector of columns.
pub open spec fn columns_view(columns: Seq<Column>) -> Seq<Seq<Datum>> {
    Seq::new(columns.len(), |j: int| columns[j]@)
}

/// A batch of rows in columnar layout, each row tagged with an [`Op`], with
/// an optional visibility mask. Row `i` is absent when its mask bit is false.
#[derive(Debug, PartialEq, Eq)]
pub struct StreamChunk {
    ops: Vec<Op>,
    columns: Vec<Column>,
    visibility: Option<Vec<bool>>,
}

impl StreamChunk {
    #[verifier::type_invariant]
    spec fn inv(&self) -> bool {
        lengths_agree(self.ops@, columns_view(self.columns@), self.vis_opt())
    }

    spec fn vis_opt(&self) -> Option<Seq<bool>> {
        match &self.visibility {
            Some(v) => Some(v@),
            None => None,
        }
    }

    pub closed spec fn ops_view(&self) -> Seq<Op> {
        self.ops@
    }

    pub closed spec fn columns_view(&self) -> Seq<Seq<Datum>> {
        columns_view(self.columns@)
    }

    pub closed spec fn visibility_view(&self) -> Option<Seq<bool>> {
        self.vis_opt()
    }

    /// The number of rows, visible or not.
    pub open spec fn cardinality_spec(&self) -> nat {
        self.ops_view().len()
    }

    /// Builds a chunk, checking that the lengths agree.
    pub fn new(ops: Vec<Op>, columns: Vec<Column>, visibility: Option<Vec<bool>>) -> (r:
        StreamResult<StreamChunk>)
        ensures
            r is Ok <==> lengths_agree(
                ops@,
                columns_view(columns@),
                match visibility {
                    Some(v) => Some(v@),
                    None => None,
                },
            ),
            r matches Ok(c) ==> c.ops_view() == ops@ && c.columns_view() == columns_view(
                columns@,
            ) && c.visibility_view() == match visibility {
                Some(v) => Some(v@),
                None => None,
            },
            r matches Err(e) ==> e is SchemaViolation,
    {
        let n = ops.len();
        let mut j: usize = 0;
        while j < columns.len()
            invariant
                0 <= j <= columns.len(),
                n == ops@.len(),
                forall|k: int| 0 <= k < j ==> (#[trigger] columns@[k])@.len() == n,
            decreases columns.len() - j,
        {
            if columns[j].len() != n {
                assert(columns_view(columns@)[j as int].len() != ops@.len());
                return Err(StreamError::SchemaViolation);
            }
            j += 1;
        }
        assert(forall|k: int|
            0 <= k < columns@.len() ==> (#[trigger] columns_view(columns@)[k]) == columns@[k]@);
        if let Some(v) = &visibility {
            if v.len() != n {
                return Err(StreamError::SchemaViolation);
            }
        }
        Ok(StreamChunk { ops, columns, visibility })
    }

    /// The number of rows, visible or not.
    pub fn cardinality(&self) -> (r: usize)
        ensures
            r == self.cardinality_spec(),
    {
        self.ops.len()
    }

    pub fn ops(&self) -> (r: &Vec<Op>)
        ensures
            r@ == self.ops_view(),
    {
        &self.ops
    }

    pub fn columns(&self) -> (r: &Vec<Column>)
        ensures
            columns_view(r@) == self.columns_view(),
    {
        &self.columns
    }

    pub fn visibility(&self) -> (r: &Option<Vec<bool>>)
        ensures
            self.visibility_view() == match r {
                Some(v) => Some(v@),
                None => None,
            },
    {
        &self.visibility
    }

    /// Gives up the chunk's parts: ops, columns, visibility.
    pub fn into_inner(self) -> (r: (Vec<Op>, Vec<Column>, Option<Vec<bool>>))
        ensures
            r.0@ == self.ops_view(),
            columns_view(r.1@) == self.columns_view(),
            self.visibility_view() == match r.2 {
                Some(v) => Some(v@),
                None => None,
            },
            lengths_agree(self.ops_view(), self.columns_view(), self.visibility_view()),
    {
        proof {
            use_type_invariant(&self);
        }
        (self.ops, self.columns, self.visibility)
    }
}

/// `s` with only the rows that an optional mask keeps.
pub open spec fn compact_seq<A>(s: Seq<A>, vis: Option<Seq<bool>>) -> Seq<A> {
    match vis {
        Some(v) => filter_by(s, v),
        None => s,
    }
}

/// Filtering two sequences of equal length by one mask keeps equal lengths.
proof fn lemma_filter_same_len<A, B>(s: Seq<A>, t: Seq<B>, keep: Seq<bool>)
    requires
        s.len() == t.len(),
        keep.len() == s.len(),
    ensures
        filter_by(s, keep).len() == filter_by(t, keep).len(),
        filter_by(s, keep).len() <= s.len(),
    decreases s.len(),
{
    if s.len() > 0 {
        lemma_filter_same_len(s.drop_last(), t.drop_last(), keep.take(s.len() - 1));
    }
}

/// Copies the elements of `s` whose flag in `keep` is set.
fn filter_vec<A: Copy>(s: &Vec<A>, keep: &Vec<bool>) -> (r: Vec<A>)
    requires
        s@.len() == keep@.len(),
    ensures
        r@ == filter_by(s@, keep@),
{
    let mut r: Vec<A> = Vec::new();
    let mut i: usize = 0;
    while i < s.len()
        invariant
            0 <= i <= s@.len(),
            s@.len() == keep@.len(),
            r@ == filter_by(s@.take(i as int), keep@.take(i as int)),
        decreases s@.len() - i,
    {
        proof {
            let s1 = s@.take(i as int + 1);
            let k1 = keep@.take(i as int + 1);
            assert(s1.drop_last() =~= s@.take(i as int));
            assert(k1.take(i as int) =~= keep@.take(i as int));
        }
        if keep[i] {
            r.push(s[i]);
        }
        i += 1;
    }
    assert(s@.take(s@.len() as int) =~= s@);
    assert(keep@.take(keep@.len() as int) =~= keep@);
    r
}

/// Whether `r` is what compaction makes of `c`: the visible rows only, in
/// order, and no mask.
pub open spec fn is_compaction_of(r: &StreamChunk, c: &StreamChunk) -> bool {
    &&& r.ops_view() == compact_seq(c.ops_view(), c.visibility_view())
    &&& r.columns_view().len() == c.columns_view().len()
    &&& forall|j: int|
        0 <= j < c.columns_view().len() ==> #[trigger] r.columns_view()[j] == compact_seq(
            c.columns_view()[j],
            c.visibility_view(),
        )
    &&& r.visibility_view() is None
}

impl StreamChunk {
    /// An equivalent chunk without a visibility mask: only the visible rows,
    /// in their order.
    pub fn compact(self) -> (r: StreamChunk)
        ensures
            is_compaction_of(&r, &self),
            lengths_agree(r.ops_view(), r.columns_view(), r.visibility_view()),
    {
        proof {
            use_type_invariant(&self);
        }
        let StreamChunk { ops, columns, visibility } = self;
        match visibility {
            None => {
                let r = StreamChunk { ops, columns, visibility: None };
                assert(r.columns_view() =~= columns_view(columns@));
                r
            },
            Some(vis) => {
                let new_ops = filter_vec(&ops, &vis);
                let mut new_columns: Vec<Column> = Vec::new();
                let mut j: usize = 0;
                while j < columns.len()
                    invariant
                        0 <= j <= columns@.len(),
                        new_columns@.len() == j,
                        vis@.len() == ops@.len(),
                        new_ops@ == filter_by(ops@, vis@),
                        lengths_agree(ops@, columns_view(columns@), Some(vis@)),
                        forall|k: int|
                            0 <= k < j ==> (#[trigger] new_columns@[k])@ == filter_by(
                                columns@[k]@,
                                vis@,
                            ),
                    decreases columns@.len() - j,
                {
                    assert(columns_view(columns@)[j as int] == columns@[j as int]@);
                    let c = filter_vec(&columns[j], &vis);
                    new_columns.push(c);
                    j += 1;
                }
                proof {
                    assert forall|k: int| 0 <= k < new_columns@.len() implies (#[trigger] columns_view(
                        new_columns@,
                    )[k]).len() == new_ops@.len() by {
                        assert(columns_view(columns@)[k] == columns@[k]@);
                        lemma_filter_same_len(columns@[k]@, ops@, vis@);
                    }
                }
                let r = StreamChunk { ops: new_ops, columns: new_columns, visibility: None };
                assert(r.columns_view() =~= columns_view(new_columns@));
                r
            },
        }
    }
}

/// Compacting a compacted chunk changes nothing.
pub proof fn lemma_compact_idempotent(c: &StreamChunk, once: &StreamChunk, twice: &StreamChunk)
    requires
        is_compaction_of(once, c),
        is_compaction_of(twice, once),
    ensures
        twice.ops_view() == once.ops_view(),
        twice.columns_view() == once.columns_view(),
        twice.visibility_view() == once.visibility_view(),
{
    assert(twice.columns_view() =~= once.columns_view());
}

} // verus!

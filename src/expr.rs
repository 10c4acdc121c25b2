use vstd::prelude::*;

use crate::agg::in_i64;
use crate::chunk::{columns_view, Column, Datum};
use crate::error::{StreamError, StreamResult};
use crate::schema::DataType;

verus! {

/// A scalar expression over the columns of a chunk, computed column-wise.
#[derive(Debug)]
pub enum Expression {
    /// The column at this position.
    InputRef(usize),
    /// The same value on every row.
    Literal(Datum),
    /// The sum of two expressions; null when either side is null.
    Add(Box<Expression>, Box<Expression>),
}

/// The column that `e` computes over `n` rows of `columns`, or `Err` when a
/// referenced column is missing or a sum leaves the range of `i64`.
pub open spec fn eval_spec(e: Expression, columns: Seq<Seq<Datum>>, n: nat) -> Result<
    Seq<Datum>,
    (),
>
    decreases e,
{
    match e {
        Expression::InputRef(i) => if i < columns.len() {
            Ok(columns[i as int])
        } else {
            Err(())
        },
        Expression::Literal(d) => Ok(Seq::new(n, |k: int| d)),
        Expression::Add(a, b) => match (eval_spec(*a, columns, n), eval_spec(*b, columns, n)) {
            (Ok(x), Ok(y)) => if forall|k: int| 0 <= k < n ==> add_fits(#[trigger] x[k], y[k]) {
                Ok(Seq::new(n, |k: int| add_datum(x[k], y[k])))
            } else {
                Err(())
            },
            _ => Err(()),
        },
    }
}

/// Whether adding two values stays in range (a null side always does).
pub open spec fn add_fits(x: Datum, y: Datum) -> bool {
    match (x, y) {
        (Some(a), Some(b)) => in_i64(a + b),
        _ => true,
    }
}

/// The sum of two values, null when either is null.
pub open spec fn add_datum(x: Datum, y: Datum) -> Datum {
    match (x, y) {
        (Some(a), Some(b)) => Some((a + b) as i64),
        _ => None,
    }
}

impl Expression {
    /// The type of the values that the expression computes.
    pub fn return_type(&self) -> (r: DataType)
        ensures
            r == DataType::Int64,
    {
        DataType::Int64
    }

    /// Computes the expression over `n` rows.
    pub fn eval(&self, columns: &Vec<Column>, n: usize) -> (r: StreamResult<Column>)
        requires
            forall|j: int| 0 <= j < columns@.len() ==> (#[trigger] columns@[j])@.len() == n,
        ensures
            match r {
                Ok(c) => eval_spec(*self, columns_view(columns@), n as nat) == Ok::<_, ()>(c@),
                Err(e) => eval_spec(*self, columns_view(columns@), n as nat) is Err && e
                    is EvalError,
            },
            r matches Ok(c) ==> c@.len() == n,
        decreases self,
    {
        let ghost cols = columns_view(columns@);
        match self {
            Expression::InputRef(i) => {
                if *i < columns.len() {
                    let src = &columns[*i];
                    let mut out: Column = Vec::with_capacity(n);
                    let mut k: usize = 0;
                    while k < src.len()
                        invariant
                            0 <= k <= src@.len(),
                            out@ == src@.take(k as int),
                        decreases src@.len() - k,
                    {
                        out.push(src[k]);
                        k += 1;
                        assert(out@ =~= src@.take(k as int));
                    }
                    assert(src@.take(src@.len() as int) =~= src@);
                    assert(cols[*i as int] == src@);
                    Ok(out)
                } else {
                    Err(StreamError::EvalError)
                }
            },
            Expression::Literal(d) => {
                let mut out: Column = Vec::with_capacity(n);
                let mut k: usize = 0;
                while k < n
                    invariant
                        0 <= k <= n,
                        out@.len() == k,
                        forall|m: int| 0 <= m < k ==> out@[m] == *d,
                    decreases n - k,
                {
                    out.push(*d);
                    k += 1;
                }
                assert(out@ =~= Seq::new(n as nat, |m: int| *d));
                Ok(out)
            },
            Expression::Add(a, b) => {
                let x = a.eval(columns, n);
                let y = b.eval(columns, n);
                match (x, y) {
                    (Ok(x), Ok(y)) => {
                        let mut out: Column = Vec::with_capacity(n);
                        let mut k: usize = 0;
                        while k < n
                            invariant
                                0 <= k <= n,
                                x@.len() == n,
                                y@.len() == n,
                                *self == Expression::Add(*a, *b),
                                cols == columns_view(columns@),
                                eval_spec(**a, cols, n as nat) == Ok::<_, ()>(x@),
                                eval_spec(**b, cols, n as nat) == Ok::<_, ()>(y@),
                                out@.len() == k,
                                forall|m: int| 0 <= m < k ==> add_fits(#[trigger] x@[m], y@[m]),
                                forall|m: int|
                                    0 <= m < k ==> #[trigger] out@[m] == add_datum(x@[m], y@[m]),
                            decreases n - k,
                        {
                            let v: Datum = match (x[k], y[k]) {
                                (Some(p), Some(q)) => {
                                    match p.checked_add(q) {
                                        Some(s) => Some(s),
                                        None => {
                                            assert(!add_fits(x@[k as int], y@[k as int]));
                                            assert(eval_spec(**a, cols, n as nat) == Ok::<_, ()>(x@));
                                            assert(eval_spec(**b, cols, n as nat) == Ok::<_, ()>(y@));
                                            assert(!(forall|m: int| 0 <= m < n ==> add_fits(#[trigger] x@[m], y@[m])));
                                            assert(eval_spec(*self, cols, n as nat) is Err);
                                            return Err(StreamError::EvalError);
                                        },
                                    }
                                },
                                _ => None,
                            };
                            out.push(v);
                            k += 1;
                        }
                        assert(out@ =~= Seq::new(n as nat, |m: int| add_datum(x@[m], y@[m])));
                        Ok(out)
                    },
                    _ => Err(StreamError::EvalError),
                }
            },
        }
    }
}

} // verus!

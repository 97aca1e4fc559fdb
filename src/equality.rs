use vstd::prelude::*;
use crate::value::{Errors, Fault, Sexp, Value, lemma_items_view};

verus! {

broadcast use vstd::std_specs::vec::group_vec_axioms, vstd::seq::group_seq_axioms;

/// Structural equality: integers, strings and the two booleans compare by
/// content, lists element by element; any other pairing is a type error.
pub open spec fn equals(a: Sexp, b: Sexp) -> Result<bool, Fault>
    decreases a,
{
    match (a, b) {
        (Sexp::Int(x), Sexp::Int(y)) => Ok(x == y),
        (Sexp::Str(x), Sexp::Str(y)) => Ok(x == y),
        (Sexp::True, Sexp::True) => Ok(true),
        (Sexp::False, Sexp::False) => Ok(true),
        (Sexp::True, Sexp::False) => Ok(false),
        (Sexp::False, Sexp::True) => Ok(false),
        (Sexp::List(xs), Sexp::List(ys)) => {
            if xs.len() == ys.len() {
                equals_items(xs, ys)
            } else {
                Ok(false)
            }
        },
        _ => Err(Fault::TypeError),
    }
}

/// Pairs compared from the left: the first pair that is unequal, or that
/// fails, decides; the pairs after it are not compared.
pub open spec fn equals_items(xs: Seq<Sexp>, ys: Seq<Sexp>) -> Result<bool, Fault>
    decreases xs,
{
    if xs.len() == 0 || ys.len() == 0 {
        Ok(true)
    } else {
        match equals(xs[0], ys[0]) {
            Ok(true) => equals_items(xs.drop_first(), ys.drop_first()),
            other => other,
        }
    }
}

pub open spec fn bool_result_view(r: Result<bool, Errors>) -> Result<bool, Fault> {
    match r {
        Ok(b) => Ok(b),
        Err(e) => Err(e@),
    }
}

impl Value {
    /// Structural equality of two values; see `equals`.
    pub fn equals(a: &Value, b: &Value) -> (r: Result<bool, Errors>)
        ensures
            bool_result_view(r) == equals(a@, b@),
        decreases a,
    {
        match (a, b) {
            (Value::Int(x), Value::Int(y)) => Ok(*x == *y),
            (Value::Str(x), Value::Str(y)) => Ok(*x == *y),
            (Value::True, Value::True) => Ok(true),
            (Value::False, Value::False) => Ok(true),
            (Value::True, Value::False) => Ok(false),
            (Value::False, Value::True) => Ok(false),
            (Value::List(xs), Value::List(ys)) => {
                proof {
                    lemma_items_view(xs@);
                    lemma_items_view(ys@);
                }
                if xs.len() == ys.len() {
                    equals_lists(xs, ys)
                } else {
                    Ok(false)
                }
            },
            _ => Err(Errors::TypeError),
        }
    }

    /// True when the value is a non-empty list.
    pub fn is_pair(&self) -> (r: bool)
        ensures
            r == (self@ matches Sexp::List(items) && items.len() > 0),
    {
        match self {
            Value::List(items) => {
                proof {
                    lemma_items_view(items@);
                }
                items.len() > 0
            },
            _ => false,
        }
    }
}

fn equals_lists(xs: &Vec<Value>, ys: &Vec<Value>) -> (r: Result<bool, Errors>)
    requires
        xs@.len() == ys@.len(),
    ensures
        bool_result_view(r) == equals_items(Value::items_view(xs@), Value::items_view(ys@)),
    decreases xs,
{
    let ghost xv = Value::items_view(xs@);
    let ghost yv = Value::items_view(ys@);
    proof {
        lemma_items_view(xs@);
        lemma_items_view(ys@);
        assert(xv.subrange(0, xv.len() as int) =~= xv);
        assert(yv.subrange(0, yv.len() as int) =~= yv);
    }
    let mut i: usize = 0;
    while i < xs.len()
        invariant
            i <= xs@.len(),
            xs@.len() == ys@.len(),
            xv == Value::items_view(xs@),
            yv == Value::items_view(ys@),
            xv.len() == xs@.len(),
            yv.len() == ys@.len(),
            forall|j: int| 0 <= j < xs@.len() ==> #[trigger] xv[j] == xs@[j]@,
            forall|j: int| 0 <= j < ys@.len() ==> #[trigger] yv[j] == ys@[j]@,
            equals_items(xv, yv) == equals_items(
                xv.subrange(i as int, xv.len() as int),
                yv.subrange(i as int, yv.len() as int),
            ),
        decreases xs@.len() - i,
    {
        proof {
            assert(decreases_to!(xs => xs@[i as int]));
        }
        let e = Value::equals(&xs[i], &ys[i]);
        proof {
            let sx = xv.subrange(i as int, xv.len() as int);
            let sy = yv.subrange(i as int, yv.len() as int);
            assert(sx[0] == xs@[i as int]@);
            assert(sy[0] == ys@[i as int]@);
            assert(sx.drop_first() =~= xv.subrange(i + 1, xv.len() as int));
            assert(sy.drop_first() =~= yv.subrange(i + 1, yv.len() as int));
            assert(sx.len() > 0 && sy.len() > 0);
            assert(equals_items(sx, sy) == match equals(sx[0], sy[0]) {
                Ok(true) => equals_items(sx.drop_first(), sy.drop_first()),
                other => other,
            });
        }
        match e {
            Ok(b) => {
                if !b {
                    return Ok(false);
                }
            },
            Err(err) => {
                return Err(err);
            },
        }
        i = i + 1;
    }
    proof {
        let sx = xv.subrange(i as int, xv.len() as int);
        assert(sx.len() == 0);
    }
    Ok(true)
}

} // verus!

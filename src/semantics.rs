use vstd::prelude::*;
use crate::builtins::{Io, apply_builtin};
use crate::env::{bind_all, env_set, lookup_result};
use crate::value::{Fault, Sexp, count_i32};

verus! {

/// The state that evaluation reads and changes: the scope chain (outermost
/// first) and the console.
pub struct World {
    pub env: Seq<Map<Seq<char>, Sexp>>,
    pub io: Io,
}

pub type Outcome = (Result<Sexp, Fault>, World);

/// The world with its innermost scope discarded, where there is an
/// enclosing one.
pub open spec fn pop_world(w: World) -> World {
    World { env: if w.env.len() > 1 { w.env.drop_last() } else { w.env }, ..w }
}

/// The world with a new, empty innermost scope.
pub open spec fn push_world(w: World) -> World {
    World { env: w.env.push(Map::empty()), ..w }
}

/// The names among the elements of a parameter list; other elements are
/// dropped.
pub open spec fn symbols_of(ps: Seq<Sexp>) -> Seq<Seq<char>>
    decreases ps.len(),
{
    if ps.len() == 0 {
        Seq::empty()
    } else {
        match ps.last() {
            Sexp::Symbol(s) => symbols_of(ps.drop_last()).push(s),
            _ => symbols_of(ps.drop_last()),
        }
    }
}

/// `(fn (params...) body)`: a closure that is not a macro.
pub open spec fn fn_form(items: Seq<Sexp>) -> Result<Sexp, Fault> {
    if items.len() < 3 {
        Err(Fault::FormError)
    } else {
        match items[1] {
            Sexp::List(ps) => Ok(Sexp::Closure(symbols_of(ps), Box::new(items[2]), false)),
            _ => Err(Fault::FormError),
        }
    }
}

/// Evaluates `e` with a budget of `fuel` nested list evaluations. An empty
/// list and every atom but a symbol evaluate to themselves; a symbol to its
/// binding; a non-empty list is a special form or a call.
pub open spec fn eval(fuel: nat, e: Sexp, w: World) -> Outcome
    decreases fuel, 0int, 0int,
{
    match e {
        Sexp::Symbol(s) => (lookup_result(w.env, s), w),
        Sexp::List(items) => {
            if items.len() == 0 {
                (Ok(e), w)
            } else if fuel == 0 {
                (Err(Fault::DepthExceeded), w)
            } else {
                eval_form((fuel - 1) as nat, items, w)
            }
        },
        _ => (Ok(e), w),
    }
}

/// A non-empty list, dispatched on its unevaluated head.
pub open spec fn eval_form(f: nat, items: Seq<Sexp>, w: World) -> Outcome
    decreases f, 3int, 0int,
{
    if items.len() == 0 {
        (Ok(Sexp::List(items)), w)
    } else {
        match items[0] {
            Sexp::Define => define_form(f, items, 1, false, w),
            Sexp::Defmacro => define_form(f, items, 1, true, w),
            Sexp::Let => let_form(f, items, w),
            Sexp::Do => do_seq(f, items, 1, Sexp::Nil, w),
            Sexp::If => if_form(f, items, w),
            Sexp::Fn => (fn_form(items), w),
            Sexp::Eval => eval_twice(f, items, w),
            Sexp::Quote => if items.len() < 2 {
                (Err(Fault::FormError), w)
            } else {
                (Ok(items[1]), w)
            },
            Sexp::Quasiquote => if items.len() < 2 {
                (Err(Fault::FormError), w)
            } else {
                quasi(f, items[1], w)
            },
            _ => match eval_items(f, items, 0, Seq::empty(), w) {
                (Ok(vals), w1) => call(f, vals, w1),
                (Err(e), w1) => (Err(e), w1),
            },
        }
    }
}

/// `items[k]` names the binding and `items[k + 1]` gives its value, which is
/// evaluated and bound in the innermost scope (as a macro when `as_macro`,
/// which asks for a closure). Gives `Nil`.
pub open spec fn define_form(f: nat, items: Seq<Sexp>, k: int, as_macro: bool, w: World) -> Outcome
    decreases f, 1int, 0int,
{
    if k < 0 || items.len() <= k {
        (Err(Fault::FormError), w)
    } else {
        match items[k] {
            Sexp::Symbol(name) => if items.len() <= k + 1 {
                (Err(Fault::FormError), w)
            } else {
                match eval(f, items[k + 1], w) {
                    (Err(e), w1) => (Err(e), w1),
                    (Ok(v), w1) => if as_macro {
                        match v {
                            Sexp::Closure(ps, body, _) => (
                                Ok(Sexp::Nil),
                                World {
                                    env: env_set(w1.env, name, Sexp::Closure(ps, body, true)),
                                    ..w1
                                },
                            ),
                            _ => (Err(Fault::TypeError), w1),
                        }
                    } else {
                        (Ok(Sexp::Nil), World { env: env_set(w1.env, name, v), ..w1 })
                    },
                }
            },
            _ => (Err(Fault::TypeError), w),
        }
    }
}

/// `(let (name valueExpr) body)`: the binding and then the body in a new
/// innermost scope, which is discarded afterwards.
pub open spec fn let_form(f: nat, items: Seq<Sexp>, w: World) -> Outcome
    decreases f, 2int, 0int,
{
    if items.len() < 2 {
        (Err(Fault::FormError), w)
    } else {
        match items[1] {
            Sexp::List(binding) => match define_form(f, binding, 0, false, push_world(w)) {
                (Err(e), w1) => (Err(e), pop_world(w1)),
                (Ok(_), w1) => if items.len() < 3 {
                    (Err(Fault::FormError), pop_world(w1))
                } else {
                    let (r, w2) = eval(f, items[2], w1);
                    (r, pop_world(w2))
                },
            },
            _ => (Err(Fault::FormError), w),
        }
    }
}

/// The expressions from `items[i]` on, in order; the value of the last one
/// (`last` when there are none), or the first error.
pub open spec fn do_seq(f: nat, items: Seq<Sexp>, i: int, last: Sexp, w: World) -> Outcome
    decreases f, 2int, items.len() - i,
{
    if i < 0 || i >= items.len() {
        (Ok(last), w)
    } else {
        match eval(f, items[i], w) {
            (Ok(v), w1) => do_seq(f, items, i + 1, v, w1),
            (Err(e), w1) => (Err(e), w1),
        }
    }
}

/// `(if cond then else?)`: only `True` selects the then-branch; a missing
/// else-branch gives `Nil`.
pub open spec fn if_form(f: nat, items: Seq<Sexp>, w: World) -> Outcome
    decreases f, 1int, 0int,
{
    if items.len() < 3 {
        (Err(Fault::FormError), w)
    } else {
        match eval(f, items[1], w) {
            (Err(e), w1) => (Err(e), w1),
            (Ok(c), w1) => if c is True {
                eval(f, items[2], w1)
            } else if items.len() > 3 {
                eval(f, items[3], w1)
            } else {
                (Ok(Sexp::Nil), w1)
            },
        }
    }
}

/// `(eval target)`: evaluates the target, then evaluates the result.
pub open spec fn eval_twice(f: nat, items: Seq<Sexp>, w: World) -> Outcome
    decreases f, 1int, 0int,
{
    if items.len() < 2 {
        (Err(Fault::ArityError(0, 1)), w)
    } else {
        match eval(f, items[1], w) {
            (Ok(v), w1) => eval(f, v, w1),
            (Err(e), w1) => (Err(e), w1),
        }
    }
}

/// A quasiquoted template: only a sub-list headed by `unquote` is evaluated
/// (its one argument); other lists are rebuilt element by element; anything
/// else is returned as it is. Each level of list nesting spends one unit of
/// the budget.
pub open spec fn quasi(fuel: nat, t: Sexp, w: World) -> Outcome
    decreases fuel, 0int, 0int,
{
    match t {
        Sexp::List(items) => {
            if items.len() == 0 {
                (Ok(t), w)
            } else if fuel == 0 {
                (Err(Fault::DepthExceeded), w)
            } else if items[0] is Unquote {
                if items.len() < 2 {
                    (Err(Fault::FormError), w)
                } else {
                    eval((fuel - 1) as nat, items[1], w)
                }
            } else {
                quasi_items((fuel - 1) as nat, items, 0, Seq::empty(), w)
            }
        },
        _ => (Ok(t), w),
    }
}

/// The elements from `items[i]` on, quasiquoted in order after `acc`.
pub open spec fn quasi_items(f: nat, items: Seq<Sexp>, i: int, acc: Seq<Sexp>, w: World) -> Outcome
    decreases f, 2int, items.len() - i,
{
    if i < 0 || i >= items.len() {
        (Ok(Sexp::List(acc)), w)
    } else {
        match quasi(f, items[i], w) {
            (Ok(v), w1) => quasi_items(f, items, i + 1, acc.push(v), w1),
            (Err(e), w1) => (Err(e), w1),
        }
    }
}

/// The elements from `items[i]` on, evaluated in order after `acc`.
pub open spec fn eval_items(f: nat, items: Seq<Sexp>, i: int, acc: Seq<Sexp>, w: World) -> (
    Result<Seq<Sexp>, Fault>,
    World,
)
    decreases f, 2int, items.len() - i,
{
    if i < 0 || i >= items.len() {
        (Ok(acc), w)
    } else {
        match eval(f, items[i], w) {
            (Ok(v), w1) => eval_items(f, items, i + 1, acc.push(v), w1),
            (Err(e), w1) => (Err(e), w1),
        }
    }
}

/// Applies the evaluated head `vals[0]` to the other values: a builtin
/// directly; a closure (macro or not) by binding its parameters in a new
/// scope over the caller's environment and evaluating its body there.
pub open spec fn call(f: nat, vals: Seq<Sexp>, w: World) -> Outcome
    decreases f, 1int, 0int,
{
    if vals.len() == 0 {
        (Err(Fault::NotAFunction), w)
    } else {
        let args = vals.drop_first();
        match vals[0] {
            Sexp::Function(b) => {
                let (r, io) = apply_builtin(b, args, w.io);
                (r, World { io, ..w })
            },
            Sexp::Closure(params, body, _) => if params.len() != args.len() {
                (Err(Fault::ArityError(count_i32(args.len()), count_i32(params.len()))), w)
            } else {
                let inner = World { env: bind_all(w.env.push(Map::empty()), params, args), ..w };
                let (r, w1) = eval(f, *body, inner);
                (r, pop_world(w1))
            },
            _ => (Err(Fault::NotAFunction), w),
        }
    }
}

} // verus!

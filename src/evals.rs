use vstd::prelude::*;
use crate::builtins::{Console, apply};
use crate::env::Env;
use crate::semantics::{
    World, call, define_form, do_seq, eval, eval_form, eval_items, eval_twice, fn_form, if_form,
    let_form, pop_world, push_world, quasi, quasi_items, symbols_of,
};
use crate::value::{
    DynamicFunction, Errors, FResult, Fault, Sexp, Value, lemma_items_view, lemma_items_view_push,
    result_view, strings_view, usize_to_i32,
};

verus! {

broadcast use vstd::std_specs::vec::group_vec_axioms, vstd::seq::group_seq_axioms;

/// The nesting budget that `EVAL` gives an evaluation.
pub const DEPTH_LIMIT: u64 = 10000;

pub open spec fn world(env: Env, io: Console) -> World {
    World { env: env@, io: io@ }
}

/// Evaluates `e`; see `eval`.
pub fn evaluate(fuel: u64, e: &Value, env: &mut Env, io: &mut Console) -> (r: FResult)
    requires
        old(env).wf(),
    ensures
        final(env).wf(),
        final(env)@.len() == old(env)@.len(),
        (result_view(r), World { env: final(env)@, io: final(io)@ }) == eval(
            fuel as nat,
            e@,
            World { env: old(env)@, io: old(io)@ },
        ),
    decreases fuel, 0int, 0int,
{
    match e {
        Value::Symbol(s) => env.lookup(s.clone()),
        Value::List(items) => {
            proof {
                lemma_items_view(items@);
            }
            if items.len() == 0 {
                Ok(e.deep_copy())
            } else if fuel == 0 {
                Err(Errors::DepthExceeded)
            } else {
                eval_form_exec(fuel - 1, items, env, io)
            }
        },
        _ => Ok(e.deep_copy()),
    }
}

fn eval_form_exec(f: u64, items: &Vec<Value>, env: &mut Env, io: &mut Console) -> (r: FResult)
    requires
        old(env).wf(),
        items@.len() > 0,
    ensures
        final(env).wf(),
        final(env)@.len() == old(env)@.len(),
        (result_view(r), World { env: final(env)@, io: final(io)@ }) == eval_form(
            f as nat,
            Value::items_view(items@),
            World { env: old(env)@, io: old(io)@ },
        ),
    decreases f, 3int, 0int,
{
    proof {
        lemma_items_view(items@);
    }
    match &items[0] {
        Value::Define => define_exec(f, items, 1, false, env, io),
        Value::Defmacro => define_exec(f, items, 1, true, env, io),
        Value::Let => let_exec(f, items, env, io),
        Value::Do => do_exec(f, items, env, io),
        Value::If => if_exec(f, items, env, io),
        Value::Fn => fn_exec(items),
        Value::Eval => eval_twice_exec(f, items, env, io),
        Value::Quote => {
            if items.len() < 2 {
                Err(Errors::FormError)
            } else {
                Ok(items[1].deep_copy())
            }
        },
        Value::Quasiquote => {
            if items.len() < 2 {
                Err(Errors::FormError)
            } else {
                quasi_exec(f, &items[1], env, io)
            }
        },
        _ => match eval_items_exec(f, items, env, io) {
            Ok(vals) => call_exec(f, vals, env, io),
            Err(e) => Err(e),
        },
    }
}

fn define_exec(
    f: u64,
    items: &Vec<Value>,
    k: usize,
    as_macro: bool,
    env: &mut Env,
    io: &mut Console,
) -> (r: FResult)
    requires
        old(env).wf(),
    ensures
        final(env).wf(),
        final(env)@.len() == old(env)@.len(),
        (result_view(r), World { env: final(env)@, io: final(io)@ }) == define_form(
            f as nat,
            Value::items_view(items@),
            k as int,
            as_macro,
            World { env: old(env)@, io: old(io)@ },
        ),
    decreases f, 1int, 0int,
{
    proof {
        lemma_items_view(items@);
    }
    if items.len() <= k {
        return Err(Errors::FormError);
    }
    match &items[k] {
        Value::Symbol(name) => {
            if items.len() - 1 <= k {
                return Err(Errors::FormError);
            }
            match evaluate(f, &items[k + 1], env, io) {
                Err(e) => Err(e),
                Ok(v) => {
                    if as_macro {
                        match v {
                            Value::DynFunc(df) => {
                                let m = DynamicFunction {
                                    parameters: df.parameters,
                                    body: df.body,
                                    is_macro: true,
                                };
                                env.set(name.clone(), Value::DynFunc(m));
                                Ok(Value::Nil)
                            },
                            _ => Err(Errors::TypeError),
                        }
                    } else {
                        env.set(name.clone(), v);
                        Ok(Value::Nil)
                    }
                },
            }
        },
        _ => Err(Errors::TypeError),
    }
}

fn let_exec(f: u64, items: &Vec<Value>, env: &mut Env, io: &mut Console) -> (r: FResult)
    requires
        old(env).wf(),
    ensures
        final(env).wf(),
        final(env)@.len() == old(env)@.len(),
        (result_view(r), World { env: final(env)@, io: final(io)@ }) == let_form(
            f as nat,
            Value::items_view(items@),
            World { env: old(env)@, io: old(io)@ },
        ),
    decreases f, 2int, 0int,
{
    proof {
        lemma_items_view(items@);
    }
    if items.len() < 2 {
        return Err(Errors::FormError);
    }
    match &items[1] {
        Value::List(binding) => {
            env.push_scope();
            let r1 = define_exec(f, binding, 0, false, env, io);
            match r1 {
                Err(e) => {
                    env.pop_scope();
                    Err(e)
                },
                Ok(_) => {
                    if items.len() < 3 {
                        env.pop_scope();
                        Err(Errors::FormError)
                    } else {
                        let r2 = evaluate(f, &items[2], env, io);
                        env.pop_scope();
                        r2
                    }
                },
            }
        },
        _ => Err(Errors::FormError),
    }
}

fn do_exec(f: u64, items: &Vec<Value>, env: &mut Env, io: &mut Console) -> (r: FResult)
    requires
        old(env).wf(),
    ensures
        final(env).wf(),
        final(env)@.len() == old(env)@.len(),
        (result_view(r), World { env: final(env)@, io: final(io)@ }) == do_seq(
            f as nat,
            Value::items_view(items@),
            1,
            Sexp::Nil,
            World { env: old(env)@, io: old(io)@ },
        ),
    decreases f, 2int, 0int,
{
    let ghost iv = Value::items_view(items@);
    proof {
        lemma_items_view(items@);
    }
    let mut last = Value::Nil;
    let mut i: usize = 1;
    while i < items.len()
        invariant
            1 <= i,
            i <= items@.len() || i == 1,
            iv == Value::items_view(items@),
            iv.len() == items@.len(),
            forall|j: int| 0 <= j < items@.len() ==> #[trigger] iv[j] == items@[j]@,
            env.wf(),
            env@.len() == old(env)@.len(),
            do_seq(f as nat, iv, 1, Sexp::Nil, World { env: old(env)@, io: old(io)@ })
                == do_seq(f as nat, iv, i as int, last@, World { env: env@, io: io@ }),
        decreases items@.len() - i,
    {
        match evaluate(f, &items[i], env, io) {
            Ok(v) => {
                last = v;
            },
            Err(e) => {
                return Err(e);
            },
        }
        i = i + 1;
    }
    Ok(last)
}

fn if_exec(f: u64, items: &Vec<Value>, env: &mut Env, io: &mut Console) -> (r: FResult)
    requires
        old(env).wf(),
    ensures
        final(env).wf(),
        final(env)@.len() == old(env)@.len(),
        (result_view(r), World { env: final(env)@, io: final(io)@ }) == if_form(
            f as nat,
            Value::items_view(items@),
            World { env: old(env)@, io: old(io)@ },
        ),
    decreases f, 1int, 0int,
{
    proof {
        lemma_items_view(items@);
    }
    if items.len() < 3 {
        return Err(Errors::FormError);
    }
    match evaluate(f, &items[1], env, io) {
        Err(e) => Err(e),
        Ok(c) => {
            match c {
                Value::True => evaluate(f, &items[2], env, io),
                _ => {
                    if items.len() > 3 {
                        evaluate(f, &items[3], env, io)
                    } else {
                        Ok(Value::Nil)
                    }
                },
            }
        },
    }
}

/// The names among the elements of a parameter list, in order.
fn param_names(ps: &Vec<Value>) -> (r: Vec<String>)
    ensures
        strings_view(r@) == symbols_of(Value::items_view(ps@)),
{
    let ghost pv = Value::items_view(ps@);
    proof {
        lemma_items_view(ps@);
        assert(pv.subrange(0, 0) =~= Seq::<Sexp>::empty());
        assert(strings_view(Seq::<String>::empty()) =~= Seq::<Seq<char>>::empty());
    }
    let mut names: Vec<String> = Vec::new();
    let mut i: usize = 0;
    while i < ps.len()
        invariant
            i <= ps@.len(),
            pv == Value::items_view(ps@),
            pv.len() == ps@.len(),
            forall|j: int| 0 <= j < ps@.len() ==> #[trigger] pv[j] == ps@[j]@,
            strings_view(names@) == symbols_of(pv.subrange(0, i as int)),
        decreases ps@.len() - i,
    {
        proof {
            assert(pv.subrange(0, i + 1).drop_last() =~= pv.subrange(0, i as int));
        }
        match &ps[i] {
            Value::Symbol(s) => {
                let ghost before = names@;
                names.push(s.clone());
                proof {
                    assert(strings_view(names@) =~= strings_view(before).push(s@));
                }
            },
            _ => {},
        }
        i = i + 1;
    }
    assert(pv.subrange(0, i as int) =~= pv);
    names
}

fn fn_exec(items: &Vec<Value>) -> (r: FResult)
    ensures
        result_view(r) == fn_form(Value::items_view(items@)),
{
    proof {
        lemma_items_view(items@);
    }
    if items.len() < 3 {
        return Err(Errors::FormError);
    }
    match &items[1] {
        Value::List(ps) => {
            let parameters = param_names(ps);
            let body = Box::new(items[2].deep_copy());
            Ok(Value::DynFunc(DynamicFunction { parameters, body, is_macro: false }))
        },
        _ => Err(Errors::FormError),
    }
}

fn eval_twice_exec(f: u64, items: &Vec<Value>, env: &mut Env, io: &mut Console) -> (r: FResult)
    requires
        old(env).wf(),
    ensures
        final(env).wf(),
        final(env)@.len() == old(env)@.len(),
        (result_view(r), World { env: final(env)@, io: final(io)@ }) == eval_twice(
            f as nat,
            Value::items_view(items@),
            World { env: old(env)@, io: old(io)@ },
        ),
    decreases f, 1int, 0int,
{
    proof {
        lemma_items_view(items@);
    }
    if items.len() < 2 {
        return Err(Errors::ArityError(0, 1));
    }
    match evaluate(f, &items[1], env, io) {
        Ok(v) => evaluate(f, &v, env, io),
        Err(e) => Err(e),
    }
}

fn quasi_exec(fuel: u64, t: &Value, env: &mut Env, io: &mut Console) -> (r: FResult)
    requires
        old(env).wf(),
    ensures
        final(env).wf(),
        final(env)@.len() == old(env)@.len(),
        (result_view(r), World { env: final(env)@, io: final(io)@ }) == quasi(
            fuel as nat,
            t@,
            World { env: old(env)@, io: old(io)@ },
        ),
    decreases fuel, 0int, 0int,
{
    match t {
        Value::List(items) => {
            proof {
                lemma_items_view(items@);
            }
            if items.len() == 0 {
                Ok(t.deep_copy())
            } else if fuel == 0 {
                Err(Errors::DepthExceeded)
            } else {
                match &items[0] {
                    Value::Unquote => {
                        if items.len() < 2 {
                            Err(Errors::FormError)
                        } else {
                            evaluate(fuel - 1, &items[1], env, io)
                        }
                    },
                    _ => quasi_items_exec(fuel - 1, items, env, io),
                }
            }
        },
        _ => Ok(t.deep_copy()),
    }
}

fn quasi_items_exec(f: u64, items: &Vec<Value>, env: &mut Env, io: &mut Console) -> (r: FResult)
    requires
        old(env).wf(),
    ensures
        final(env).wf(),
        final(env)@.len() == old(env)@.len(),
        (result_view(r), World { env: final(env)@, io: final(io)@ }) == quasi_items(
            f as nat,
            Value::items_view(items@),
            0,
            Seq::empty(),
            World { env: old(env)@, io: old(io)@ },
        ),
    decreases f, 2int, 0int,
{
    let ghost iv = Value::items_view(items@);
    proof {
        lemma_items_view(items@);
    }
    let mut acc: Vec<Value> = Vec::new();
    proof {
        assert(Value::items_view(acc@) =~= Seq::<Sexp>::empty());
    }
    let mut i: usize = 0;
    while i < items.len()
        invariant
            i <= items@.len(),
            iv == Value::items_view(items@),
            iv.len() == items@.len(),
            forall|j: int| 0 <= j < items@.len() ==> #[trigger] iv[j] == items@[j]@,
            env.wf(),
            env@.len() == old(env)@.len(),
            quasi_items(f as nat, iv, 0, Seq::empty(), World { env: old(env)@, io: old(io)@ })
                == quasi_items(
                f as nat,
                iv,
                i as int,
                Value::items_view(acc@),
                World { env: env@, io: io@ },
            ),
        decreases items@.len() - i,
    {
        match quasi_exec(f, &items[i], env, io) {
            Ok(v) => {
                let ghost before = acc@;
                acc.push(v);
                proof {
                    lemma_items_view_push(before, v);
                }
            },
            Err(e) => {
                return Err(e);
            },
        }
        i = i + 1;
    }
    Ok(Value::List(acc))
}

fn eval_items_exec(f: u64, items: &Vec<Value>, env: &mut Env, io: &mut Console) -> (r: Result<
    Vec<Value>,
    Errors,
>)
    requires
        old(env).wf(),
    ensures
        final(env).wf(),
        final(env)@.len() == old(env)@.len(),
        eval_items(
            f as nat,
            Value::items_view(items@),
            0,
            Seq::empty(),
            World { env: old(env)@, io: old(io)@ },
        ) == (match r {
            Ok(vals) => (
                Ok::<Seq<Sexp>, Fault>(Value::items_view(vals@)),
                World { env: final(env)@, io: final(io)@ },
            ),
            Err(e) => (Err::<Seq<Sexp>, Fault>(e@), World { env: final(env)@, io: final(io)@ }),
        }),
    decreases f, 2int, 0int,
{
    let ghost iv = Value::items_view(items@);
    proof {
        lemma_items_view(items@);
    }
    let mut acc: Vec<Value> = Vec::new();
    proof {
        assert(Value::items_view(acc@) =~= Seq::<Sexp>::empty());
    }
    let mut i: usize = 0;
    while i < items.len()
        invariant
            i <= items@.len(),
            iv == Value::items_view(items@),
            iv.len() == items@.len(),
            forall|j: int| 0 <= j < items@.len() ==> #[trigger] iv[j] == items@[j]@,
            env.wf(),
            env@.len() == old(env)@.len(),
            eval_items(f as nat, iv, 0, Seq::empty(), World { env: old(env)@, io: old(io)@ })
                == eval_items(
                f as nat,
                iv,
                i as int,
                Value::items_view(acc@),
                World { env: env@, io: io@ },
            ),
        decreases items@.len() - i,
    {
        match evaluate(f, &items[i], env, io) {
            Ok(v) => {
                let ghost before = acc@;
                acc.push(v);
                proof {
                    lemma_items_view_push(before, v);
                }
            },
            Err(e) => {
                return Err(e);
            },
        }
        i = i + 1;
    }
    Ok(acc)
}

fn call_exec(f: u64, vals: Vec<Value>, env: &mut Env, io: &mut Console) -> (r: FResult)
    requires
        old(env).wf(),
    ensures
        final(env).wf(),
        final(env)@.len() == old(env)@.len(),
        (result_view(r), World { env: final(env)@, io: final(io)@ }) == call(
            f as nat,
            Value::items_view(vals@),
            World { env: old(env)@, io: old(io)@ },
        ),
    decreases f, 1int, 0int,
{
    let ghost vv = Value::items_view(vals@);
    proof {
        lemma_items_view(vals@);
    }
    if vals.len() == 0 {
        return Err(Errors::NotAFunction);
    }
    let mut args = vals;
    let head = args.remove(0);
    proof {
        lemma_items_view(args@);
        assert(Value::items_view(args@) =~= vv.drop_first());
    }
    match head {
        Value::Function(b) => apply(b, args, io),
        Value::DynFunc(df) => {
            if df.parameters.len() != args.len() {
                return Err(
                    Errors::ArityError(usize_to_i32(args.len()), usize_to_i32(df.parameters.len())),
                );
            }
            env.push_scope();
            let bound = env.add_all(df.parameters, args);
            let r = evaluate(f, &df.body, env, io);
            env.pop_scope();
            r
        },
        _ => Err(Errors::NotAFunction),
    }
}

/// Evaluates `input` with the default nesting budget.
#[allow(non_snake_case)]
pub fn EVAL(input: Value, env: &mut Env, io: &mut Console) -> (r: FResult)
    requires
        old(env).wf(),
    ensures
        final(env).wf(),
        final(env)@.len() == old(env)@.len(),
        (result_view(r), World { env: final(env)@, io: final(io)@ }) == eval(
            DEPTH_LIMIT as nat,
            input@,
            World { env: old(env)@, io: old(io)@ },
        ),
{
    evaluate(DEPTH_LIMIT, &input, env, io)
}

/// Evaluates a non-empty list as a special form or a call, with the default
/// nesting budget.
pub fn eval_list(input: Vec<Value>, env: &mut Env, io: &mut Console) -> (r: FResult)
    requires
        old(env).wf(),
        input@.len() > 0,
    ensures
        final(env).wf(),
        final(env)@.len() == old(env)@.len(),
        (result_view(r), World { env: final(env)@, io: final(io)@ }) == eval_form(
            DEPTH_LIMIT as nat,
            Value::items_view(input@),
            World { env: old(env)@, io: old(io)@ },
        ),
{
    eval_form_exec(DEPTH_LIMIT, &input, env, io)
}

} // verus!

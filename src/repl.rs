use vstd::prelude::*;
use crate::builtins::Console;
use crate::env::Env;
use crate::evals::{DEPTH_LIMIT, EVAL};
use crate::parse::{READ, read_value};
use crate::render::{PRINT, render};
use crate::semantics::{World, eval};
use crate::value::{Builtin, Errors, Fault, Sexp, Value, strings_view};

verus! {

broadcast use vstd::std_specs::vec::group_vec_axioms, vstd::seq::group_seq_axioms;

/// The bindings that a session starts with: each builtin under its name.
pub open spec fn init_bindings() -> Map<Seq<char>, Sexp> {
    Map::empty().insert("+"@, Sexp::Function(Builtin::Plus)).insert(
        "*"@,
        Sexp::Function(Builtin::Mult),
    ).insert("prn"@, Sexp::Function(Builtin::Prn)).insert(
        "list"@,
        Sexp::Function(Builtin::List),
    ).insert("list?"@, Sexp::Function(Builtin::ListP)).insert(
        "empty?"@,
        Sexp::Function(Builtin::Empty),
    ).insert("count"@, Sexp::Function(Builtin::Count)).insert(
        "read"@,
        Sexp::Function(Builtin::Read),
    ).insert("="@, Sexp::Function(Builtin::Equals)).insert(
        "slurp"@,
        Sexp::Function(Builtin::Slurp),
    ).insert("str"@, Sexp::Function(Builtin::Str)).insert(
        "cons"@,
        Sexp::Function(Builtin::Cons),
    ).insert("first"@, Sexp::Function(Builtin::First)).insert(
        "rest"@,
        Sexp::Function(Builtin::Rest),
    ).insert("mod"@, Sexp::Function(Builtin::Mod))
}

/// A fresh environment of one scope that binds every builtin.
pub fn build_init_env() -> (r: Env)
    ensures
        r.wf(),
        r@ == seq![init_bindings()],
{
    let mut env = Env::new();
    env.set(text("+"), Value::Function(Builtin::Plus));
    env.set(text("*"), Value::Function(Builtin::Mult));
    env.set(text("prn"), Value::Function(Builtin::Prn));
    env.set(text("list"), Value::Function(Builtin::List));
    env.set(text("list?"), Value::Function(Builtin::ListP));
    env.set(text("empty?"), Value::Function(Builtin::Empty));
    env.set(text("count"), Value::Function(Builtin::Count));
    env.set(text("read"), Value::Function(Builtin::Read));
    env.set(text("="), Value::Function(Builtin::Equals));
    env.set(text("slurp"), Value::Function(Builtin::Slurp));
    env.set(text("str"), Value::Function(Builtin::Str));
    env.set(text("cons"), Value::Function(Builtin::Cons));
    env.set(text("first"), Value::Function(Builtin::First));
    env.set(text("rest"), Value::Function(Builtin::Rest));
    env.set(text("mod"), Value::Function(Builtin::Mod));
    assert(env@ =~= seq![init_bindings()]);
    env
}

/// The message of the `ParseError` that reading fails with.
pub open spec fn parse_message() -> Seq<char> {
    "no value could be read"@
}

/// Read, evaluate, render: the text of the result, or the first error.
pub open spec fn rep_spec(s: Seq<char>, w: World) -> (Result<Seq<char>, Fault>, World) {
    match read_value(s) {
        None => (Err(Fault::ParseError(parse_message())), w),
        Some(v) => match eval(DEPTH_LIMIT as nat, v, w) {
            (Ok(x), w1) => (Ok(render(x)), w1),
            (Err(e), w1) => (Err(e), w1),
        },
    }
}

/// The sources from `srcs[i]` on, each read and evaluated in turn, stopping
/// at the first error.
pub open spec fn run_all(srcs: Seq<Seq<char>>, i: int, w: World) -> (Result<(), Fault>, World)
    decreases srcs.len() - i,
{
    if i < 0 || i >= srcs.len() {
        (Ok(()), w)
    } else {
        match rep_spec(srcs[i], w) {
            (Ok(_), w1) => run_all(srcs, i + 1, w1),
            (Err(e), w1) => (Err(e), w1),
        }
    }
}

/// The definitions that every session starts with, in order.
pub open spec fn std_lib_sources() -> Seq<Seq<char>> {
    seq![
        "(define load-file (fn (f) (eval (read (str \"(do \" (slurp f) \")\")))))"@,
        "(define not (fn (b) (if b false true)))"@,
        "(define even (fn (x) (= (mod x 2) 0)))"@,
        "(define odd (fn (x) (not (even x))))"@,
        "(define foldr (fn (f b lst) (if (empty? lst) b (f (first lst) (foldr f b (rest lst))))))"@,
        "(define map (fn (f lst) (foldr (fn (x sofar) (cons (f x) sofar)) '() lst)))"@,
    ]
}

fn text(lit: &str) -> (r: String)
    ensures
        r@ == lit@,
{
    let mut r = String::new();
    r.append(lit);
    r
}

/// The sources of the bootstrap library.
pub fn get_std_lib() -> (r: Vec<String>)
    ensures
        strings_view(r@) == std_lib_sources(),
{
    let mut r: Vec<String> = Vec::new();
    r.push(text("(define load-file (fn (f) (eval (read (str \"(do \" (slurp f) \")\")))))"));
    r.push(text("(define not (fn (b) (if b false true)))"));
    r.push(text("(define even (fn (x) (= (mod x 2) 0)))"));
    r.push(text("(define odd (fn (x) (not (even x))))"));
    r.push(
        text(
            "(define foldr (fn (f b lst) (if (empty? lst) b (f (first lst) (foldr f b (rest lst))))))",
        ),
    );
    r.push(text("(define map (fn (f lst) (foldr (fn (x sofar) (cons (f x) sofar)) '() lst)))"));
    assert(strings_view(r@) =~= std_lib_sources());
    r
}

/// Reads one value from `input`, evaluates it, and renders the result.
pub fn rep(input: &str, env: &mut Env, io: &mut Console) -> (r: Result<String, Errors>)
    requires
        old(env).wf(),
    ensures
        final(env).wf(),
        final(env)@.len() == old(env)@.len(),
        (match r {
            Ok(s) => Ok::<Seq<char>, Fault>(s@),
            Err(e) => Err::<Seq<char>, Fault>(e@),
        }, World { env: final(env)@, io: final(io)@ }) == rep_spec(
            input@,
            World { env: old(env)@, io: old(io)@ },
        ),
{
    proof {
        reveal_strlit("no value could be read");
    }
    let ast = match READ(input) {
        Ok(v) => v,
        Err(e) => {
            return Err(e);
        },
    };
    match EVAL(ast, env, io) {
        Ok(v) => Ok(PRINT(v)),
        Err(e) => Err(e),
    }
}

/// Evaluates the bootstrap library in `env`, stopping at the first error.
pub fn run_std_lib(env: &mut Env, io: &mut Console) -> (r: Result<(), Errors>)
    requires
        old(env).wf(),
    ensures
        final(env).wf(),
        final(env)@.len() == old(env)@.len(),
        (match r {
            Ok(_) => Ok::<(), Fault>(()),
            Err(e) => Err::<(), Fault>(e@),
        }, World { env: final(env)@, io: final(io)@ }) == run_all(
            std_lib_sources(),
            0,
            World { env: old(env)@, io: old(io)@ },
        ),
{
    let fs = get_std_lib();
    let ghost srcs = std_lib_sources();
    let mut i: usize = 0;
    while i < fs.len()
        invariant
            i <= fs@.len(),
            strings_view(fs@) == srcs,
            srcs == std_lib_sources(),
            env.wf(),
            env@.len() == old(env)@.len(),
            run_all(srcs, 0, World { env: old(env)@, io: old(io)@ }) == run_all(
                srcs,
                i as int,
                World { env: env@, io: io@ },
            ),
        decreases fs@.len() - i,
    {
        assert(srcs[i as int] == fs@[i as int]@);
        match rep(fs[i].as_str(), env, io) {
            Ok(_) => {},
            Err(e) => {
                return Err(e);
            },
        }
        i = i + 1;
    }
    Ok(())
}

} // verus!

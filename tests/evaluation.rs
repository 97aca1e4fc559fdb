use rlisp::{
    Builtin, Console, DynamicFunction, Env, Errors, Value, EVAL, PRINT, build_init_env, eval_list,
    evaluate, rep,
};

fn sym(s: &str) -> Value {
    Value::Symbol(String::from(s))
}

fn num(i: i32) -> Value {
    Value::Int(i)
}

fn text(s: &str) -> Value {
    Value::Str(String::from(s))
}

fn list(items: Vec<Value>) -> Value {
    Value::List(items)
}

fn eval_fresh(e: Value) -> Result<Value, Errors> {
    let mut env = build_init_env();
    let mut io = Console::new();
    EVAL(e, &mut env, &mut io)
}

fn shown(r: Result<Value, Errors>) -> String {
    match r {
        Ok(v) => PRINT(v),
        Err(e) => format!("error: {}", e.to_string()),
    }
}

#[test]
fn atoms_evaluate_to_themselves() {
    let atoms = vec![
        num(7),
        num(-3),
        text("hi"),
        Value::True,
        Value::False,
        Value::Nil,
        Value::Function(Builtin::Plus),
    ];
    for a in atoms {
        let expected = PRINT(a.deep_copy());
        let got = eval_fresh(a).unwrap();
        assert_eq!(PRINT(got), expected);
    }
    match eval_fresh(num(7)).unwrap() {
        Value::Int(7) => {}
        other => panic!("unexpected {:?}", other),
    }
}

#[test]
fn empty_list_evaluates_to_itself() {
    match eval_fresh(list(vec![])).unwrap() {
        Value::List(items) => assert!(items.is_empty()),
        other => panic!("unexpected {:?}", other),
    }
}

#[test]
fn quote_returns_datum_unevaluated() {
    let r = eval_fresh(list(vec![Value::Quote, list(vec![num(1), num(2), num(3)])]));
    assert_eq!(shown(r), "(1 2 3)");
    let r = eval_fresh(list(vec![Value::Quote, list(vec![sym("a"), sym("b"), sym("c")])]));
    assert_eq!(shown(r), "(a b c)");
    let r = eval_fresh(list(vec![Value::Quote]));
    assert!(matches!(r, Err(Errors::FormError)));
}

#[test]
fn only_true_selects_then_branch() {
    let form = |c: Value| list(vec![Value::If, c, text("a"), text("b")]);
    assert_eq!(shown(eval_fresh(form(Value::True))), "\"a\"");
    assert_eq!(shown(eval_fresh(form(Value::False))), "\"b\"");
    assert_eq!(shown(eval_fresh(form(num(0)))), "\"b\"");
    assert_eq!(shown(eval_fresh(form(num(1)))), "\"b\"");
    assert_eq!(shown(eval_fresh(form(text("x")))), "\"b\"");
    let no_else = list(vec![Value::If, Value::False, text("a")]);
    assert_eq!(shown(eval_fresh(no_else)), "Nil");
    let short = list(vec![Value::If, Value::True]);
    assert!(matches!(eval_fresh(short), Err(Errors::FormError)));
}

#[test]
fn do_runs_in_order_and_returns_last() {
    let e = list(vec![
        Value::Do,
        list(vec![Value::Define, sym("x"), num(1)]),
        list(vec![Value::Define, sym("x"), num(2)]),
        sym("x"),
    ]);
    assert_eq!(shown(eval_fresh(e)), "2");
    assert_eq!(shown(eval_fresh(list(vec![Value::Do]))), "Nil");
}

#[test]
fn do_stops_at_first_error() {
    let mut env = build_init_env();
    let mut io = Console::new();
    let e = list(vec![
        Value::Do,
        sym("missing"),
        list(vec![Value::Define, sym("y"), num(1)]),
    ]);
    let r = EVAL(e, &mut env, &mut io);
    assert!(matches!(r, Err(Errors::SymbolNotFound(ref s)) if s == "missing"));
    assert!(env.lookup(String::from("y")).is_err());
}

#[test]
fn calling_with_wrong_arity_fails() {
    let f = list(vec![Value::Fn, list(vec![sym("a"), sym("b")]), sym("a")]);
    let e = list(vec![f, num(1), num(2), num(3)]);
    assert!(matches!(eval_fresh(e), Err(Errors::ArityError(3, 2))));
}

#[test]
fn quasiquote_evaluates_only_unquoted_sublists() {
    let e = list(vec![
        Value::Quasiquote,
        list(vec![
            num(1),
            list(vec![Value::Unquote, list(vec![sym("+"), num(1), num(1)])]),
            num(3),
        ]),
    ]);
    assert_eq!(shown(eval_fresh(e)), "(1 2 3)");

    let mut env = build_init_env();
    let mut io = Console::new();
    env.set(String::from("x"), num(5));
    let e = list(vec![
        Value::Quasiquote,
        list(vec![list(vec![Value::Unquote, sym("x")]), sym("y")]),
    ]);
    assert_eq!(shown(EVAL(e, &mut env, &mut io)), "(5 y)");
    let atom = list(vec![Value::Quasiquote, sym("y")]);
    assert_eq!(shown(EVAL(atom, &mut env, &mut io)), "y");
}

#[test]
fn undefined_symbol_is_reported_by_name() {
    match eval_fresh(sym("nowhere")) {
        Err(Errors::SymbolNotFound(name)) => assert_eq!(name, "nowhere"),
        other => panic!("unexpected {:?}", other),
    }
}

#[test]
fn literals_round_trip_through_read_eval_print() {
    let mut env = build_init_env();
    let mut io = Console::new();
    assert_eq!(rep("42", &mut env, &mut io).unwrap(), "42");
    assert_eq!(rep("\"hi\"", &mut env, &mut io).unwrap(), "\"hi\"");
    assert_eq!(rep("  7  ", &mut env, &mut io).unwrap(), "7");
}

#[test]
fn define_binds_in_innermost_scope() {
    let mut env = build_init_env();
    let mut io = Console::new();
    let r = EVAL(list(vec![Value::Define, sym("z"), num(9)]), &mut env, &mut io);
    assert!(matches!(r, Ok(Value::Nil)));
    assert!(matches!(env.lookup(String::from("z")), Ok(Value::Int(9))));
    let r = EVAL(list(vec![Value::Define, num(1), num(9)]), &mut env, &mut io);
    assert!(matches!(r, Err(Errors::TypeError)));
    let r = EVAL(list(vec![Value::Define, sym("w")]), &mut env, &mut io);
    assert!(matches!(r, Err(Errors::FormError)));
}

#[test]
fn let_scope_is_discarded() {
    let mut env = build_init_env();
    let mut io = Console::new();
    env.set(String::from("x"), num(1));
    let e = list(vec![
        Value::Let,
        list(vec![sym("x"), num(2)]),
        list(vec![sym("+"), sym("x"), num(10)]),
    ]);
    assert_eq!(shown(EVAL(e, &mut env, &mut io)), "12");
    assert!(matches!(env.lookup(String::from("x")), Ok(Value::Int(1))));
    let bad = list(vec![Value::Let, sym("x"), num(1)]);
    assert!(matches!(EVAL(bad, &mut env, &mut io), Err(Errors::FormError)));
}

#[test]
fn defmacro_tags_a_closure() {
    let mut env = build_init_env();
    let mut io = Console::new();
    let f = list(vec![Value::Fn, list(vec![sym("a")]), sym("a")]);
    let r = EVAL(list(vec![Value::Defmacro, sym("m"), f]), &mut env, &mut io);
    assert!(matches!(r, Ok(Value::Nil)));
    match env.lookup(String::from("m")) {
        Ok(Value::DynFunc(df)) => assert!(df.is_macro),
        other => panic!("unexpected {:?}", other),
    }
    let r = EVAL(list(vec![sym("m"), num(4)]), &mut env, &mut io);
    assert!(matches!(r, Ok(Value::Int(4))));
    let r = EVAL(list(vec![Value::Defmacro, sym("n"), num(3)]), &mut env, &mut io);
    assert!(matches!(r, Err(Errors::TypeError)));
}

#[test]
fn closures_see_the_callers_environment() {
    let mut env = build_init_env();
    let mut io = Console::new();
    let getter = list(vec![Value::Fn, list(vec![]), sym("free")]);
    EVAL(list(vec![Value::Define, sym("get"), getter]), &mut env, &mut io).unwrap();
    let call = list(vec![
        Value::Let,
        list(vec![sym("free"), num(8)]),
        list(vec![sym("get")]),
    ]);
    assert_eq!(shown(EVAL(call, &mut env, &mut io)), "8");
    let r = EVAL(list(vec![sym("get")]), &mut env, &mut io);
    assert!(matches!(r, Err(Errors::SymbolNotFound(_))));
}

#[test]
fn fn_drops_non_symbol_parameters() {
    let f = list(vec![Value::Fn, list(vec![sym("a"), num(3), sym("b")]), sym("b")]);
    match eval_fresh(f) {
        Ok(Value::DynFunc(df)) => {
            assert_eq!(df.parameters, vec![String::from("a"), String::from("b")]);
            assert!(!df.is_macro);
        }
        other => panic!("unexpected {:?}", other),
    }
    let short = list(vec![Value::Fn, list(vec![])]);
    assert!(matches!(eval_fresh(short), Err(Errors::FormError)));
}

#[test]
fn eval_evaluates_twice() {
    let quoted = list(vec![Value::Quote, list(vec![sym("+"), num(2), num(3)])]);
    assert_eq!(shown(eval_fresh(list(vec![Value::Eval, quoted]))), "5");
    assert!(matches!(eval_fresh(list(vec![Value::Eval])), Err(Errors::ArityError(0, 1))));
}

#[test]
fn applying_a_non_function_fails() {
    assert!(matches!(eval_fresh(list(vec![num(1), num(2)])), Err(Errors::NotAFunction)));
}

#[test]
fn nesting_beyond_the_budget_fails() {
    let mut env = build_init_env();
    let mut io = Console::new();
    let inner = list(vec![sym("+"), num(1), list(vec![sym("+"), num(1), num(1)])]);
    assert!(matches!(evaluate(1, &inner, &mut env, &mut io), Err(Errors::DepthExceeded)));
    assert!(matches!(evaluate(2, &inner, &mut env, &mut io), Ok(Value::Int(3))));
}

#[test]
fn eval_list_dispatches_special_forms() {
    let mut env = build_init_env();
    let mut io = Console::new();
    let r = eval_list(vec![Value::Quote, sym("q")], &mut env, &mut io);
    assert_eq!(shown(r), "q");
}

#[test]
fn dynamic_function_constructors() {
    let f = DynamicFunction::new(vec![String::from("a")], Box::new(sym("a")));
    assert!(!f.is_macro);
    let m = DynamicFunction::new_macro(vec![String::from("a")], Box::new(sym("a")));
    assert!(m.is_macro);
    let mut env = Env::new();
    let mut io = Console::new();
    env.set(String::from("f"), Value::DynFunc(f));
    let r = EVAL(list(vec![sym("f"), num(6)]), &mut env, &mut io);
    assert!(matches!(r, Ok(Value::Int(6))));
}

use rlisp::{Errors, PRINT, READ, Value, get_std_lib, list_to_string, build_init_env, run_std_lib, rep, Console};

#[test]
fn reads_atoms_and_keywords() {
    assert!(matches!(READ("42"), Ok(Value::Int(42))));
    assert!(matches!(READ("true"), Ok(Value::True)));
    assert!(matches!(READ("false"), Ok(Value::False)));
    assert!(matches!(READ("nil"), Ok(Value::Nil)));
    assert!(matches!(READ("define"), Ok(Value::Define)));
    assert!(matches!(READ("fn"), Ok(Value::Fn)));
    match READ("list?") {
        Ok(Value::Symbol(s)) => assert_eq!(s, "list?"),
        other => panic!("unexpected {:?}", other),
    }
    match READ("\"a b\"") {
        Ok(Value::Str(s)) => assert_eq!(s, "a b"),
        other => panic!("unexpected {:?}", other),
    }
}

#[test]
fn reads_nested_lists() {
    let v = READ(" ( 1 (a \"s\") ( ) ) trailing").unwrap();
    assert_eq!(PRINT(v), "(1 (a \"s\") ())");
}

#[test]
fn rejects_malformed_text() {
    assert!(matches!(READ(""), Err(Errors::ParseError(_))));
    assert!(matches!(READ("(1 2"), Err(Errors::ParseError(_))));
    assert!(matches!(READ("\"open"), Err(Errors::ParseError(_))));
    assert!(matches!(READ("99999999999"), Err(Errors::ParseError(_))));
    assert!(matches!(READ("'()"), Err(Errors::ParseError(_))));
    assert!(matches!(READ("2147483647"), Ok(Value::Int(2147483647))));
}

#[test]
fn renders_values() {
    assert_eq!(PRINT(Value::Int(-2147483648)), "-2147483648");
    assert_eq!(PRINT(Value::Int(0)), "0");
    assert_eq!(PRINT(Value::Quasiquote), "quasiquote");
    assert_eq!(PRINT(Value::Unquote), "unquote");
    assert_eq!(PRINT(Value::Nil), "Nil");
    let l = vec![Value::Int(1), Value::Str(String::from("x")), Value::List(vec![])];
    assert_eq!(list_to_string(&l), "(1 \"x\" ())");
    assert_eq!(Value::List(l).to_string(), "(1 \"x\" ())");
}

#[test]
fn error_messages() {
    assert_eq!(Errors::TypeError.to_string(), "Type Error");
    assert_eq!(Errors::ArityError(3, 2).to_string(), "Arity Error: Expected 2, recieved 3");
    assert_eq!(Errors::SymbolNotFound(String::from("q")).to_string(), "Symbol q is undefined");
    assert_eq!(Errors::IOError(String::from("f")).to_string(), "IO Error: f");
    assert_eq!(Errors::ParseError(String::from("m")).to_string(), "Parse Error: m");
}

#[test]
fn bootstrap_library_stops_where_it_cannot_be_read() {
    let srcs = get_std_lib();
    assert_eq!(srcs.len(), 6);
    let mut env = build_init_env();
    let mut io = Console::new();
    let r = run_std_lib(&mut env, &mut io);
    assert!(matches!(r, Err(Errors::ParseError(_))));
    assert_eq!(rep("(not false)", &mut env, &mut io).unwrap(), "True");
    assert_eq!(rep("(even 4)", &mut env, &mut io).unwrap(), "True");
    assert_eq!(rep("(odd 4)", &mut env, &mut io).unwrap(), "False");
    assert_eq!(rep("(foldr + 0 (list 1 2 3))", &mut env, &mut io).unwrap(), "6");
}

#[test]
fn unicode_letters_form_symbols() {
    match READ("été") {
        Ok(Value::Symbol(s)) => assert_eq!(s, "été"),
        other => panic!("unexpected {:?}", other),
    }
    assert!(matches!(READ("@"), Err(Errors::ParseError(_))));
    assert!(matches!(READ("5abc"), Ok(Value::Int(5))));
}

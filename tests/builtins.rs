use rlisp::{Console, Errors, Value, build_init_env, rep};

fn run(src: &str) -> Result<String, Errors> {
    let mut env = build_init_env();
    let mut io = Console::new();
    rep(src, &mut env, &mut io)
}

#[test]
fn arithmetic() {
    assert_eq!(run("(+ 1 2 3)").unwrap(), "6");
    assert_eq!(run("(+)").unwrap(), "0");
    assert_eq!(run("(* 2 3 4)").unwrap(), "24");
    assert_eq!(run("(*)").unwrap(), "1");
    assert_eq!(run("(+ 2147483647 1)").unwrap(), "-2147483648");
    assert!(matches!(run("(+ 1 \"a\")"), Err(Errors::TypeError)));
    assert!(matches!(run("(* \"a\" 2)"), Err(Errors::TypeError)));
}

#[test]
fn remainder() {
    assert_eq!(run("(mod 7 3)").unwrap(), "1");
    assert_eq!(run("(mod 6 3)").unwrap(), "0");
    assert!(matches!(run("(mod)"), Err(Errors::ArityError(0, 2))));
    assert!(matches!(run("(mod 4)"), Err(Errors::ArityError(1, 2))));
    assert!(matches!(run("(mod 4 0)"), Err(Errors::TypeError)));
    assert!(matches!(run("(mod \"a\" 2)"), Err(Errors::TypeError)));
}

#[test]
fn list_predicates_and_count() {
    assert_eq!(run("(list 1 2 3)").unwrap(), "(1 2 3)");
    assert_eq!(run("(list? (list 1))").unwrap(), "True");
    assert_eq!(run("(list? 1)").unwrap(), "False");
    assert_eq!(run("(empty? (list))").unwrap(), "True");
    assert_eq!(run("(empty? (list 1))").unwrap(), "False");
    assert_eq!(run("(count (list 1 2))").unwrap(), "2");
    assert!(matches!(run("(count 1)"), Err(Errors::TypeError)));
    assert!(matches!(run("(count)"), Err(Errors::ArityError(0, 1))));
    assert!(matches!(run("(empty? 3)"), Err(Errors::TypeError)));
}

#[test]
fn cons_first_rest() {
    assert_eq!(run("(cons 1 (list 2 3))").unwrap(), "(1 2 3)");
    assert!(matches!(run("(cons 1)"), Err(Errors::ArityError(1, 2))));
    assert!(matches!(run("(cons 1 2)"), Err(Errors::TypeError)));
    assert_eq!(run("(first (list 4 5))").unwrap(), "4");
    assert_eq!(run("(first (list))").unwrap(), "Nil");
    assert_eq!(run("(rest (list 4 5 6))").unwrap(), "(5 6)");
    assert_eq!(run("(rest (list))").unwrap(), "()");
    assert!(matches!(run("(rest 1)"), Err(Errors::TypeError)));
}

#[test]
fn string_concatenation() {
    assert_eq!(run("(str \"ab\" \"cd\")").unwrap(), "\"abcd\"");
    assert_eq!(run("(str)").unwrap(), "\"\"");
    assert!(matches!(run("(str \"a\" 1)"), Err(Errors::TypeError)));
}

#[test]
fn equality_builtin() {
    assert_eq!(run("(= 1 1)").unwrap(), "True");
    assert_eq!(run("(= 1 2)").unwrap(), "False");
    assert_eq!(run("(= (list 1 2) (list 1 2))").unwrap(), "True");
    assert_eq!(run("(= (list 1) (list 1 2))").unwrap(), "False");
    assert_eq!(run("(= true false)").unwrap(), "False");
    assert!(matches!(run("(= 1 \"1\")"), Err(Errors::TypeError)));
    assert!(matches!(run("(= nil nil)"), Err(Errors::TypeError)));
    assert!(matches!(run("(= 1)"), Err(Errors::ArityError(1, 2))));
    assert!(matches!(run("(=)"), Err(Errors::ArityError(0, 2))));
}

#[test]
fn equals_stops_at_first_difference() {
    let a = Value::List(vec![Value::Int(1), Value::Nil]);
    let b = Value::List(vec![Value::Int(2), Value::Nil]);
    assert!(matches!(Value::equals(&a, &b), Ok(false)));
    let c = Value::List(vec![Value::Int(1), Value::Nil]);
    assert!(matches!(Value::equals(&a, &c), Err(Errors::TypeError)));
    assert!(Value::List(vec![Value::Nil]).is_pair());
    assert!(!Value::List(vec![]).is_pair());
    assert!(!Value::Int(1).is_pair());
}

#[test]
fn read_parses_text() {
    assert_eq!(run("(read \"(+ 1 2)\")").unwrap(), "(+ 1 2)");
    assert!(matches!(run("(read \")\")"), Err(Errors::TypeError)));
    assert!(matches!(run("(read 1)"), Err(Errors::TypeError)));
}

#[test]
fn prn_records_the_rendered_argument() {
    let mut env = build_init_env();
    let mut io = Console::new();
    assert_eq!(rep("(prn \"hello\")", &mut env, &mut io).unwrap(), "Nil");
    assert_eq!(rep("(prn (list 1 2))", &mut env, &mut io).unwrap(), "Nil");
    assert_eq!(io.printed, vec![String::from("\"hello\""), String::from("(1 2)")]);
    assert!(matches!(rep("(prn)", &mut env, &mut io), Err(Errors::ArityError(0, 1))));
}

#[test]
fn slurp_asks_for_unknown_files() {
    let mut env = build_init_env();
    let mut io = Console::new();
    let r = rep("(slurp \"a.txt\")", &mut env, &mut io);
    assert!(matches!(r, Err(Errors::IOError(ref n)) if n == "a.txt"));
    assert_eq!(io.wanted, Some(String::from("a.txt")));
    io.wanted = None;
    io.files.push((String::from("a.txt"), Some(String::from("contents"))));
    io.files.push((String::from("b.txt"), None));
    assert_eq!(rep("(slurp \"a.txt\")", &mut env, &mut io).unwrap(), "\"contents\"");
    let r = rep("(slurp \"b.txt\")", &mut env, &mut io);
    assert!(matches!(r, Err(Errors::IOError(ref n)) if n == "b.txt"));
    assert_eq!(io.wanted, None);
    assert!(matches!(rep("(slurp 3)", &mut env, &mut io), Err(Errors::TypeError)));
}

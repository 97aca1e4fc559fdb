use rlisp::{Env, Errors, Value};

#[test]
fn inner_binding_shadows_outer_one() {
    let mut env = Env::new();
    env.set(String::from("x"), Value::Int(1));
    let mut child = Env::push(env);
    child.set(String::from("x"), Value::Int(2));
    assert!(matches!(child.lookup(String::from("x")), Ok(Value::Int(2))));
    let parent = Env::pop(child);
    assert!(matches!(parent.lookup(String::from("x")), Ok(Value::Int(1))));
}

#[test]
fn lookup_falls_back_to_enclosing_scope() {
    let mut env = Env::new();
    env.set(String::from("a"), Value::Int(5));
    let child = Env::push(env);
    assert!(matches!(child.lookup(String::from("a")), Ok(Value::Int(5))));
    match child.lookup(String::from("b")) {
        Err(Errors::SymbolNotFound(name)) => assert_eq!(name, "b"),
        other => panic!("unexpected {:?}", other),
    }
}

#[test]
fn set_overwrites_in_same_scope() {
    let mut env = Env::new();
    env.set(String::from("a"), Value::Int(5));
    env.set(String::from("b"), Value::Int(6));
    env.set(String::from("a"), Value::Int(7));
    assert!(matches!(env.lookup(String::from("a")), Ok(Value::Int(7))));
    assert!(matches!(env.lookup(String::from("b")), Ok(Value::Int(6))));
}

#[test]
fn add_all_binds_pairwise_or_reports_arity() {
    let mut env = Env::new();
    let names = vec![String::from("p"), String::from("q")];
    let r = env.add_all(names.clone(), vec![Value::Int(1), Value::Int(2)]);
    assert!(r.is_ok());
    assert!(matches!(env.lookup(String::from("q")), Ok(Value::Int(2))));
    let mut env = Env::new();
    let r = env.add_all(names, vec![Value::Int(1), Value::Int(2), Value::Int(3)]);
    assert!(matches!(r, Err(Errors::ArityError(3, 2))));
    assert!(env.lookup(String::from("p")).is_err());
}

#[test]
fn pop_keeps_a_single_scope() {
    let mut env = Env::new();
    env.set(String::from("k"), Value::True);
    let same = Env::pop(env);
    assert!(matches!(same.lookup(String::from("k")), Ok(Value::True)));
}

#[test]
fn deep_copy_is_independent() {
    let mut env = Env::new();
    env.set(String::from("a"), Value::List(vec![Value::Int(1)]));
    let copy = env.deep_copy();
    env.set(String::from("a"), Value::Int(2));
    assert!(matches!(copy.lookup(String::from("a")), Ok(Value::List(ref v)) if v.len() == 1));
    assert!(matches!(env.lookup(String::from("a")), Ok(Value::Int(2))));
}

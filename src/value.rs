use vstd::prelude::*;

verus! {

broadcast use vstd::std_specs::vec::group_vec_axioms, vstd::seq::group_seq_axioms;

/// The native operations that the interpreter offers under fixed names.
#[derive(PartialEq, Eq, Structural, Clone, Copy, Debug)]
pub enum Builtin {
    Plus,
    Mult,
    Prn,
    List,
    ListP,
    Empty,
    Count,
    Read,
    Equals,
    Slurp,
    Str,
    Cons,
    First,
    Rest,
    Mod,
}

/// A user-defined function or macro. It captures no environment: its body is
/// evaluated in a new scope whose parent is the caller's environment.
#[derive(Debug)]
pub struct DynamicFunction {
    pub parameters: Vec<String>,
    pub body: Box<Value>,
    pub is_macro: bool,
}

/// Every datum and every piece of code.
#[derive(Debug)]
pub enum Value {
    Int(i32),
    Str(String),
    Symbol(String),
    List(Vec<Value>),
    True,
    False,
    Nil,
    Define,
    Defmacro,
    Let,
    Do,
    If,
    Fn,
    Eval,
    Quote,
    Quasiquote,
    Unquote,
    Function(Builtin),
    DynFunc(DynamicFunction),
}

/// The errors that evaluation can end in.
#[derive(Clone, Debug)]
pub enum Errors {
    TypeError,
    ParseError(String),
    SymbolNotFound(String),
    NotAFunction,
    FormError,
    ArityError(i32, i32),
    IOError(String),
    /// The nesting of evaluation went deeper than the budget it was given.
    DepthExceeded,
}

pub type FResult = Result<Value, Errors>;

/// The mathematical model of a `Value`: strings as character sequences,
/// lists as sequences.
pub enum Sexp {
    Int(i32),
    Str(Seq<char>),
    Symbol(Seq<char>),
    List(Seq<Sexp>),
    True,
    False,
    Nil,
    Define,
    Defmacro,
    Let,
    Do,
    If,
    Fn,
    Eval,
    Quote,
    Quasiquote,
    Unquote,
    Function(Builtin),
    Closure(Seq<Seq<char>>, Box<Sexp>, bool),
}

/// The mathematical model of `Errors`.
pub enum Fault {
    TypeError,
    ParseError(Seq<char>),
    SymbolNotFound(Seq<char>),
    NotAFunction,
    FormError,
    ArityError(i32, i32),
    IOError(Seq<char>),
    DepthExceeded,
}

impl Errors {
    pub open spec fn view(&self) -> Fault {
        match self {
            Errors::TypeError => Fault::TypeError,
            Errors::ParseError(s) => Fault::ParseError(s@),
            Errors::SymbolNotFound(s) => Fault::SymbolNotFound(s@),
            Errors::NotAFunction => Fault::NotAFunction,
            Errors::FormError => Fault::FormError,
            Errors::ArityError(got, expected) => Fault::ArityError(*got, *expected),
            Errors::IOError(s) => Fault::IOError(s@),
            Errors::DepthExceeded => Fault::DepthExceeded,
        }
    }
}

/// The model of an evaluation result.
pub open spec fn result_view(r: FResult) -> Result<Sexp, Fault> {
    match r {
        Ok(v) => Ok(v@),
        Err(e) => Err(e@),
    }
}

/// A length as an `i32`, saturating at `i32::MAX`.
pub open spec fn count_i32(n: nat) -> i32 {
    if n <= i32::MAX {
        n as i32
    } else {
        i32::MAX
    }
}

pub fn usize_to_i32(n: usize) -> (r: i32)
    ensures
        r == count_i32(n as nat),
{
    if n <= 2147483647 {
        n as i32
    } else {
        2147483647
    }
}

pub open spec fn strings_view(v: Seq<String>) -> Seq<Seq<char>> {
    Seq::new(v.len(), |i: int| v[i]@)
}

impl Value {
    pub open spec fn view(&self) -> Sexp
        decreases self,
    {
        match self {
            Value::Int(i) => Sexp::Int(*i),
            Value::Str(s) => Sexp::Str(s@),
            Value::Symbol(s) => Sexp::Symbol(s@),
            Value::List(items) => Sexp::List(Value::items_view(items@)),
            Value::True => Sexp::True,
            Value::False => Sexp::False,
            Value::Nil => Sexp::Nil,
            Value::Define => Sexp::Define,
            Value::Defmacro => Sexp::Defmacro,
            Value::Let => Sexp::Let,
            Value::Do => Sexp::Do,
            Value::If => Sexp::If,
            Value::Fn => Sexp::Fn,
            Value::Eval => Sexp::Eval,
            Value::Quote => Sexp::Quote,
            Value::Quasiquote => Sexp::Quasiquote,
            Value::Unquote => Sexp::Unquote,
            Value::Function(b) => Sexp::Function(*b),
            Value::DynFunc(f) => Sexp::Closure(
                strings_view(f.parameters@),
                Box::new(f.body.view()),
                f.is_macro,
            ),
        }
    }

    pub open spec fn items_view(items: Seq<Value>) -> Seq<Sexp>
        decreases items,
    {
        if items.len() == 0 {
            Seq::empty()
        } else {
            Value::items_view(items.drop_last()).push(items.last().view())
        }
    }
}

pub proof fn lemma_items_view(items: Seq<Value>)
    ensures
        Value::items_view(items).len() == items.len(),
        forall|i: int| 0 <= i < items.len() ==> #[trigger] Value::items_view(items)[i] == items[i]@,
    decreases items.len(),
{
    if items.len() > 0 {
        lemma_items_view(items.drop_last());
    }
}

pub proof fn lemma_items_view_push(items: Seq<Value>, x: Value)
    ensures
        Value::items_view(items.push(x)) == Value::items_view(items).push(x@),
{
    assert(items.push(x).drop_last() =~= items);
}

pub proof fn lemma_items_view_ext(a: Seq<Value>, b: Seq<Value>)
    requires
        a.len() == b.len(),
        forall|i: int| 0 <= i < a.len() ==> #[trigger] a[i]@ == b[i]@,
    ensures
        Value::items_view(a) == Value::items_view(b),
{
    lemma_items_view(a);
    lemma_items_view(b);
    assert(Value::items_view(a) =~= Value::items_view(b));
}

/// A copy of a list of strings.
pub fn copy_strings(v: &Vec<String>) -> (r: Vec<String>)
    ensures
        strings_view(r@) == strings_view(v@),
        r@.len() == v@.len(),
{
    let mut r: Vec<String> = Vec::new();
    let mut i: usize = 0;
    while i < v.len()
        invariant
            i <= v@.len(),
            r@.len() == i,
            forall|j: int| 0 <= j < i ==> #[trigger] r@[j]@ == v@[j]@,
        decreases v@.len() - i,
    {
        r.push(v[i].clone());
        i = i + 1;
    }
    assert(strings_view(r@) =~= strings_view(v@));
    r
}

impl DynamicFunction {
    /// An ordinary function of the given parameters and body.
    pub fn new(parameters: Vec<String>, body: Box<Value>) -> (r: DynamicFunction)
        ensures
            r.parameters == parameters,
            r.body == body,
            !r.is_macro,
    {
        DynamicFunction { parameters, body, is_macro: false }
    }

    /// A macro of the given parameters and body.
    pub fn new_macro(parameters: Vec<String>, body: Box<Value>) -> (r: DynamicFunction)
        ensures
            r.parameters == parameters,
            r.body == body,
            r.is_macro,
    {
        DynamicFunction { parameters, body, is_macro: true }
    }

    /// A copy of the function, with equal parameters, body and flag.
    pub fn deep_copy(&self) -> (r: DynamicFunction)
        ensures
            strings_view(r.parameters@) == strings_view(self.parameters@),
            r.body@ == self.body@,
            r.is_macro == self.is_macro,
        decreases self,
    {
        DynamicFunction {
            parameters: copy_strings(&self.parameters),
            body: Box::new(self.body.deep_copy()),
            is_macro: self.is_macro,
        }
    }
}

impl Value {
    /// A copy of the value: equal to it in the model.
    pub fn deep_copy(&self) -> (r: Value)
        ensures
            r@ == self@,
        decreases self,
    {
        match self {
            Value::Int(i) => Value::Int(*i),
            Value::Str(s) => Value::Str(s.clone()),
            Value::Symbol(s) => Value::Symbol(s.clone()),
            Value::List(items) => {
                let r = copy_items(items);
                Value::List(r)
            },
            Value::True => Value::True,
            Value::False => Value::False,
            Value::Nil => Value::Nil,
            Value::Define => Value::Define,
            Value::Defmacro => Value::Defmacro,
            Value::Let => Value::Let,
            Value::Do => Value::Do,
            Value::If => Value::If,
            Value::Fn => Value::Fn,
            Value::Eval => Value::Eval,
            Value::Quote => Value::Quote,
            Value::Quasiquote => Value::Quasiquote,
            Value::Unquote => Value::Unquote,
            Value::Function(b) => Value::Function(*b),
            Value::DynFunc(f) => Value::DynFunc(f.deep_copy()),
        }
    }
}

/// A copy of a list of values, element by element.
pub fn copy_items(items: &Vec<Value>) -> (r: Vec<Value>)
    ensures
        Value::items_view(r@) == Value::items_view(items@),
        r@.len() == items@.len(),
    decreases items,
{
    let mut r: Vec<Value> = Vec::new();
    let mut i: usize = 0;
    while i < items.len()
        invariant
            i <= items@.len(),
            r@.len() == i,
            forall|j: int| 0 <= j < i ==> #[trigger] r@[j]@ == items@[j]@,
        decreases items@.len() - i,
    {
        proof {
            assert(decreases_to!(items => items@[i as int]));
        }
        r.push(items[i].deep_copy());
        i = i + 1;
    }
    proof {
        lemma_items_view_ext(r@, items@);
    }
    r
}

} // verus!

use vstd::prelude::*;
use crate::value::{Errors, Fault, Sexp, Value, lemma_items_view, lemma_items_view_push};

verus! {

broadcast use vstd::std_specs::vec::group_vec_axioms, vstd::seq::group_seq_axioms;

pub open spec fn digit_char(d: nat) -> char {
    if d == 0 {
        '0'
    } else if d == 1 {
        '1'
    } else if d == 2 {
        '2'
    } else if d == 3 {
        '3'
    } else if d == 4 {
        '4'
    } else if d == 5 {
        '5'
    } else if d == 6 {
        '6'
    } else if d == 7 {
        '7'
    } else if d == 8 {
        '8'
    } else {
        '9'
    }
}

/// The decimal digits of `n`, without leading zeros.
pub open spec fn nat_text(n: nat) -> Seq<char>
    decreases n,
{
    if n < 10 {
        seq![digit_char(n)]
    } else {
        nat_text(n / 10).push(digit_char(n % 10))
    }
}

/// An integer in decimal, with a leading `-` when negative.
pub open spec fn int_text(i: int) -> Seq<char> {
    if i < 0 {
        seq!['-'] + nat_text((-i) as nat)
    } else {
        nat_text(i as nat)
    }
}

/// The canonical text of a value: atoms literally, strings in double quotes,
/// lists as `(v1 v2 ...)`, keywords in their source spelling, functions as
/// opaque tags.
pub open spec fn render(e: Sexp) -> Seq<char>
    decreases e,
{
    match e {
        Sexp::Int(i) => int_text(i as int),
        Sexp::Str(s) => seq!['"'] + s + seq!['"'],
        Sexp::Symbol(s) => s,
        Sexp::List(items) => seq!['('] + render_items(items) + seq![')'],
        Sexp::True => "True"@,
        Sexp::False => "False"@,
        Sexp::Nil => "Nil"@,
        Sexp::Define => "define"@,
        Sexp::Defmacro => "defmacro"@,
        Sexp::Let => "let"@,
        Sexp::Do => "do"@,
        Sexp::If => "if"@,
        Sexp::Fn => "fn"@,
        Sexp::Eval => "eval"@,
        Sexp::Quote => "quote"@,
        Sexp::Quasiquote => "quasiquote"@,
        Sexp::Unquote => "unquote"@,
        Sexp::Function(_) => "<Builtin-Function>"@,
        Sexp::Closure(_, _, _) => "<Function>"@,
    }
}

/// The texts of the items, separated by single spaces.
pub open spec fn render_items(items: Seq<Sexp>) -> Seq<char>
    decreases items,
{
    if items.len() == 0 {
        Seq::empty()
    } else if items.len() == 1 {
        render(items[0])
    } else {
        render_items(items.drop_last()) + seq![' '] + render(items[items.len() - 1])
    }
}

/// Relies on String::push: the character is appended at the end.
#[verifier::external_body]
pub(crate) fn push_char(s: &mut String, c: char)
    ensures
        final(s)@ == old(s)@.push(c),
{
    s.push(c)
}

fn push_text(out: &mut String, t: &str)
    ensures
        final(out)@ == old(out)@ + t@,
{
    out.append(t);
}

fn push_digit(out: &mut String, d: u32)
    requires
        d < 10,
    ensures
        final(out)@ == old(out)@.push(digit_char(d as nat)),
{
    let c = if d == 0 {
        '0'
    } else if d == 1 {
        '1'
    } else if d == 2 {
        '2'
    } else if d == 3 {
        '3'
    } else if d == 4 {
        '4'
    } else if d == 5 {
        '5'
    } else if d == 6 {
        '6'
    } else if d == 7 {
        '7'
    } else if d == 8 {
        '8'
    } else {
        '9'
    };
    push_char(out, c);
}

fn push_nat(out: &mut String, n: u32)
    ensures
        final(out)@ == old(out)@ + nat_text(n as nat),
    decreases n,
{
    if n < 10 {
        push_digit(out, n);
        assert(nat_text(n as nat) == seq![digit_char(n as nat)]);
        assert(final(out)@ =~= old(out)@ + nat_text(n as nat));
    } else {
        push_nat(out, n / 10);
        push_digit(out, n % 10);
        assert(final(out)@ =~= old(out)@ + nat_text(n as nat));
    }
}

fn push_int(out: &mut String, i: i32)
    ensures
        final(out)@ == old(out)@ + int_text(i as int),
{
    if i < 0 {
        push_char(out, '-');
        let m: u32 = if i == i32::MIN {
            2147483648u32
        } else {
            (-i) as u32
        };
        push_nat(out, m);
        assert(final(out)@ =~= old(out)@ + int_text(i as int));
    } else {
        push_nat(out, i as u32);
    }
}

/// Appends the canonical text of `v`.
pub fn render_into(out: &mut String, v: &Value)
    ensures
        final(out)@ == old(out)@ + render(v@),
    decreases v,
{
    proof {
        reveal_strlit("True");
        reveal_strlit("False");
        reveal_strlit("Nil");
        reveal_strlit("define");
        reveal_strlit("defmacro");
        reveal_strlit("let");
        reveal_strlit("do");
        reveal_strlit("if");
        reveal_strlit("fn");
        reveal_strlit("eval");
        reveal_strlit("quote");
        reveal_strlit("quasiquote");
        reveal_strlit("unquote");
        reveal_strlit("<Builtin-Function>");
        reveal_strlit("<Function>");
    }
    match v {
        Value::Int(i) => push_int(out, *i),
        Value::Str(s) => {
            push_char(out, '"');
            push_text(out, s.as_str());
            push_char(out, '"');
            assert(final(out)@ =~= old(out)@ + render(v@));
        },
        Value::Symbol(s) => push_text(out, s.as_str()),
        Value::List(items) => {
            push_char(out, '(');
            render_list_into(out, items);
            push_char(out, ')');
            assert(final(out)@ =~= old(out)@ + render(v@));
        },
        Value::True => push_text(out, "True"),
        Value::False => push_text(out, "False"),
        Value::Nil => push_text(out, "Nil"),
        Value::Define => push_text(out, "define"),
        Value::Defmacro => push_text(out, "defmacro"),
        Value::Let => push_text(out, "let"),
        Value::Do => push_text(out, "do"),
        Value::If => push_text(out, "if"),
        Value::Fn => push_text(out, "fn"),
        Value::Eval => push_text(out, "eval"),
        Value::Quote => push_text(out, "quote"),
        Value::Quasiquote => push_text(out, "quasiquote"),
        Value::Unquote => push_text(out, "unquote"),
        Value::Function(_) => push_text(out, "<Builtin-Function>"),
        Value::DynFunc(_) => push_text(out, "<Function>"),
    }
}

/// Appends the texts of the items, separated by single spaces.
pub fn render_list_into(out: &mut String, items: &Vec<Value>)
    ensures
        final(out)@ == old(out)@ + render_items(Value::items_view(items@)),
    decreases items,
{
    let mut i: usize = 0;
    proof {
        assert(items@.subrange(0, 0) =~= Seq::<Value>::empty());
        assert(old(out)@ + render_items(Value::items_view(items@.subrange(0, 0))) =~= old(out)@);
    }
    while i < items.len()
        invariant
            i <= items@.len(),
            out@ == old(out)@ + render_items(Value::items_view(items@.subrange(0, i as int))),
        decreases items@.len() - i,
    {
        let ghost pre = out@;
        proof {
            assert(decreases_to!(items => items@[i as int]));
        }
        if i > 0 {
            push_char(out, ' ');
        }
        render_into(out, &items[i]);
        proof {
            let s0 = items@.subrange(0, i as int);
            let s1 = items@.subrange(0, i + 1);
            assert(s1 =~= s0.push(items@[i as int]));
            lemma_items_view_push(s0, items@[i as int]);
            lemma_items_view(s0);
            let w1 = Value::items_view(s1);
            assert(w1.drop_last() =~= Value::items_view(s0));
            assert(w1[w1.len() - 1] == items@[i as int]@);
            if i == 0 {
                assert(Value::items_view(s0) =~= Seq::<Sexp>::empty());
                assert(out@ =~= old(out)@ + render_items(w1));
            } else {
                assert(out@ =~= old(out)@ + render_items(w1));
            }
        }
        i = i + 1;
    }
    proof {
        assert(items@.subrange(0, i as int) =~= items@);
    }
}

/// The text of a list: its items' texts, separated by single spaces, in
/// parentheses.
pub fn list_to_string(lst: &Vec<Value>) -> (r: String)
    ensures
        r@ == seq!['('] + render_items(Value::items_view(lst@)) + seq![')'],
{
    let mut out = String::new();
    push_char(&mut out, '(');
    render_list_into(&mut out, lst);
    push_char(&mut out, ')');
    assert(out@ =~= seq!['('] + render_items(Value::items_view(lst@)) + seq![')']);
    out
}

impl Value {
    /// The canonical text of the value.
    pub fn to_string(&self) -> (r: String)
        ensures
            r@ == render(self@),
    {
        let mut out = String::new();
        render_into(&mut out, self);
        assert(out@ =~= render(self@));
        out
    }
}

/// The message that describes an error.
pub open spec fn error_text(e: Fault) -> Seq<char> {
    match e {
        Fault::TypeError => "Type Error"@,
        Fault::ParseError(s) => "Parse Error: "@ + s,
        Fault::SymbolNotFound(s) => "Symbol "@ + s + " is undefined"@,
        Fault::NotAFunction => "Expected function"@,
        Fault::FormError => "Form Error"@,
        Fault::ArityError(got, expected) => "Arity Error: Expected "@ + int_text(expected as int)
            + ", recieved "@ + int_text(got as int),
        Fault::IOError(s) => "IO Error: "@ + s,
        Fault::DepthExceeded => "Depth Error: nesting too deep"@,
    }
}

impl Errors {
    /// The message that describes the error.
    pub fn to_string(&self) -> (r: String)
        ensures
            r@ == error_text(self@),
    {
        let mut out = String::new();
        match self {
            Errors::TypeError => push_text(&mut out, "Type Error"),
            Errors::ParseError(s) => {
                push_text(&mut out, "Parse Error: ");
                push_text(&mut out, s.as_str());
            },
            Errors::SymbolNotFound(s) => {
                push_text(&mut out, "Symbol ");
                push_text(&mut out, s.as_str());
                push_text(&mut out, " is undefined");
            },
            Errors::NotAFunction => push_text(&mut out, "Expected function"),
            Errors::FormError => push_text(&mut out, "Form Error"),
            Errors::ArityError(got, expected) => {
                push_text(&mut out, "Arity Error: Expected ");
                push_int(&mut out, *expected);
                push_text(&mut out, ", recieved ");
                push_int(&mut out, *got);
            },
            Errors::IOError(s) => {
                push_text(&mut out, "IO Error: ");
                push_text(&mut out, s.as_str());
            },
            Errors::DepthExceeded => push_text(&mut out, "Depth Error: nesting too deep"),
        }
        assert(out@ =~= error_text(self@));
        out
    }
}

/// The canonical text of a value.
#[allow(non_snake_case)]
pub fn PRINT(input: Value) -> (r: String)
    ensures
        r@ == render(input@),
{
    let mut out = String::new();
    render_into(&mut out, &input);
    assert(out@ =~= render(input@));
    out
}

} // verus!

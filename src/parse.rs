use vstd::prelude::*;
use crate::value::{Errors, Fault, Sexp, Value, lemma_items_view, lemma_items_view_push};

verus! {

broadcast use vstd::std_specs::vec::group_vec_axioms, vstd::seq::group_seq_axioms;

/// Whether the character is alphabetic in Unicode's sense.
pub uninterp spec fn alphabetic(c: char) -> bool;

/// Relies on char::is_alphabetic: Unicode's `Alphabetic` property of `c`,
/// a function of the character alone.
#[verifier::external_body]
fn is_alphabetic(c: char) -> (r: bool)
    ensures
        r == alphabetic(c),
{
    c.is_alphabetic()
}

pub open spec fn is_space(c: char) -> bool {
    c == ' ' || c == '\t' || c == '\r' || c == '\n'
}

pub open spec fn is_digit(c: char) -> bool {
    '0' <= c <= '9'
}

/// The characters a symbol is made of.
pub open spec fn is_symbol_char(c: char) -> bool {
    alphabetic(c) || c == '+' || c == '-' || c == '*' || c == '?' || c == '_' || c == '='
        || c == '<' || c == '>'
}

/// The position of the first character at or after `p` that is not white space.
pub open spec fn skip_space(s: Seq<char>, p: int) -> int
    decreases s.len() - p,
{
    if 0 <= p < s.len() && is_space(s[p]) {
        skip_space(s, p + 1)
    } else {
        p
    }
}

/// The end of the run of symbol characters that starts at `p`.
pub open spec fn symbol_end(s: Seq<char>, p: int) -> int
    decreases s.len() - p,
{
    if 0 <= p < s.len() && is_symbol_char(s[p]) {
        symbol_end(s, p + 1)
    } else {
        p
    }
}

/// The end of the run of decimal digits that starts at `p`.
pub open spec fn digits_end(s: Seq<char>, p: int) -> int
    decreases s.len() - p,
{
    if 0 <= p < s.len() && is_digit(s[p]) {
        digits_end(s, p + 1)
    } else {
        p
    }
}

/// The position of the first `"` at or after `p`, if there is one.
pub open spec fn quote_end(s: Seq<char>, p: int) -> Option<int>
    decreases s.len() - p,
{
    if p < 0 || p >= s.len() {
        None
    } else if s[p] == '"' {
        Some(p)
    } else {
        quote_end(s, p + 1)
    }
}

/// The number that a run of decimal digits writes.
pub open spec fn digits_value(d: Seq<char>) -> int
    decreases d.len(),
{
    if d.len() == 0 {
        0
    } else {
        10 * digits_value(d.drop_last()) + (d.last() as int - '0' as int)
    }
}

/// A word read as a keyword where it spells one, else as a symbol.
pub open spec fn word_value(w: Seq<char>) -> Sexp {
    if w == "true"@ {
        Sexp::True
    } else if w == "false"@ {
        Sexp::False
    } else if w == "nil"@ {
        Sexp::Nil
    } else if w == "define"@ {
        Sexp::Define
    } else if w == "let"@ {
        Sexp::Let
    } else if w == "do"@ {
        Sexp::Do
    } else if w == "if"@ {
        Sexp::If
    } else if w == "fn"@ {
        Sexp::Fn
    } else if w == "eval"@ {
        Sexp::Eval
    } else {
        Sexp::Symbol(w)
    }
}

/// One value read from `s` at `p`, after any white space: a string in double
/// quotes (no escapes), a decimal `i32`, a symbol or keyword, or a list in
/// parentheses. Gives the value and the position after it and after the white
/// space that follows.
pub open spec fn parse_at(s: Seq<char>, p: int) -> Option<(Sexp, int)>
    decreases s.len() - p, 0int,
{
    let q = skip_space(s, p);
    if p < 0 || q < p || q >= s.len() {
        None
    } else if s[q] == '"' {
        match quote_end(s, q + 1) {
            Some(e) => Some((Sexp::Str(s.subrange(q + 1, e)), skip_space(s, e + 1))),
            None => None,
        }
    } else if is_digit(s[q]) {
        let e = digits_end(s, q);
        let n = digits_value(s.subrange(q, e));
        if n <= i32::MAX {
            Some((Sexp::Int(n as i32), skip_space(s, e)))
        } else {
            None
        }
    } else if is_symbol_char(s[q]) {
        let e = symbol_end(s, q);
        Some((word_value(s.subrange(q, e)), skip_space(s, e)))
    } else if s[q] == '(' {
        parse_items(s, q + 1, Seq::empty())
    } else {
        None
    }
}

/// The rest of a list whose items so far are `acc`, up to its `)`.
pub open spec fn parse_items(s: Seq<char>, p: int, acc: Seq<Sexp>) -> Option<(Sexp, int)>
    decreases s.len() - p, 1int,
{
    let q = skip_space(s, p);
    if p < 0 || q < p || q >= s.len() {
        None
    } else if s[q] == ')' {
        Some((Sexp::List(acc), skip_space(s, q + 1)))
    } else {
        match parse_at(s, q) {
            Some((v, r)) => {
                if q < r <= s.len() {
                    parse_items(s, r, acc.push(v))
                } else {
                    None
                }
            },
            None => None,
        }
    }
}

/// The first value written in `s`; what follows it is ignored.
pub open spec fn read_value(s: Seq<char>) -> Option<Sexp> {
    match parse_at(s, 0) {
        Some((v, _)) => Some(v),
        None => None,
    }
}

fn is_space_char(c: char) -> (r: bool)
    ensures
        r == is_space(c),
{
    c == ' ' || c == '\t' || c == '\r' || c == '\n'
}

fn is_symbol_start(c: char) -> (r: bool)
    ensures
        r == is_symbol_char(c),
{
    is_alphabetic(c) || c == '+' || c == '-' || c == '*' || c == '?' || c == '_' || c == '='
        || c == '<' || c == '>'
}

fn skip_spaces(s: &Vec<char>, p: usize) -> (r: usize)
    requires
        p <= s@.len(),
    ensures
        r == skip_space(s@, p as int),
        p <= r <= s@.len(),
    decreases s@.len() - p,
{
    if p < s.len() && is_space_char(s[p]) {
        skip_spaces(s, p + 1)
    } else {
        p
    }
}

fn symbol_stop(s: &Vec<char>, p: usize) -> (r: usize)
    requires
        p <= s@.len(),
    ensures
        r == symbol_end(s@, p as int),
        p <= r <= s@.len(),
    decreases s@.len() - p,
{
    if p < s.len() && is_symbol_start(s[p]) {
        symbol_stop(s, p + 1)
    } else {
        p
    }
}

fn digits_stop(s: &Vec<char>, p: usize) -> (r: usize)
    requires
        p <= s@.len(),
    ensures
        r == digits_end(s@, p as int),
        p <= r <= s@.len(),
    decreases s@.len() - p,
{
    if p < s.len() && '0' <= s[p] && s[p] <= '9' {
        digits_stop(s, p + 1)
    } else {
        p
    }
}

fn quote_stop(s: &Vec<char>, p: usize) -> (r: Option<usize>)
    requires
        p <= s@.len(),
    ensures
        match r {
            Some(e) => quote_end(s@, p as int) == Some(e as int) && p <= e < s@.len(),
            None => quote_end(s@, p as int) is None,
        },
    decreases s@.len() - p,
{
    if p >= s.len() {
        None
    } else if s[p] == '"' {
        Some(p)
    } else {
        quote_stop(s, p + 1)
    }
}

fn text_of(s: &Vec<char>, from: usize, to: usize) -> (r: String)
    requires
        from <= to <= s@.len(),
    ensures
        r@ == s@.subrange(from as int, to as int),
{
    let mut r = String::new();
    let mut i: usize = from;
    while i < to
        invariant
            from <= i <= to,
            to <= s@.len(),
            r@ == s@.subrange(from as int, i as int),
        decreases to - i,
    {
        crate::render::push_char(&mut r, s[i]);
        assert(r@ =~= s@.subrange(from as int, i + 1));
        i = i + 1;
    }
    r
}

proof fn lemma_digits_grow(d: Seq<char>, c: char)
    requires
        is_digit(c),
        forall|i: int| 0 <= i < d.len() ==> is_digit(#[trigger] d[i]),
    ensures
        digits_value(d.push(c)) >= digits_value(d) >= 0,
        digits_value(d.push(c)) == 10 * digits_value(d) + (c as int - '0' as int),
    decreases d.len(),
{
    assert(d.push(c).drop_last() =~= d);
    if d.len() > 0 {
        lemma_digits_grow(d.drop_last(), d.last());
        assert(d.drop_last().push(d.last()) =~= d);
    }
}

proof fn lemma_digits_monotone(s: Seq<char>, from: int, k: int, to: int)
    requires
        0 <= from <= k <= to <= s.len(),
        forall|j: int| from <= j < to ==> is_digit(#[trigger] s[j]),
    ensures
        digits_value(s.subrange(from, to)) >= digits_value(s.subrange(from, k)),
    decreases to - k,
{
    if k < to {
        lemma_digits_monotone(s, from, k + 1, to);
        let pre = s.subrange(from, k);
        assert forall|i: int| 0 <= i < pre.len() implies is_digit(#[trigger] pre[i]) by {
            assert(pre[i] == s[from + i]);
        }
        assert(s.subrange(from, k + 1) =~= pre.push(s[k]));
        lemma_digits_grow(pre, s[k]);
    }
}

fn number_of(s: &Vec<char>, from: usize, to: usize) -> (r: Option<i32>)
    requires
        from <= to <= s@.len(),
        forall|i: int| from <= i < to ==> is_digit(#[trigger] s@[i]),
    ensures
        match r {
            Some(n) => n as int == digits_value(s@.subrange(from as int, to as int)),
            None => digits_value(s@.subrange(from as int, to as int)) > i32::MAX,
        },
{
    let mut acc: i64 = 0;
    let mut i: usize = from;
    assert(s@.subrange(from as int, from as int) =~= Seq::<char>::empty());
    while i < to
        invariant
            from <= i <= to,
            to <= s@.len(),
            forall|j: int| from <= j < to ==> is_digit(#[trigger] s@[j]),
            0 <= acc <= i32::MAX,
            acc as int == digits_value(s@.subrange(from as int, i as int)),
        decreases to - i,
    {
        let c = s[i];
        let d = (c as u32 - '0' as u32) as i64;
        proof {
            let pre = s@.subrange(from as int, i as int);
            assert(s@.subrange(from as int, i + 1) =~= pre.push(c));
            lemma_digits_grow(pre, c);
        }
        let next = acc * 10 + d;
        if next > 2147483647 {
            proof {
                lemma_digits_monotone(s@, from as int, i + 1, to as int);
            }
            return None;
        }
        acc = next;
        i = i + 1;
    }
    Some(acc as i32)
}

/// Whether `w` is the text `lit`.
fn spells(w: &String, lit: &str) -> (r: bool)
    ensures
        r == (w@ == lit@),
{
    let mut t = String::new();
    t.append(lit);
    *w == t
}

fn word_of(w: String) -> (r: Value)
    ensures
        r@ == word_value(w@),
{
    proof {
        reveal_strlit("true");
        reveal_strlit("false");
        reveal_strlit("nil");
        reveal_strlit("define");
        reveal_strlit("let");
        reveal_strlit("do");
        reveal_strlit("if");
        reveal_strlit("fn");
        reveal_strlit("eval");
    }
    if spells(&w, "true") {
        Value::True
    } else if spells(&w, "false") {
        Value::False
    } else if spells(&w, "nil") {
        Value::Nil
    } else if spells(&w, "define") {
        Value::Define
    } else if spells(&w, "let") {
        Value::Let
    } else if spells(&w, "do") {
        Value::Do
    } else if spells(&w, "if") {
        Value::If
    } else if spells(&w, "fn") {
        Value::Fn
    } else if spells(&w, "eval") {
        Value::Eval
    } else {
        Value::Symbol(w)
    }
}

/// Reads one value at `p`; see `parse_at`.
fn value_at(s: &Vec<char>, p: usize) -> (r: Option<(Value, usize)>)
    requires
        p <= s@.len(),
    ensures
        match r {
            Some((v, e)) => parse_at(s@, p as int) == Some((v@, e as int)) && e <= s@.len(),
            None => parse_at(s@, p as int) is None,
        },
    decreases s@.len() - p, 0int,
{
    let q = skip_spaces(s, p);
    if q >= s.len() {
        return None;
    }
    let c = s[q];
    if c == '"' {
        match quote_stop(s, q + 1) {
            Some(e) => {
                let text = text_of(s, q + 1, e);
                let after = skip_spaces(s, e + 1);
                Some((Value::Str(text), after))
            },
            None => None,
        }
    } else if '0' <= c && c <= '9' {
        let e = digits_stop(s, q);
        proof {
            lemma_digits_run(s@, q as int);
        }
        match number_of(s, q, e) {
            Some(n) => {
                let after = skip_spaces(s, e);
                Some((Value::Int(n), after))
            },
            None => None,
        }
    } else if is_symbol_start(c) {
        let e = symbol_stop(s, q);
        let w = text_of(s, q, e);
        let after = skip_spaces(s, e);
        Some((word_of(w), after))
    } else if c == '(' {
        let acc: Vec<Value> = Vec::new();
        proof {
            assert(Value::items_view(acc@) =~= Seq::<Sexp>::empty());
        }
        items_at(s, q + 1, acc)
    } else {
        None
    }
}

proof fn lemma_digits_run(s: Seq<char>, p: int)
    requires
        0 <= p <= s.len(),
    ensures
        p <= digits_end(s, p) <= s.len(),
        forall|j: int| p <= j < digits_end(s, p) ==> is_digit(#[trigger] s[j]),
    decreases s.len() - p,
{
    if p < s.len() && is_digit(s[p]) {
        lemma_digits_run(s, p + 1);
    }
}

/// Reads the rest of a list whose items so far are `acc`; see `parse_items`.
fn items_at(s: &Vec<char>, p: usize, acc: Vec<Value>) -> (r: Option<(Value, usize)>)
    requires
        p <= s@.len(),
    ensures
        match r {
            Some((v, e)) => parse_items(s@, p as int, Value::items_view(acc@)) == Some(
                (v@, e as int),
            ) && e <= s@.len(),
            None => parse_items(s@, p as int, Value::items_view(acc@)) is None,
        },
    decreases s@.len() - p, 1int,
{
    let q = skip_spaces(s, p);
    if q >= s.len() {
        return None;
    }
    if s[q] == ')' {
        let after = skip_spaces(s, q + 1);
        return Some((Value::List(acc), after));
    }
    match value_at(s, q) {
        Some((v, r)) => {
            if q < r && r <= s.len() {
                let mut acc = acc;
                let ghost before = acc@;
                let ghost vv = v@;
                acc.push(v);
                proof {
                    lemma_items_view_push(before, v);
                }
                items_at(s, r, acc)
            } else {
                None
            }
        },
        None => None,
    }
}

/// The characters of a string, in order.
fn chars_of(text: &str) -> (r: Vec<char>)
    ensures
        r@ == text@,
{
    let n = text.unicode_len();
    let mut r: Vec<char> = Vec::new();
    let mut i: usize = 0;
    while i < n
        invariant
            n == text@.len(),
            i <= n,
            r@ == text@.subrange(0, i as int),
        decreases n - i,
    {
        r.push(text.get_char(i));
        assert(r@ =~= text@.subrange(0, i + 1));
        i = i + 1;
    }
    assert(r@ =~= text@);
    r
}

/// Reads the first value written in `input`, ignoring what follows it.
/// Fails with `ParseError` when no value can be read there.
#[allow(non_snake_case)]
pub fn READ(input: &str) -> (r: Result<Value, Errors>)
    ensures
        match read_value(input@) {
            Some(v) => r matches Ok(x) && x@ == v,
            None => r matches Err(e) && e@ == Fault::ParseError("no value could be read"@),
        },
{
    let s = chars_of(input);
    match value_at(&s, 0) {
        Some((v, _)) => Ok(v),
        None => {
            let mut msg = String::new();
            msg.append("no value could be read");
            Err(Errors::ParseError(msg))
        },
    }
}

} // verus!

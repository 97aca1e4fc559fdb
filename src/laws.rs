use vstd::prelude::*;
use crate::env::{bind_all, env_find, env_set};
use crate::parse::{digits_end, digits_value, is_digit, parse_at, quote_end, read_value, skip_space};
use crate::render::{digit_char, int_text, nat_text, render};
use crate::repl::{parse_message, rep_spec};
use crate::semantics::{World, call, eval, if_form, quasi};
use crate::value::{Fault, Sexp, count_i32};

verus! {

/// Every atom other than a symbol evaluates to itself and changes nothing.
pub proof fn law_atoms_evaluate_to_themselves(fuel: nat, a: Sexp, w: World)
    requires
        !(a is Symbol),
        !(a is List),
    ensures
        eval(fuel, a, w) == (Ok::<Sexp, Fault>(a), w),
{
}

/// The empty list evaluates to itself in every environment.
pub proof fn law_empty_list_evaluates_to_itself(fuel: nat, w: World)
    ensures
        eval(fuel, Sexp::List(Seq::empty()), w) == (Ok::<Sexp, Fault>(Sexp::List(Seq::empty())), w),
{
}

/// A binding in a child scope hides the parent's binding of the same name;
/// once the child scope is discarded, the parent's binding is seen again.
pub proof fn law_inner_binding_shadows(
    scopes: Seq<Map<Seq<char>, Sexp>>,
    x: Seq<char>,
    v1: Sexp,
    v2: Sexp,
)
    requires
        scopes.len() >= 1,
    ensures
        ({
            let parent = env_set(scopes, x, v1);
            let child = env_set(parent.push(Map::empty()), x, v2);
            &&& env_find(child, x) == Some(v2)
            &&& child.drop_last() == parent
            &&& env_find(parent, x) == Some(v1)
        }),
{
    let parent = env_set(scopes, x, v1);
    let child = env_set(parent.push(Map::empty()), x, v2);
    assert(child.drop_last() =~= parent);
}

/// `(quote d)` gives `d` as it is, whatever `d` holds, and changes nothing.
pub proof fn law_quote_does_not_evaluate(fuel: nat, d: Sexp, w: World)
    ensures
        eval(fuel + 1, Sexp::List(seq![Sexp::Quote, d]), w) == (Ok::<Sexp, Fault>(d), w),
{
}

/// With a condition that evaluates to itself, `if` takes the then-branch
/// exactly when the condition is `True`.
pub proof fn law_only_true_is_truthy(fuel: nat, c: Sexp, a: Sexp, b: Sexp, w: World)
    requires
        !(c is Symbol),
        !(c is List),
    ensures
        eval(fuel + 1, Sexp::List(seq![Sexp::If, c, a, b]), w) == (if c is True {
            eval(fuel, a, w)
        } else {
            eval(fuel, b, w)
        }),
{
    let items = seq![Sexp::If, c, a, b];
    assert(items[0] is If);
    assert(items[1] == c && items[2] == a && items[3] == b);
    assert(eval(fuel, c, w) == (Ok::<Sexp, Fault>(c), w));
    assert(eval(fuel + 1, Sexp::List(items), w) == if_form(fuel, items, w));
}

/// Calling a closure with a number of arguments other than its number of
/// parameters fails with `ArityError(arguments, parameters)` and changes
/// nothing.
pub proof fn law_arity_mismatch(
    fuel: nat,
    params: Seq<Seq<char>>,
    body: Sexp,
    is_macro: bool,
    args: Seq<Sexp>,
    w: World,
)
    requires
        params.len() != args.len(),
    ensures
        call(fuel, seq![Sexp::Closure(params, Box::new(body), is_macro)] + args, w) == (
            Err::<Sexp, Fault>(Fault::ArityError(count_i32(args.len()), count_i32(params.len()))),
            w,
        ),
{
    let vals = seq![Sexp::Closure(params, Box::new(body), is_macro)] + args;
    assert(vals.drop_first() =~= args);
}

/// Inside a quasiquoted template, anything that is not a list (a symbol
/// included) stays as it is, unevaluated.
pub proof fn law_quasi_keeps_atoms(fuel: nat, t: Sexp, w: World)
    requires
        !(t is List),
    ensures
        quasi(fuel, t, w) == (Ok::<Sexp, Fault>(t), w),
{
}

/// Inside a quasiquoted template, a sub-list `(unquote e)` stands for the
/// value of `e`.
pub proof fn law_quasi_unquote(fuel: nat, e: Sexp, w: World)
    ensures
        quasi(fuel + 1, Sexp::List(seq![Sexp::Unquote, e]), w) == eval(fuel, e, w),
{
    let items = seq![Sexp::Unquote, e];
    assert(items[0] is Unquote && items[1] == e);
}

/// A symbol that no scope binds evaluates to `SymbolNotFound` naming it.
pub proof fn law_unbound_symbol(fuel: nat, s: Seq<char>, w: World)
    requires
        env_find(w.env, s) is None,
    ensures
        eval(fuel, Sexp::Symbol(s), w) == (Err::<Sexp, Fault>(Fault::SymbolNotFound(s)), w),
{
}

proof fn lemma_digit_char(d: nat)
    requires
        d < 10,
    ensures
        is_digit(digit_char(d)),
        digit_char(d) as int - '0' as int == d,
{
}

proof fn lemma_nat_text(n: nat)
    ensures
        nat_text(n).len() >= 1,
        forall|i: int| 0 <= i < nat_text(n).len() ==> is_digit(#[trigger] nat_text(n)[i]),
        digits_value(nat_text(n)) == n,
    decreases n,
{
    lemma_digit_char(n % 10);
    if n >= 10 {
        lemma_nat_text(n / 10);
        let t = nat_text(n);
        assert(t.drop_last() =~= nat_text(n / 10));
        assert(n == 10 * (n / 10) + n % 10) by (nonlinear_arith);
        assert(t.last() == digit_char(n % 10));
        assert(digits_value(t) == 10 * digits_value(nat_text(n / 10)) + (digit_char(n % 10) as int
            - '0' as int));
    } else {
        assert(nat_text(n).drop_last() =~= Seq::<char>::empty());
        assert(n % 10 == n);
        assert(digits_value(nat_text(n)) == 10 * digits_value(Seq::<char>::empty()) + (digit_char(
            n,
        ) as int - '0' as int));
    }
}

proof fn lemma_digits_end_all(t: Seq<char>, p: int)
    requires
        0 <= p <= t.len(),
        forall|i: int| 0 <= i < t.len() ==> is_digit(#[trigger] t[i]),
    ensures
        digits_end(t, p) == t.len(),
    decreases t.len() - p,
{
    if p < t.len() {
        lemma_digits_end_all(t, p + 1);
    }
}

/// A non-negative integer written in decimal reads, evaluates and renders
/// back to the same text.
pub proof fn law_int_round_trip(n: i32, w: World)
    requires
        n >= 0,
    ensures
        rep_spec(int_text(n as int), w) == (Ok::<Seq<char>, Fault>(int_text(n as int)), w),
{
    let t = int_text(n as int);
    lemma_nat_text(n as nat);
    lemma_digits_end_all(t, 0);
    assert(skip_space(t, 0) == 0);
    assert(skip_space(t, t.len() as int) == t.len());
    assert(t.subrange(0, t.len() as int) =~= t);
    assert(parse_at(t, 0) == Some((Sexp::Int(n), t.len() as int)));
}

proof fn lemma_quote_end(s: Seq<char>, t: Seq<char>, p: int)
    requires
        t == seq!['"'] + s + seq!['"'],
        1 <= p <= s.len() + 1,
        forall|i: int| 0 <= i < s.len() ==> #[trigger] s[i] != '"',
    ensures
        quote_end(t, p) == Some(s.len() as int + 1),
    decreases t.len() - p,
{
    if p < s.len() + 1 {
        assert(t[p] == s[p - 1]);
        lemma_quote_end(s, t, p + 1);
    }
}

/// A string without double quotes inside, written in double quotes, reads,
/// evaluates and renders back to the same text.
pub proof fn law_string_round_trip(s: Seq<char>, w: World)
    requires
        forall|i: int| 0 <= i < s.len() ==> #[trigger] s[i] != '"',
    ensures
        ({
            let t = seq!['"'] + s + seq!['"'];
            rep_spec(t, w) == (Ok::<Seq<char>, Fault>(t), w)
        }),
{
    let t = seq!['"'] + s + seq!['"'];
    lemma_quote_end(s, t, 1);
    assert(skip_space(t, 0) == 0);
    assert(skip_space(t, t.len() as int) == t.len());
    assert(t.subrange(1, s.len() as int + 1) =~= s);
    assert(parse_at(t, 0) == Some((Sexp::Str(s), t.len() as int)));
}

} // verus!

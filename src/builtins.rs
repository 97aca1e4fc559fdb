use vstd::prelude::*;
use crate::equality::{equals, bool_result_view};
use crate::parse::read_value;
use crate::render::render;
use crate::value::{
    Builtin, Errors, FResult, Fault, Sexp, Value, count_i32, copy_items, lemma_items_view,
    lemma_items_view_push, result_view, usize_to_i32,
};

verus! {

broadcast use vstd::std_specs::vec::group_vec_axioms, vstd::seq::group_seq_axioms;

/// The model of a `Console`.
pub struct Io {
    pub printed: Seq<Seq<char>>,
    pub files: Seq<(Seq<char>, Option<Seq<char>>)>,
    pub wanted: Option<Seq<char>>,
}

/// What the interpreter exchanges with the world: the lines that `prn`
/// printed, the files that have been read for `slurp` (`None` for a file that
/// could not be read), and the file that `slurp` last asked for and did not
/// find among them.
#[derive(Clone, Debug)]
pub struct Console {
    pub printed: Vec<String>,
    pub files: Vec<(String, Option<String>)>,
    pub wanted: Option<String>,
}

pub open spec fn opt_text(o: Option<String>) -> Option<Seq<char>> {
    match o {
        Some(s) => Some(s@),
        None => None,
    }
}

impl Console {
    pub open spec fn view(&self) -> Io {
        Io {
            printed: Seq::new(self.printed@.len(), |i: int| self.printed@[i]@),
            files: Seq::new(
                self.files@.len(),
                |i: int| (self.files@[i].0@, opt_text(self.files@[i].1)),
            ),
            wanted: opt_text(self.wanted),
        }
    }

    /// A console that has printed nothing and knows no file.
    pub fn new() -> (r: Console)
        ensures
            r@.printed.len() == 0,
            r@.files.len() == 0,
            r@.wanted is None,
    {
        Console { printed: Vec::new(), files: Vec::new(), wanted: None }
    }
}

/// The last entry for file `name`, if any.
pub open spec fn file_find(files: Seq<(Seq<char>, Option<Seq<char>>)>, name: Seq<char>) -> Option<
    Option<Seq<char>>,
>
    decreases files.len(),
{
    if files.len() == 0 {
        None
    } else if files.last().0 == name {
        Some(files.last().1)
    } else {
        file_find(files.drop_last(), name)
    }
}

/// The wrapping sum of the arguments, if all are integers.
pub open spec fn int_sum(args: Seq<Sexp>) -> Option<i32>
    decreases args.len(),
{
    if args.len() == 0 {
        Some(0)
    } else {
        match (int_sum(args.drop_last()), args.last()) {
            (Some(s), Sexp::Int(k)) => Some(s.wrapping_add(k)),
            _ => None,
        }
    }
}

/// The wrapping product of the arguments, if all are integers.
pub open spec fn int_product(args: Seq<Sexp>) -> Option<i32>
    decreases args.len(),
{
    if args.len() == 0 {
        Some(1)
    } else {
        match (int_product(args.drop_last()), args.last()) {
            (Some(s), Sexp::Int(k)) => Some(s.wrapping_mul(k)),
            _ => None,
        }
    }
}

/// The concatenation of the arguments, if all are strings.
pub open spec fn str_concat(args: Seq<Sexp>) -> Option<Seq<char>>
    decreases args.len(),
{
    if args.len() == 0 {
        Some(Seq::empty())
    } else {
        match (str_concat(args.drop_last()), args.last()) {
            (Some(s), Sexp::Str(t)) => Some(s + t),
            _ => None,
        }
    }
}

pub open spec fn truth(b: bool) -> Sexp {
    if b {
        Sexp::True
    } else {
        Sexp::False
    }
}

/// The remainder of `a` by `b`, truncated toward zero; a type error where
/// it is undefined (`b` zero, or `i32::MIN` by `-1`).
pub open spec fn modulo(args: Seq<Sexp>) -> Result<Sexp, Fault> {
    if args.len() == 0 {
        Err(Fault::ArityError(0, 2))
    } else if !(args[0] is Int) {
        Err(Fault::TypeError)
    } else if args.len() == 1 {
        Err(Fault::ArityError(1, 2))
    } else if !(args[1] is Int) {
        Err(Fault::TypeError)
    } else {
        match args[0]->Int_0.checked_rem(args[1]->Int_0) {
            Some(r) => Ok(Sexp::Int(r)),
            None => Err(Fault::TypeError),
        }
    }
}

/// What a builtin that neither prints nor reads files gives on `args`.
pub open spec fn pure_builtin(b: Builtin, args: Seq<Sexp>) -> Result<Sexp, Fault> {
    match b {
        Builtin::Plus => match int_sum(args) {
            Some(s) => Ok(Sexp::Int(s)),
            None => Err(Fault::TypeError),
        },
        Builtin::Mult => match int_product(args) {
            Some(s) => Ok(Sexp::Int(s)),
            None => Err(Fault::TypeError),
        },
        Builtin::Mod => modulo(args),
        Builtin::List => Ok(Sexp::List(args)),
        Builtin::ListP => if args.len() == 0 {
            Err(Fault::ArityError(0, 1))
        } else {
            Ok(truth(args[0] is List))
        },
        Builtin::Empty => if args.len() == 0 {
            Err(Fault::ArityError(0, 1))
        } else {
            match args[0] {
                Sexp::List(items) => Ok(truth(items.len() == 0)),
                _ => Err(Fault::TypeError),
            }
        },
        Builtin::Count => if args.len() == 0 {
            Err(Fault::ArityError(0, 1))
        } else {
            match args[0] {
                Sexp::List(items) => Ok(Sexp::Int(count_i32(items.len()))),
                _ => Err(Fault::TypeError),
            }
        },
        Builtin::Read => if args.len() == 0 {
            Err(Fault::ArityError(0, 1))
        } else {
            match args[0] {
                Sexp::Str(s) => match read_value(s) {
                    Some(v) => Ok(v),
                    None => Err(Fault::TypeError),
                },
                _ => Err(Fault::TypeError),
            }
        },
        Builtin::Equals => if args.len() == 0 {
            Err(Fault::ArityError(0, 2))
        } else if args.len() == 1 {
            Err(Fault::ArityError(1, 2))
        } else {
            match equals(args[0], args[1]) {
                Ok(b) => Ok(truth(b)),
                Err(e) => Err(e),
            }
        },
        Builtin::Str => match str_concat(args) {
            Some(s) => Ok(Sexp::Str(s)),
            None => Err(Fault::TypeError),
        },
        Builtin::Cons => if args.len() != 2 {
            Err(Fault::ArityError(count_i32(args.len()), 2))
        } else {
            match args[1] {
                Sexp::List(items) => Ok(Sexp::List(seq![args[0]] + items)),
                _ => Err(Fault::TypeError),
            }
        },
        Builtin::First => if args.len() == 0 {
            Err(Fault::ArityError(0, 1))
        } else {
            match args[0] {
                Sexp::List(items) => if items.len() > 0 {
                    Ok(items[0])
                } else {
                    Ok(Sexp::Nil)
                },
                _ => Err(Fault::TypeError),
            }
        },
        Builtin::Rest => if args.len() == 0 {
            Err(Fault::ArityError(0, 1))
        } else {
            match args[0] {
                Sexp::List(items) => if items.len() > 0 {
                    Ok(Sexp::List(items.drop_first()))
                } else {
                    Ok(Sexp::List(items))
                },
                _ => Err(Fault::TypeError),
            }
        },
        // these two touch the console; see `apply_builtin`
        Builtin::Prn => Ok(Sexp::Nil),
        Builtin::Slurp => Err(Fault::TypeError),
    }
}

/// What a builtin gives on `args`, and the console after it: `prn` adds the
/// text of its argument to the printed lines; `slurp` gives the contents of a
/// file that has been read, or `IOError` naming it, and records a file that
/// has not been read yet as wanted.
pub open spec fn apply_builtin(b: Builtin, args: Seq<Sexp>, io: Io) -> (Result<Sexp, Fault>, Io) {
    match b {
        Builtin::Prn => if args.len() == 0 {
            (Err(Fault::ArityError(0, 1)), io)
        } else {
            (Ok(Sexp::Nil), Io { printed: io.printed.push(render(args[0])), ..io })
        },
        Builtin::Slurp => if args.len() == 0 {
            (Err(Fault::ArityError(0, 1)), io)
        } else {
            match args[0] {
                Sexp::Str(name) => match file_find(io.files, name) {
                    Some(Some(text)) => (Ok(Sexp::Str(text)), io),
                    Some(None) => (Err(Fault::IOError(name)), io),
                    None => (Err(Fault::IOError(name)), Io { wanted: Some(name), ..io }),
                },
                _ => (Err(Fault::TypeError), io),
            }
        },
        _ => (pure_builtin(b, args), io),
    }
}

proof fn lemma_sum_stays_none(s: Seq<Sexp>, k: int, j: int)
    requires
        0 <= k <= j <= s.len(),
        int_sum(s.subrange(0, k)) is None,
    ensures
        int_sum(s.subrange(0, j)) is None,
    decreases j - k,
{
    if k < j {
        lemma_sum_stays_none(s, k, j - 1);
        assert(s.subrange(0, j).drop_last() =~= s.subrange(0, j - 1));
    }
}

proof fn lemma_product_stays_none(s: Seq<Sexp>, k: int, j: int)
    requires
        0 <= k <= j <= s.len(),
        int_product(s.subrange(0, k)) is None,
    ensures
        int_product(s.subrange(0, j)) is None,
    decreases j - k,
{
    if k < j {
        lemma_product_stays_none(s, k, j - 1);
        assert(s.subrange(0, j).drop_last() =~= s.subrange(0, j - 1));
    }
}

proof fn lemma_concat_stays_none(s: Seq<Sexp>, k: int, j: int)
    requires
        0 <= k <= j <= s.len(),
        str_concat(s.subrange(0, k)) is None,
    ensures
        str_concat(s.subrange(0, j)) is None,
    decreases j - k,
{
    if k < j {
        lemma_concat_stays_none(s, k, j - 1);
        assert(s.subrange(0, j).drop_last() =~= s.subrange(0, j - 1));
    }
}

fn plus(args: &Vec<Value>) -> (r: FResult)
    ensures
        result_view(r) == pure_builtin(Builtin::Plus, Value::items_view(args@)),
{
    let ghost av = Value::items_view(args@);
    proof {
        lemma_items_view(args@);
        assert(av.subrange(0, 0) =~= Seq::<Sexp>::empty());
    }
    let mut sum: i32 = 0;
    let mut i: usize = 0;
    while i < args.len()
        invariant
            i <= args@.len(),
            av == Value::items_view(args@),
            av.len() == args@.len(),
            forall|j: int| 0 <= j < args@.len() ==> #[trigger] av[j] == args@[j]@,
            int_sum(av.subrange(0, i as int)) == Some(sum),
        decreases args@.len() - i,
    {
        proof {
            assert(av.subrange(0, i + 1).drop_last() =~= av.subrange(0, i as int));
        }
        match &args[i] {
            Value::Int(k) => {
                sum = sum.wrapping_add(*k);
            },
            _ => {
                proof {
                    lemma_sum_stays_none(av, i + 1, av.len() as int);
                    assert(av.subrange(0, av.len() as int) =~= av);
                }
                return Err(Errors::TypeError);
            },
        }
        i = i + 1;
    }
    assert(av.subrange(0, i as int) =~= av);
    Ok(Value::Int(sum))
}

fn mult(args: &Vec<Value>) -> (r: FResult)
    ensures
        result_view(r) == pure_builtin(Builtin::Mult, Value::items_view(args@)),
{
    let ghost av = Value::items_view(args@);
    proof {
        lemma_items_view(args@);
        assert(av.subrange(0, 0) =~= Seq::<Sexp>::empty());
    }
    let mut product: i32 = 1;
    let mut i: usize = 0;
    while i < args.len()
        invariant
            i <= args@.len(),
            av == Value::items_view(args@),
            av.len() == args@.len(),
            forall|j: int| 0 <= j < args@.len() ==> #[trigger] av[j] == args@[j]@,
            int_product(av.subrange(0, i as int)) == Some(product),
        decreases args@.len() - i,
    {
        proof {
            assert(av.subrange(0, i + 1).drop_last() =~= av.subrange(0, i as int));
        }
        match &args[i] {
            Value::Int(k) => {
                product = product.wrapping_mul(*k);
            },
            _ => {
                proof {
                    lemma_product_stays_none(av, i + 1, av.len() as int);
                    assert(av.subrange(0, av.len() as int) =~= av);
                }
                return Err(Errors::TypeError);
            },
        }
        i = i + 1;
    }
    assert(av.subrange(0, i as int) =~= av);
    Ok(Value::Int(product))
}

fn string(args: &Vec<Value>) -> (r: FResult)
    ensures
        result_view(r) == pure_builtin(Builtin::Str, Value::items_view(args@)),
{
    let ghost av = Value::items_view(args@);
    proof {
        lemma_items_view(args@);
        assert(av.subrange(0, 0) =~= Seq::<Sexp>::empty());
    }
    let mut text = String::new();
    let mut i: usize = 0;
    while i < args.len()
        invariant
            i <= args@.len(),
            av == Value::items_view(args@),
            av.len() == args@.len(),
            forall|j: int| 0 <= j < args@.len() ==> #[trigger] av[j] == args@[j]@,
            str_concat(av.subrange(0, i as int)) == Some(text@),
        decreases args@.len() - i,
    {
        proof {
            assert(av.subrange(0, i + 1).drop_last() =~= av.subrange(0, i as int));
        }
        match &args[i] {
            Value::Str(t) => {
                text.append(t.as_str());
            },
            _ => {
                proof {
                    lemma_concat_stays_none(av, i + 1, av.len() as int);
                    assert(av.subrange(0, av.len() as int) =~= av);
                }
                return Err(Errors::TypeError);
            },
        }
        i = i + 1;
    }
    assert(av.subrange(0, i as int) =~= av);
    Ok(Value::Str(text))
}

fn modulo_of(args: &Vec<Value>) -> (r: FResult)
    ensures
        result_view(r) == pure_builtin(Builtin::Mod, Value::items_view(args@)),
{
    proof {
        lemma_items_view(args@);
    }
    if args.len() == 0 {
        return Err(Errors::ArityError(0, 2));
    }
    let a = match &args[0] {
        Value::Int(a) => *a,
        _ => {
            return Err(Errors::TypeError);
        },
    };
    if args.len() == 1 {
        return Err(Errors::ArityError(1, 2));
    }
    let b = match &args[1] {
        Value::Int(b) => *b,
        _ => {
            return Err(Errors::TypeError);
        },
    };
    match a.checked_rem(b) {
        Some(r) => Ok(Value::Int(r)),
        None => Err(Errors::TypeError),
    }
}

fn truth_value(b: bool) -> (r: Value)
    ensures
        r@ == truth(b),
{
    if b {
        Value::True
    } else {
        Value::False
    }
}

/// Runs a builtin on evaluated arguments; see `apply_builtin`.
pub fn apply(b: Builtin, args: Vec<Value>, io: &mut Console) -> (r: FResult)
    ensures
        (result_view(r), final(io)@) == apply_builtin(b, Value::items_view(args@), old(io)@),
{
    let ghost av = Value::items_view(args@);
    proof {
        lemma_items_view(args@);
    }
    match b {
        Builtin::Plus => plus(&args),
        Builtin::Mult => mult(&args),
        Builtin::Mod => modulo_of(&args),
        Builtin::Str => string(&args),
        Builtin::List => Ok(Value::List(args)),
        Builtin::Prn => {
            if args.len() == 0 {
                return Err(Errors::ArityError(0, 1));
            }
            let line = args[0].to_string();
            io.printed.push(line);
            proof {
                assert(final(io)@.printed =~= old(io)@.printed.push(render(av[0])));
                assert(final(io)@.files =~= old(io)@.files);
            }
            Ok(Value::Nil)
        },
        Builtin::Slurp => {
            if args.len() == 0 {
                return Err(Errors::ArityError(0, 1));
            }
            match &args[0] {
                Value::Str(name) => slurp(name, io),
                _ => Err(Errors::TypeError),
            }
        },
        Builtin::ListP => {
            if args.len() == 0 {
                return Err(Errors::ArityError(0, 1));
            }
            match &args[0] {
                Value::List(_) => Ok(Value::True),
                _ => Ok(Value::False),
            }
        },
        Builtin::Empty => {
            if args.len() == 0 {
                return Err(Errors::ArityError(0, 1));
            }
            match &args[0] {
                Value::List(items) => {
                    proof {
                        lemma_items_view(items@);
                    }
                    Ok(truth_value(items.len() == 0))
                },
                _ => Err(Errors::TypeError),
            }
        },
        Builtin::Count => {
            if args.len() == 0 {
                return Err(Errors::ArityError(0, 1));
            }
            match &args[0] {
                Value::List(items) => {
                    proof {
                        lemma_items_view(items@);
                    }
                    Ok(Value::Int(usize_to_i32(items.len())))
                },
                _ => Err(Errors::TypeError),
            }
        },
        Builtin::Read => {
            if args.len() == 0 {
                return Err(Errors::ArityError(0, 1));
            }
            match &args[0] {
                Value::Str(s) => match crate::parse::READ(s.as_str()) {
                    Ok(v) => Ok(v),
                    Err(_) => Err(Errors::TypeError),
                },
                _ => Err(Errors::TypeError),
            }
        },
        Builtin::Equals => {
            if args.len() == 0 {
                return Err(Errors::ArityError(0, 2));
            }
            if args.len() == 1 {
                return Err(Errors::ArityError(1, 2));
            }
            match Value::equals(&args[0], &args[1]) {
                Ok(b) => Ok(truth_value(b)),
                Err(e) => Err(e),
            }
        },
        Builtin::Cons => {
            if args.len() != 2 {
                return Err(Errors::ArityError(usize_to_i32(args.len()), 2));
            }
            match &args[1] {
                Value::List(items) => {
                    let mut joined: Vec<Value> = Vec::new();
                    joined.push(args[0].deep_copy());
                    let mut i: usize = 0;
                    proof {
                        lemma_items_view(items@);
                    }
                    while i < items.len()
                        invariant
                            i <= items@.len(),
                            joined@.len() == i + 1,
                            args@.len() == 2,
                            av == Value::items_view(args@),
                            joined@[0]@ == args@[0]@,
                            forall|j: int| 1 <= j <= i ==> #[trigger] joined@[j]@ == items@[j - 1]@,
                        decreases items@.len() - i,
                    {
                        joined.push(items[i].deep_copy());
                        i = i + 1;
                    }
                    proof {
                        lemma_items_view(joined@);
                        lemma_items_view(items@);
                        lemma_items_view(args@);
                        let iv = Value::items_view(items@);
                        assert(Value::items_view(joined@) =~= seq![av[0]] + iv);
                    }
                    Ok(Value::List(joined))
                },
                _ => Err(Errors::TypeError),
            }
        },
        Builtin::First => {
            if args.len() == 0 {
                return Err(Errors::ArityError(0, 1));
            }
            match &args[0] {
                Value::List(items) => {
                    proof {
                        lemma_items_view(items@);
                    }
                    if items.len() > 0 {
                        Ok(items[0].deep_copy())
                    } else {
                        Ok(Value::Nil)
                    }
                },
                _ => Err(Errors::TypeError),
            }
        },
        Builtin::Rest => {
            if args.len() == 0 {
                return Err(Errors::ArityError(0, 1));
            }
            match &args[0] {
                Value::List(items) => {
                    let mut tail: Vec<Value> = Vec::new();
                    let mut i: usize = 1;
                    proof {
                        lemma_items_view(items@);
                    }
                    while i < items.len()
                        invariant
                            1 <= i,
                            i <= items@.len() || i == 1,
                            tail@.len() == i - 1,
                            forall|j: int| 0 <= j < i - 1 ==> #[trigger] tail@[j]@ == items@[j + 1]@,
                        decreases items@.len() - i,
                    {
                        tail.push(items[i].deep_copy());
                        i = i + 1;
                    }
                    proof {
                        lemma_items_view(tail@);
                        lemma_items_view(items@);
                        let iv = Value::items_view(items@);
                        if items@.len() > 0 {
                            assert(Value::items_view(tail@) =~= iv.drop_first());
                        } else {
                            assert(Value::items_view(tail@) =~= iv);
                        }
                    }
                    Ok(Value::List(tail))
                },
                _ => Err(Errors::TypeError),
            }
        },
    }
}

/// The contents of file `name` as far as the console knows them.
fn slurp(name: &String, io: &mut Console) -> (r: FResult)
    ensures
        (result_view(r), final(io)@) == apply_builtin(
            Builtin::Slurp,
            seq![Sexp::Str(name@)],
            old(io)@,
        ),
{
    let ghost files = old(io)@.files;
    let mut i: usize = io.files.len();
    assert(files.subrange(0, i as int) =~= files);
    while i > 0
        invariant
            i <= io.files@.len(),
            io@ == old(io)@,
            files == io@.files,
            files.len() == io.files@.len(),
            file_find(files, name@) == file_find(files.subrange(0, i as int), name@),
        decreases i,
    {
        proof {
            let sub = files.subrange(0, i as int);
            assert(sub.drop_last() =~= files.subrange(0, i - 1));
            assert(sub.last() == files[i - 1]);
        }
        if io.files[i - 1].0 == *name {
            return match &io.files[i - 1].1 {
                Some(text) => Ok(Value::Str(text.clone())),
                None => Err(Errors::IOError(name.clone())),
            };
        }
        i = i - 1;
    }
    io.wanted = Some(name.clone());
    proof {
        assert(final(io)@.printed =~= old(io)@.printed);
        assert(final(io)@.files =~= old(io)@.files);
    }
    Err(Errors::IOError(name.clone()))
}

} // verus!

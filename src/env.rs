use vstd::prelude::*;
use crate::value::{
    Errors, FResult, Fault, Sexp, Value, count_i32, lemma_items_view, result_view, strings_view,
    usize_to_i32,
};

verus! {

broadcast use vstd::std_specs::vec::group_vec_axioms, vstd::seq::group_seq_axioms;

/// The bindings of one scope as a sequence of entries; a later entry for a
/// name hides an earlier one.
pub open spec fn scope_find(s: Seq<(Seq<char>, Sexp)>, k: Seq<char>) -> Option<Sexp>
    decreases s.len(),
{
    if s.len() == 0 {
        None
    } else if s.last().0 == k {
        Some(s.last().1)
    } else {
        scope_find(s.drop_last(), k)
    }
}

/// The scope's entries read as a map from names to values.
pub open spec fn scope_map(s: Seq<(Seq<char>, Sexp)>) -> Map<Seq<char>, Sexp> {
    Map::new(|k: Seq<char>| scope_find(s, k) is Some, |k: Seq<char>| scope_find(s, k).unwrap())
}

/// Lookup through a chain of scopes, innermost (last) first.
pub open spec fn env_find(scopes: Seq<Map<Seq<char>, Sexp>>, k: Seq<char>) -> Option<Sexp>
    decreases scopes.len(),
{
    if scopes.len() == 0 {
        None
    } else if scopes.last().contains_key(k) {
        Some(scopes.last()[k])
    } else {
        env_find(scopes.drop_last(), k)
    }
}

/// Binds `k` to `v` in the innermost scope.
pub open spec fn env_set(scopes: Seq<Map<Seq<char>, Sexp>>, k: Seq<char>, v: Sexp) -> Seq<
    Map<Seq<char>, Sexp>,
> {
    scopes.update(scopes.len() - 1, scopes.last().insert(k, v))
}

/// What a lookup of `k` gives: the value, or `SymbolNotFound` naming `k`.
pub open spec fn lookup_result(scopes: Seq<Map<Seq<char>, Sexp>>, k: Seq<char>) -> Result<
    Sexp,
    Fault,
> {
    match env_find(scopes, k) {
        Some(v) => Ok(v),
        None => Err(Fault::SymbolNotFound(k)),
    }
}

pub open spec fn entries_view(s: Seq<(String, Value)>) -> Seq<(Seq<char>, Sexp)> {
    Seq::new(s.len(), |i: int| (s[i].0@, s[i].1@))
}

/// Binds each name to the value at the same position, in order, in the
/// innermost scope.
pub open spec fn bind_all(
    scopes: Seq<Map<Seq<char>, Sexp>>,
    names: Seq<Seq<char>>,
    vals: Seq<Sexp>,
) -> Seq<Map<Seq<char>, Sexp>>
    decreases names.len(),
{
    if names.len() == 0 || vals.len() == 0 {
        scopes
    } else {
        env_set(bind_all(scopes, names.drop_last(), vals.drop_last()), names.last(), vals.last())
    }
}

/// A chain of scopes. The first scope is the outermost; `set` writes into the
/// last one, and lookups search from the last one outwards.
#[derive(Debug)]
pub struct Env {
    scopes: Vec<Vec<(String, Value)>>,
}

proof fn lemma_find_absent(s: Seq<(Seq<char>, Sexp)>, k: Seq<char>)
    requires
        forall|j: int| 0 <= j < s.len() ==> #[trigger] s[j].0 != k,
    ensures
        scope_find(s, k) is None,
    decreases s.len(),
{
    if s.len() > 0 {
        lemma_find_absent(s.drop_last(), k);
    }
}

proof fn lemma_find_at(s: Seq<(Seq<char>, Sexp)>, k: Seq<char>, i: int)
    requires
        0 <= i < s.len(),
        s[i].0 == k,
        forall|j: int| i < j < s.len() ==> #[trigger] s[j].0 != k,
    ensures
        scope_find(s, k) == Some(s[i].1),
    decreases s.len(),
{
    if i < s.len() - 1 {
        lemma_find_at(s.drop_last(), k, i);
    }
}

proof fn lemma_find_push(s: Seq<(Seq<char>, Sexp)>, k: Seq<char>, v: Sexp)
    ensures
        scope_map(s.push((k, v))) == scope_map(s).insert(k, v),
{
    assert(s.push((k, v)).drop_last() =~= s);
    assert(scope_map(s.push((k, v))) =~= scope_map(s).insert(k, v));
}

proof fn lemma_find_update(s: Seq<(Seq<char>, Sexp)>, k: Seq<char>, v: Sexp, i: int, k2: Seq<char>)
    requires
        0 <= i < s.len(),
        s[i].0 == k,
        forall|j: int| i < j < s.len() ==> #[trigger] s[j].0 != k,
    ensures
        scope_find(s.update(i, (k, v)), k2) == (if k2 == k {
            Some(v)
        } else {
            scope_find(s, k2)
        }),
    decreases s.len(),
{
    let t = s.update(i, (k, v));
    if i < s.len() - 1 {
        assert(t.drop_last() =~= s.drop_last().update(i, (k, v)));
        lemma_find_update(s.drop_last(), k, v, i, k2);
    } else {
        assert(t.drop_last() =~= s.drop_last());
    }
}

proof fn lemma_map_update(s: Seq<(Seq<char>, Sexp)>, k: Seq<char>, v: Sexp, i: int)
    requires
        0 <= i < s.len(),
        s[i].0 == k,
        forall|j: int| i < j < s.len() ==> #[trigger] s[j].0 != k,
    ensures
        scope_map(s.update(i, (k, v))) == scope_map(s).insert(k, v),
{
    assert forall|k2: Seq<char>| true implies scope_find(s.update(i, (k, v)), k2) == (if k2 == k {
        Some(v)
    } else {
        scope_find(s, k2)
    }) by {
        lemma_find_update(s, k, v, i, k2);
    }
    assert(scope_map(s.update(i, (k, v))) =~= scope_map(s).insert(k, v));
}

/// The position of the last entry named `k`, if any.
fn position(entries: &Vec<(String, Value)>, k: &String) -> (r: Option<usize>)
    ensures
        match r {
            None => scope_find(entries_view(entries@), k@) is None,
            Some(i) => {
                &&& i < entries@.len()
                &&& entries@[i as int].0@ == k@
                &&& forall|j: int| i < j < entries@.len() ==> #[trigger] entries@[j].0@ != k@
            },
        },
{
    let mut i: usize = entries.len();
    while i > 0
        invariant
            i <= entries@.len(),
            forall|j: int| i <= j < entries@.len() ==> #[trigger] entries@[j].0@ != k@,
        decreases i,
    {
        if entries[i - 1].0 == *k {
            return Some(i - 1);
        }
        i = i - 1;
    }
    proof {
        let ev = entries_view(entries@);
        assert forall|j: int| 0 <= j < ev.len() implies #[trigger] ev[j].0 != k@ by {
            assert(entries@[j].0@ != k@);
        }
        lemma_find_absent(ev, k@);
    }
    None
}

impl Env {
    pub closed spec fn view(&self) -> Seq<Map<Seq<char>, Sexp>> {
        Seq::new(self.scopes@.len(), |i: int| scope_map(entries_view(self.scopes@[i]@)))
    }

    /// There is always at least one scope.
    pub open spec fn wf(&self) -> bool {
        self@.len() >= 1
    }

    /// A fresh environment: one empty scope.
    pub fn new() -> (r: Env)
        ensures
            r.wf(),
            r@ == seq![Map::<Seq<char>, Sexp>::empty()],
    {
        let mut scopes: Vec<Vec<(String, Value)>> = Vec::new();
        scopes.push(Vec::new());
        let r = Env { scopes };
        assert(scope_map(entries_view(r.scopes@[0]@)) =~= Map::<Seq<char>, Sexp>::empty());
        assert(r@ =~= seq![Map::<Seq<char>, Sexp>::empty()]);
        r
    }

    /// Looks `symbol` up, innermost scope first.
    pub fn lookup(&self, symbol: String) -> (r: FResult)
        requires
            self.wf(),
        ensures
            result_view(r) == lookup_result(self@, symbol@),
    {
        let mut i: usize = self.scopes.len();
        assert(self@.subrange(0, i as int) =~= self@);
        while i > 0
            invariant
                i <= self.scopes@.len(),
                self@.len() == self.scopes@.len(),
                env_find(self@, symbol@) == env_find(self@.subrange(0, i as int), symbol@),
            decreases i,
        {
            let scope = &self.scopes[i - 1];
            match position(scope, &symbol) {
                Some(j) => {
                    proof {
                        let ev = entries_view(scope@);
                        lemma_find_at(ev, symbol@, j as int);
                        let sub = self@.subrange(0, i as int);
                        assert(sub.last() == scope_map(ev));
                    }
                    return Ok(scope[j].1.deep_copy());
                },
                None => {
                    proof {
                        let sub = self@.subrange(0, i as int);
                        assert(sub.drop_last() =~= self@.subrange(0, i - 1));
                        assert(!sub.last().contains_key(symbol@));
                    }
                },
            }
            i = i - 1;
        }
        Err(Errors::SymbolNotFound(symbol))
    }

    /// Binds `symbol` to `v` in the innermost scope, replacing any binding of
    /// it there.
    pub fn set(&mut self, symbol: String, v: Value)
        requires
            old(self).wf(),
        ensures
            final(self).wf(),
            final(self)@ == env_set(old(self)@, symbol@, v@),
    {
        let last = self.scopes.len() - 1;
        let ghost k = symbol@;
        let ghost vv = v@;
        let ghost old_entries = self.scopes@[last as int]@;
        let mut scope = match self.scopes.pop() {
            Some(scope) => scope,
            None => Vec::new(),
        };
        match position(&scope, &symbol) {
            Some(j) => {
                proof {
                    let ev = entries_view(scope@);
                    lemma_map_update(ev, k, vv, j as int);
                }
                scope.set(j, (symbol, v));
                proof {
                    assert(entries_view(scope@) =~= entries_view(old_entries).update(j as int, (k, vv)));
                }
            },
            None => {
                scope.push((symbol, v));
                proof {
                    let ev = entries_view(old_entries);
                    assert(entries_view(scope@) =~= ev.push((k, vv)));
                    lemma_find_push(ev, k, vv);
                }
            },
        }
        self.scopes.push(scope);
        proof {
            assert(final(self)@ =~= env_set(old(self)@, k, vv));
        }
    }
}

impl Env {
    /// A copy of the environment, scope by scope.
    pub fn deep_copy(&self) -> (r: Env)
        ensures
            r@ == self@,
    {
        let mut scopes: Vec<Vec<(String, Value)>> = Vec::new();
        let mut i: usize = 0;
        while i < self.scopes.len()
            invariant
                i <= self.scopes@.len(),
                scopes@.len() == i,
                forall|j: int|
                    0 <= j < i ==> entries_view(#[trigger] scopes@[j]@) == entries_view(
                        self.scopes@[j]@,
                    ),
            decreases self.scopes@.len() - i,
        {
            let src = &self.scopes[i];
            let mut entries: Vec<(String, Value)> = Vec::new();
            let mut k: usize = 0;
            while k < src.len()
                invariant
                    k <= src@.len(),
                    entries@.len() == k,
                    forall|j: int|
                        0 <= j < k ==> (#[trigger] entries@[j]).0@ == src@[j].0@ && entries@[j].1@
                            == src@[j].1@,
                decreases src@.len() - k,
            {
                entries.push((src[k].0.clone(), src[k].1.deep_copy()));
                k = k + 1;
            }
            assert(entries_view(entries@) =~= entries_view(src@));
            scopes.push(entries);
            i = i + 1;
        }
        let r = Env { scopes };
        assert(r@ =~= self@);
        r
    }

    /// Opens a new, empty innermost scope.
    pub fn push_scope(&mut self)
        requires
            old(self).wf(),
        ensures
            final(self).wf(),
            final(self)@ == old(self)@.push(Map::empty()),
    {
        self.scopes.push(Vec::new());
        proof {
            let n = self.scopes@.len() - 1;
            assert(scope_map(entries_view(self.scopes@[n]@)) =~= Map::<Seq<char>, Sexp>::empty());
            assert(final(self)@ =~= old(self)@.push(Map::empty()));
        }
    }

    /// Discards the innermost scope, when there is an enclosing one.
    pub fn pop_scope(&mut self)
        requires
            old(self).wf(),
        ensures
            final(self).wf(),
            final(self)@ == (if old(self)@.len() > 1 {
                old(self)@.drop_last()
            } else {
                old(self)@
            }),
    {
        if self.scopes.len() > 1 {
            self.scopes.pop();
            assert(final(self)@ =~= old(self)@.drop_last());
        }
    }

    /// An environment whose innermost scope is new and empty, and whose
    /// enclosing scopes are those of `old`.
    pub fn push(old: Env) -> (r: Env)
        requires
            old.wf(),
        ensures
            r.wf(),
            r@ == old@.push(Map::empty()),
    {
        let mut n = old;
        n.push_scope();
        n
    }

    /// The enclosing environment of `child`: its innermost scope discarded.
    /// An environment of one scope is returned as it is.
    pub fn pop(child: Env) -> (r: Env)
        requires
            child.wf(),
        ensures
            r.wf(),
            r@ == (if child@.len() > 1 {
                child@.drop_last()
            } else {
                child@
            }),
    {
        let mut n = child;
        n.pop_scope();
        n
    }

    /// Binds the names to the values one to one in the innermost scope.
    /// Fails with `ArityError(values, names)` when the counts differ, and then
    /// binds nothing.
    pub fn add_all(&mut self, ss: Vec<String>, vs: Vec<Value>) -> (r: Result<(), Errors>)
        requires
            old(self).wf(),
        ensures
            final(self).wf(),
            final(self)@.len() == old(self)@.len(),
            ss@.len() != vs@.len() ==> r == Err::<(), Errors>(
                Errors::ArityError(count_i32(vs@.len()), count_i32(ss@.len())),
            ) && final(self)@ == old(self)@,
            ss@.len() == vs@.len() ==> r is Ok && final(self)@ == bind_all(
                old(self)@,
                strings_view(ss@),
                Value::items_view(vs@),
            ),
    {
        if ss.len() != vs.len() {
            return Err(Errors::ArityError(usize_to_i32(vs.len()), usize_to_i32(ss.len())));
        }
        let ghost names = strings_view(ss@);
        let ghost vals = Value::items_view(vs@);
        proof {
            lemma_items_view(vs@);
        }
        let mut i: usize = 0;
        while i < ss.len()
            invariant
                i <= ss@.len(),
                ss@.len() == vs@.len(),
                names == strings_view(ss@),
                vals == Value::items_view(vs@),
                vals.len() == vs@.len(),
                forall|j: int| 0 <= j < vs@.len() ==> #[trigger] vals[j] == vs@[j]@,
                self.wf(),
                self@.len() == old(self)@.len(),
                self@ == bind_all(old(self)@, names.subrange(0, i as int), vals.subrange(0, i as int)),
            decreases ss@.len() - i,
        {
            self.set(ss[i].clone(), vs[i].deep_copy());
            proof {
                let n2 = names.subrange(0, i + 1);
                let v2 = vals.subrange(0, i + 1);
                assert(n2.drop_last() =~= names.subrange(0, i as int));
                assert(v2.drop_last() =~= vals.subrange(0, i as int));
            }
            i = i + 1;
        }
        proof {
            assert(names.subrange(0, i as int) =~= names);
            assert(vals.subrange(0, i as int) =~= vals);
        }
        Ok(())
    }
}

} // verus!

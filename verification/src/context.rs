//! The evaluation context: a stack of scopes, innermost last, over one flat
//! table of user-defined functions.
//!
//! Scoping is dynamic. A variable read searches the scopes from the
//! innermost outward; an assignment overwrites the innermost existing
//! binding and falls back to defining the name in the innermost scope.
//! Each scope is an association sequence from names to numbers, read by
//! first match.

use vstd::prelude::*;
use vstd::pervasive::VecAdditionalExecFns;
use crate::ast::{UfV, UserFunction, name_ascii};
use crate::number::{NumV, Number};

verus! {

/// One scope: an association of names to values, read by first match.
pub open spec fn assoc_num(f: Seq<(Seq<u8>, NumV)>, k: Seq<u8>) -> Option<NumV>
    decreases f.len(),
{
    if f.len() == 0 {
        None
    } else if f[0].0 == k {
        Some(f[0].1)
    } else {
        assoc_num(f.subrange(1, f.len() as int), k)
    }
}

/// A scope with `k` bound to `v`: the first binding of `k` is overwritten,
/// or a new binding appended.
pub open spec fn frame_put(f: Seq<(Seq<u8>, NumV)>, k: Seq<u8>, v: NumV) -> Seq<(Seq<u8>, NumV)>
    decreases f.len(),
{
    if f.len() == 0 {
        seq![(k, v)]
    } else if f[0].0 == k {
        seq![(k, v)] + f.subrange(1, f.len() as int)
    } else {
        seq![f[0]] + frame_put(f.subrange(1, f.len() as int), k, v)
    }
}

/// The variable a read finds: the scopes are searched innermost (last)
/// outward.
pub open spec fn lookup_var(ss: Seq<Seq<(Seq<u8>, NumV)>>, k: Seq<u8>) -> Option<NumV>
    decreases ss.len(),
{
    if ss.len() == 0 {
        None
    } else {
        match assoc_num(ss.last(), k) {
            Some(v) => Some(v),
            None => lookup_var(ss.drop_last(), k),
        }
    }
}

/// The scopes after overwriting the innermost existing binding of `k`.
pub open spec fn update_var(ss: Seq<Seq<(Seq<u8>, NumV)>>, k: Seq<u8>, v: NumV) -> Seq<
    Seq<(Seq<u8>, NumV)>,
>
    decreases ss.len(),
{
    if ss.len() == 0 {
        ss
    } else if assoc_num(ss.last(), k) is Some {
        ss.drop_last().push(frame_put(ss.last(), k, v))
    } else {
        update_var(ss.drop_last(), k, v).push(ss.last())
    }
}

/// The scopes after a forced definition of `k` in the innermost scope.
pub open spec fn define_var_spec(ss: Seq<Seq<(Seq<u8>, NumV)>>, k: Seq<u8>, v: NumV) -> Seq<
    Seq<(Seq<u8>, NumV)>,
> {
    ss.drop_last().push(frame_put(ss.last(), k, v))
}

/// The scopes after an assignment: overwrite the innermost existing
/// binding wherever one exists, else define in the innermost scope.
pub open spec fn set_var_spec(ss: Seq<Seq<(Seq<u8>, NumV)>>, k: Seq<u8>, v: NumV) -> Seq<
    Seq<(Seq<u8>, NumV)>,
> {
    if lookup_var(ss, k) is Some {
        update_var(ss, k, v)
    } else {
        define_var_spec(ss, k, v)
    }
}

/// The function table, read by first match.
pub open spec fn assoc_fn(fs: Seq<(Seq<u8>, UfV)>, k: Seq<u8>) -> Option<UfV>
    decreases fs.len(),
{
    if fs.len() == 0 {
        None
    } else if fs[0].0 == k {
        Some(fs[0].1)
    } else {
        assoc_fn(fs.subrange(1, fs.len() as int), k)
    }
}

/// The function table with `k` bound to `u`.
pub open spec fn fn_put(fs: Seq<(Seq<u8>, UfV)>, k: Seq<u8>, u: UfV) -> Seq<(Seq<u8>, UfV)>
    decreases fs.len(),
{
    if fs.len() == 0 {
        seq![(k, u)]
    } else if fs[0].0 == k {
        seq![(k, u)] + fs.subrange(1, fs.len() as int)
    } else {
        seq![fs[0]] + fn_put(fs.subrange(1, fs.len() as int), k, u)
    }
}

/// The view of a context.
pub struct CtxV {
    pub scopes: Seq<Seq<(Seq<u8>, NumV)>>,
    pub funcs: Seq<(Seq<u8>, UfV)>,
}

/// The evaluation context: the scope stack and the function table. The
/// global scope is the first entry and is never popped.
#[derive(Debug)]
pub struct Context {
    pub scopes: Vec<Vec<(Vec<u8>, Number)>>,
    pub functions: Vec<(Vec<u8>, UserFunction)>,
}

pub open spec fn frame_v(f: Seq<(Vec<u8>, Number)>) -> Seq<(Seq<u8>, NumV)> {
    f.map_values(|p: (Vec<u8>, Number)| (p.0@, p.1@))
}

impl View for Context {
    type V = CtxV;

    open spec fn view(&self) -> CtxV {
        CtxV {
            scopes: self.scopes@.map_values(|f: Vec<(Vec<u8>, Number)>| frame_v(f@)),
            funcs: self.functions@.map_values(|p: (Vec<u8>, UserFunction)| (p.0@, p.1@)),
        }
    }
}

impl Context {
    /// There is always a global scope, every stored number is well-formed,
    /// and every stored name is an ASCII word.
    pub open spec fn wf(&self) -> bool {
        &&& self.scopes@.len() >= 1
        &&& forall|i: int, j: int|
            0 <= i < self.scopes@.len() && 0 <= j < self.scopes@[i]@.len() ==> {
                &&& (#[trigger] self.scopes@[i]@[j]).1.wf()
                &&& name_ascii(self.scopes@[i]@[j].0@)
            }
        &&& forall|i: int|
            0 <= i < self.functions@.len() ==> {
                &&& (#[trigger] self.functions@[i]).1.wf()
                &&& name_ascii(self.functions@[i].0@)
            }
    }
}

/// Whether two byte words are equal.
pub fn bytes_eq(a: &Vec<u8>, b: &Vec<u8>) -> (r: bool)
    ensures
        r == (a@ == b@),
{
    if a.len() != b.len() {
        return false;
    }
    let mut i: usize = 0;
    while i < a.len()
        invariant
            i <= a@.len(),
            a@.len() == b@.len(),
            forall|k: int| 0 <= k < i ==> a@[k] == b@[k],
        decreases a@.len() - i,
    {
        if a[i] != b[i] {
            return false;
        }
        i = i + 1;
    }
    proof {
        assert(a@ =~= b@);
    }
    true
}

/// The index of the first binding of `k` in a scope, if any, with what the
/// association then reads.
fn frame_find(f: &Vec<(Vec<u8>, Number)>, k: &Vec<u8>) -> (r: Option<usize>)
    ensures
        match r {
            Some(i) => {
                &&& i < f@.len()
                &&& f@[i as int].0@ == k@
                &&& forall|j: int| 0 <= j < i ==> f@[j].0@ != k@
                &&& assoc_num(frame_v(f@), k@) == Some(f@[i as int].1@)
            },
            None => assoc_num(frame_v(f@), k@) is None,
        },
{
    let mut i: usize = 0;
    proof {
        assert(frame_v(f@).subrange(0, f@.len() as int) =~= frame_v(f@));
    }
    while i < f.len()
        invariant
            i <= f@.len(),
            forall|j: int| 0 <= j < i ==> f@[j].0@ != k@,
            assoc_num(frame_v(f@), k@) == assoc_num(frame_v(f@).subrange(i as int, f@.len() as int), k@),
        decreases f@.len() - i,
    {
        let ghost pre = frame_v(f@).subrange(i as int, f@.len() as int);
        if bytes_eq(&f[i].0, k) {
            proof {
                assert(pre[0] == frame_v(f@)[i as int]);
            }
            return Some(i);
        }
        proof {
            assert(pre[0] == frame_v(f@)[i as int]);
            assert(pre.subrange(1, pre.len() as int) =~= frame_v(f@).subrange(
                i + 1 as int,
                f@.len() as int,
            ));
        }
        i = i + 1;
    }
    proof {
        assert(frame_v(f@).subrange(f@.len() as int, f@.len() as int) =~= Seq::<
            (Seq<u8>, NumV),
        >::empty());
    }
    None
}

/// Overwriting the first binding at its index is what `frame_put` does.
proof fn lemma_frame_put_at(fr: Seq<(Seq<u8>, NumV)>, k: Seq<u8>, v: NumV, i: int)
    requires
        0 <= i < fr.len(),
        fr[i].0 == k,
        forall|j: int| 0 <= j < i ==> fr[j].0 != k,
    ensures
        frame_put(fr, k, v) == fr.update(i, (k, v)),
    decreases i,
{
    if i == 0 {
        assert(seq![(k, v)] + fr.subrange(1, fr.len() as int) =~= fr.update(0, (k, v)));
    } else {
        let tail = fr.subrange(1, fr.len() as int);
        lemma_frame_put_at(tail, k, v, i - 1);
        assert(seq![fr[0]] + tail.update(i - 1, (k, v)) =~= fr.update(i, (k, v)));
    }
}

/// Appending a fresh binding is what `frame_put` does when the name is
/// absent.
proof fn lemma_frame_put_absent(fr: Seq<(Seq<u8>, NumV)>, k: Seq<u8>, v: NumV)
    requires
        assoc_num(fr, k) is None,
    ensures
        frame_put(fr, k, v) == fr.push((k, v)),
    decreases fr.len(),
{
    if fr.len() == 0 {
        assert(seq![(k, v)] =~= fr.push((k, v)));
    } else {
        let tail = fr.subrange(1, fr.len() as int);
        lemma_frame_put_absent(tail, k, v);
        assert(seq![fr[0]] + tail.push((k, v)) =~= fr.push((k, v)));
    }
}

/// Where the topmost scope holding `k` has index `i`, the innermost-first
/// search reads that scope, and overwriting rewrites it in place.
proof fn lemma_scopes_at(ss: Seq<Seq<(Seq<u8>, NumV)>>, k: Seq<u8>, v: NumV, i: int)
    requires
        0 <= i < ss.len(),
        assoc_num(ss[i], k) is Some,
        forall|j: int| i < j < ss.len() ==> assoc_num(#[trigger] ss[j], k) is None,
    ensures
        lookup_var(ss, k) == assoc_num(ss[i], k),
        update_var(ss, k, v) == ss.update(i, frame_put(ss[i], k, v)),
    decreases ss.len(),
{
    if i == ss.len() - 1 {
        assert(ss.drop_last().push(frame_put(ss.last(), k, v)) =~= ss.update(
            i,
            frame_put(ss[i], k, v),
        ));
    } else {
        lemma_scopes_at(ss.drop_last(), k, v, i);
        assert(ss.drop_last()[i] == ss[i]);
        assert(update_var(ss.drop_last(), k, v).push(ss.last()) =~= ss.update(
            i,
            frame_put(ss[i], k, v),
        ));
    }
}

/// Where no scope holds `k`, the search finds nothing.
proof fn lemma_scopes_none(ss: Seq<Seq<(Seq<u8>, NumV)>>, k: Seq<u8>)
    requires
        forall|j: int| 0 <= j < ss.len() ==> assoc_num(#[trigger] ss[j], k) is None,
    ensures
        lookup_var(ss, k) is None,
    decreases ss.len(),
{
    if ss.len() > 0 {
        lemma_scopes_none(ss.drop_last(), k);
    }
}

impl Context {
    /// A fresh context: one empty global scope and no user functions.
    pub fn new() -> (r: Context)
        ensures
            r.wf(),
            r@.scopes =~~= seq![Seq::<(Seq<u8>, NumV)>::empty()],
            r@.funcs =~= Seq::<(Seq<u8>, UfV)>::empty(),
    {
        let mut scopes: Vec<Vec<(Vec<u8>, Number)>> = Vec::new();
        scopes.push(Vec::new());
        let r = Context { scopes, functions: Vec::new() };
        proof {
            assert(r@.scopes =~~= seq![Seq::<(Seq<u8>, NumV)>::empty()]);
            assert(r@.funcs =~= Seq::<(Seq<u8>, UfV)>::empty());
        }
        r
    }

    /// The value of a variable, searching the scopes innermost outward.
    pub fn get_var(&self, name: &Vec<u8>) -> (r: Option<Number>)
        requires
            self.wf(),
        ensures
            match r {
                Some(n) => lookup_var(self@.scopes, name@) == Some(n@) && n.wf(),
                None => lookup_var(self@.scopes, name@) is None,
            },
    {
        let ghost ssv = self@.scopes;
        let mut i = self.scopes.len();
        proof {
            assert(ssv.subrange(0, ssv.len() as int) =~= ssv);
        }
        while i > 0
            invariant
                self.wf(),
                i <= self.scopes@.len(),
                ssv == self@.scopes,
                lookup_var(ssv, name@) == lookup_var(ssv.subrange(0, i as int), name@),
            decreases i,
        {
            i = i - 1;
            let ghost part = ssv.subrange(0, i + 1 as int);
            proof {
                assert(part.last() == ssv[i as int]);
                assert(part.drop_last() =~= ssv.subrange(0, i as int));
                assert(ssv[i as int] == frame_v(self.scopes@[i as int]@));
            }
            match frame_find(&self.scopes[i], name) {
                Some(j) => {
                    let found = &self.scopes[i];
                    return Some(found[j].1.dup());
                },
                None => {},
            }
        }
        proof {
            assert(ssv.subrange(0, 0) =~= Seq::<Seq<(Seq<u8>, NumV)>>::empty());
        }
        None
    }

    /// Assignment: overwrite the innermost existing binding of the name,
    /// or define it in the innermost scope where none exists.
    pub fn set_var(&mut self, name: Vec<u8>, value: Number)
        requires
            old(self).wf(),
            value.wf(),
            name_ascii(name@),
        ensures
            final(self).wf(),
            final(self)@.scopes == set_var_spec(old(self)@.scopes, name@, value@),
            final(self)@.funcs == old(self)@.funcs,
            final(self)@.scopes.len() == old(self)@.scopes.len(),
    {
        let ghost ssv = self@.scopes;
        let mut i = self.scopes.len();
        let mut target = self.scopes.len() - 1;
        let mut found_any = false;
        while i > 0 && !found_any
            invariant
                self.wf(),
                i <= self.scopes@.len(),
                ssv == self@.scopes,
                !found_any ==> forall|j: int|
                    i <= j < ssv.len() ==> assoc_num(#[trigger] ssv[j], name@) is None,
                found_any ==> i < ssv.len() && target == i && assoc_num(ssv[i as int], name@) is Some
                    && (forall|j: int|
                    i < j < ssv.len() ==> assoc_num(#[trigger] ssv[j], name@) is None),
            decreases i,
        {
            i = i - 1;
            proof {
                assert(ssv[i as int] == frame_v(self.scopes@[i as int]@));
            }
            if frame_find(&self.scopes[i], &name).is_some() {
                found_any = true;
                target = i;
            }
        }
        if !found_any {
            target = self.scopes.len() - 1;
            proof {
                lemma_scopes_none(ssv, name@);
            }
        }
        let ghost old_frame = ssv[target as int];
        let mut tmp: Vec<(Vec<u8>, Number)> = Vec::new();
        self.scopes.set_and_swap(target, &mut tmp);
        match frame_find(&tmp, &name) {
            Some(j) => {
                proof {
                    lemma_frame_put_at(frame_v(tmp@), name@, value@, j as int);
                }
                tmp.set(j, (name, value));
            },
            None => {
                proof {
                    lemma_frame_put_absent(frame_v(tmp@), name@, value@);
                }
                tmp.push((name, value));
            },
        }
        proof {
            assert(frame_v(tmp@) =~= frame_put(old_frame, name@, value@));
        }
        self.scopes.set_and_swap(target, &mut tmp);
        proof {
            assert(self@.scopes =~= ssv.update(
                target as int,
                frame_put(old_frame, name@, value@),
            ));
            if found_any {
                lemma_scopes_at(ssv, name@, value@, target as int);
            } else {
                assert(ssv.update(ssv.len() - 1, frame_put(old_frame, name@, value@))
                    =~= define_var_spec(ssv, name@, value@));
            }
            assert(self@.funcs =~= old(self)@.funcs);
        }
    }

    /// Forced definition in the innermost scope, as parameter binding
    /// requires.
    pub fn define_var(&mut self, name: Vec<u8>, value: Number)
        requires
            old(self).wf(),
            value.wf(),
            name_ascii(name@),
        ensures
            final(self).wf(),
            final(self)@.scopes == define_var_spec(old(self)@.scopes, name@, value@),
            final(self)@.funcs == old(self)@.funcs,
            final(self)@.scopes.len() == old(self)@.scopes.len(),
    {
        let ghost ssv = self@.scopes;
        let target = self.scopes.len() - 1;
        let ghost old_frame = ssv[target as int];
        let mut tmp: Vec<(Vec<u8>, Number)> = Vec::new();
        self.scopes.set_and_swap(target, &mut tmp);
        match frame_find(&tmp, &name) {
            Some(j) => {
                proof {
                    lemma_frame_put_at(frame_v(tmp@), name@, value@, j as int);
                }
                tmp.set(j, (name, value));
            },
            None => {
                proof {
                    lemma_frame_put_absent(frame_v(tmp@), name@, value@);
                }
                tmp.push((name, value));
            },
        }
        proof {
            assert(frame_v(tmp@) =~= frame_put(old_frame, name@, value@));
        }
        self.scopes.set_and_swap(target, &mut tmp);
        proof {
            assert(self@.scopes =~= define_var_spec(ssv, name@, value@));
            assert(self@.funcs =~= old(self)@.funcs);
        }
    }

    /// A new innermost scope.
    pub fn push_scope(&mut self)
        requires
            old(self).wf(),
        ensures
            final(self).wf(),
            final(self)@.scopes == old(self)@.scopes.push(Seq::<(Seq<u8>, NumV)>::empty()),
            final(self)@.funcs == old(self)@.funcs,
    {
        self.scopes.push(Vec::new());
        proof {
            assert(self@.scopes =~~= old(self)@.scopes.push(Seq::<(Seq<u8>, NumV)>::empty()));
            assert(self@.funcs =~= old(self)@.funcs);
        }
    }

    /// Drops the innermost scope; the global scope is never dropped.
    pub fn pop_scope(&mut self)
        requires
            old(self).wf(),
        ensures
            final(self).wf(),
            old(self)@.scopes.len() > 1 ==> final(self)@.scopes == old(self)@.scopes.drop_last(),
            old(self)@.scopes.len() <= 1 ==> final(self)@.scopes == old(self)@.scopes,
            final(self)@.funcs == old(self)@.funcs,
    {
        if self.scopes.len() > 1 {
            self.scopes.pop();
            proof {
                assert(self@.scopes =~= old(self)@.scopes.drop_last());
                assert(self@.funcs =~= old(self)@.funcs);
            }
        }
    }

    /// The user function of that name, copied out of the table.
    pub fn get_function(&self, name: &Vec<u8>) -> (r: Option<UserFunction>)
        requires
            self.wf(),
        ensures
            match r {
                Some(u) => assoc_fn(self@.funcs, name@) == Some(u@) && u.wf(),
                None => assoc_fn(self@.funcs, name@) is None,
            },
    {
        let ghost fv = self@.funcs;
        let mut i: usize = 0;
        proof {
            assert(fv.subrange(0, fv.len() as int) =~= fv);
        }
        while i < self.functions.len()
            invariant
                self.wf(),
                i <= self.functions@.len(),
                fv == self@.funcs,
                assoc_fn(fv, name@) == assoc_fn(fv.subrange(i as int, fv.len() as int), name@),
            decreases self.functions@.len() - i,
        {
            let ghost pre = fv.subrange(i as int, fv.len() as int);
            proof {
                assert(pre[0] == fv[i as int]);
                assert(pre.subrange(1, pre.len() as int) =~= fv.subrange(
                    i + 1 as int,
                    fv.len() as int,
                ));
            }
            if bytes_eq(&self.functions[i].0, name) {
                let found = &self.functions[i];
                return Some(found.1.dup());
            }
            i = i + 1;
        }
        proof {
            assert(fv.subrange(fv.len() as int, fv.len() as int) =~= Seq::<
                (Seq<u8>, UfV),
            >::empty());
        }
        None
    }

    /// Defines or redefines a function; definitions are global and the
    /// table only grows or is overwritten.
    pub fn def_function(&mut self, name: Vec<u8>, f: UserFunction)
        requires
            old(self).wf(),
            f.wf(),
            name_ascii(name@),
        ensures
            final(self).wf(),
            final(self)@.funcs == fn_put(old(self)@.funcs, name@, f@),
            final(self)@.scopes == old(self)@.scopes,
    {
        let ghost fv = self@.funcs;
        let mut i: usize = 0;
        while i < self.functions.len()
            invariant
                self.wf(),
                i <= self.functions@.len(),
                fv == self@.funcs,
                fv == old(self)@.funcs,
                self@.scopes == old(self)@.scopes,
                f.wf(),
                name_ascii(name@),
                forall|j: int| 0 <= j < i ==> fv[j].0 != name@,
            decreases self.functions@.len() - i,
        {
            if bytes_eq(&self.functions[i].0, &name) {
                proof {
                    lemma_fn_put_at(fv, name@, f@, i as int);
                }
                self.functions.set(i, (name, f));
                proof {
                    assert forall|j: int| 0 <= j < self@.funcs.len() implies self@.funcs[j]
                        == fn_put(fv, name@, f@)[j] by {
                        assert(self@.funcs[j] == (self.functions@[j].0@, self.functions@[j].1@));
                    }
                    assert(self@.funcs =~= fn_put(fv, name@, f@));
                    assert(self@.scopes =~= old(self)@.scopes);
                }
                return ;
            }
            i = i + 1;
        }
        proof {
            assert forall|j: int| 0 <= j < fv.len() implies fv[j].0 != name@ by {}
            lemma_fn_put_absent(fv, name@, f@);
        }
        self.functions.push((name, f));
        proof {
            assert forall|j: int| 0 <= j < self@.funcs.len() implies self@.funcs[j] == fn_put(
                fv,
                name@,
                f@,
            )[j] by {
                assert(self@.funcs[j] == (self.functions@[j].0@, self.functions@[j].1@));
            }
            assert(self@.funcs =~= fn_put(fv, name@, f@));
            assert(self@.scopes =~= old(self)@.scopes);
        }
    }
}

/// Overwriting the first table entry at its index is what `fn_put` does.
proof fn lemma_fn_put_at(fs: Seq<(Seq<u8>, UfV)>, k: Seq<u8>, u: UfV, i: int)
    requires
        0 <= i < fs.len(),
        fs[i].0 == k,
        forall|j: int| 0 <= j < i ==> fs[j].0 != k,
    ensures
        fn_put(fs, k, u) == fs.update(i, (k, u)),
    decreases i,
{
    if i == 0 {
        assert(seq![(k, u)] + fs.subrange(1, fs.len() as int) =~= fs.update(0, (k, u)));
    } else {
        let tail = fs.subrange(1, fs.len() as int);
        lemma_fn_put_at(tail, k, u, i - 1);
        assert(seq![fs[0]] + tail.update(i - 1, (k, u)) =~= fs.update(i, (k, u)));
    }
}

/// Appending a fresh table entry is what `fn_put` does when the name is
/// absent.
proof fn lemma_fn_put_absent(fs: Seq<(Seq<u8>, UfV)>, k: Seq<u8>, u: UfV)
    requires
        forall|j: int| 0 <= j < fs.len() ==> fs[j].0 != k,
    ensures
        fn_put(fs, k, u) == fs.push((k, u)),
    decreases fs.len(),
{
    if fs.len() == 0 {
        assert(seq![(k, u)] =~= fs.push((k, u)));
    } else {
        let tail = fs.subrange(1, fs.len() as int);
        assert forall|j: int| 0 <= j < tail.len() implies tail[j].0 != k by {
            assert(tail[j] == fs[j + 1]);
        }
        lemma_fn_put_absent(tail, k, u);
        assert(seq![fs[0]] + tail.push((k, u)) =~= fs.push((k, u)));
    }
}

} // verus!

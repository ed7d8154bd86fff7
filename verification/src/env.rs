//! The variable store of the interpreter: a mapping from byte-string names to
//! byte-string values, plus the current directory. Assignment statements write
//! it, substitution and the directory-relative builtins read it.

use vstd::prelude::*;

verus! {

/// One `name=value` binding, produced by the lexer when it recognizes an
/// assignment and applied to an [`Env`] when its statement runs.
pub struct EnvAssign {
    pub lvalue: Vec<u8>,
    pub rvalue: Vec<u8>,
}

impl EnvAssign {
    pub fn new(lvalue: Vec<u8>, rvalue: Vec<u8>) -> (r: Self)
        ensures
            r.lvalue@ == lvalue@,
            r.rvalue@ == rvalue@,
    {
        Self { lvalue, rvalue }
    }
}

/// The pairs of a variable list, as mathematical byte strings.
pub open spec fn pairs_view(s: Seq<(Vec<u8>, Vec<u8>)>) -> Seq<(Seq<u8>, Seq<u8>)> {
    s.map_values(|p: (Vec<u8>, Vec<u8>)| (p.0@, p.1@))
}

/// The bindings of [`EnvAssign`]s, as mathematical byte strings.
pub open spec fn assigns_view(s: Seq<EnvAssign>) -> Seq<(Seq<u8>, Seq<u8>)> {
    s.map_values(|a: EnvAssign| (a.lvalue@, a.rvalue@))
}

/// The map that a list of bindings denotes; a later binding for the same name
/// overrides an earlier one.
pub open spec fn map_of(s: Seq<(Seq<u8>, Seq<u8>)>) -> Map<Seq<u8>, Seq<u8>>
    decreases s.len(),
{
    if s.len() == 0 {
        Map::empty()
    } else {
        map_of(s.drop_last()).insert(s.last().0, s.last().1)
    }
}

/// No two bindings share a name.
pub open spec fn unique_keys(s: Seq<(Seq<u8>, Seq<u8>)>) -> bool {
    forall|i: int, j: int| 0 <= i < j < s.len() ==> s[i].0 != s[j].0
}

/// The value of variable `k` in `m`: an unset variable reads as the empty
/// byte string.
pub open spec fn env_lookup(m: Map<Seq<u8>, Seq<u8>>, k: Seq<u8>) -> Seq<u8> {
    if m.contains_key(k) {
        m[k]
    } else {
        Seq::empty()
    }
}

pub proof fn lemma_pairs_view_push(s: Seq<(Vec<u8>, Vec<u8>)>, p: (Vec<u8>, Vec<u8>))
    ensures
        pairs_view(s.push(p)) == pairs_view(s).push((p.0@, p.1@)),
{
    assert forall|j: int| 0 <= j < s.len() + 1 implies pairs_view(s.push(p))[j] == pairs_view(
        s,
    ).push((p.0@, p.1@))[j] by {
        if j < s.len() {
            assert(s.push(p)[j] == s[j]);
        } else {
            assert(s.push(p)[j] == p);
        }
    }
    assert(pairs_view(s.push(p)) =~= pairs_view(s).push((p.0@, p.1@)));
}

pub proof fn lemma_assigns_view_push(s: Seq<EnvAssign>, a: EnvAssign)
    ensures
        assigns_view(s.push(a)) == assigns_view(s).push((a.lvalue@, a.rvalue@)),
{
    assert forall|j: int| 0 <= j < s.len() + 1 implies assigns_view(s.push(a))[j] == assigns_view(
        s,
    ).push((a.lvalue@, a.rvalue@))[j] by {
        if j < s.len() {
            assert(s.push(a)[j] == s[j]);
        } else {
            assert(s.push(a)[j] == a);
        }
    }
    assert(assigns_view(s.push(a)) =~= assigns_view(s).push((a.lvalue@, a.rvalue@)));
}

proof fn lemma_map_of_contains(s: Seq<(Seq<u8>, Seq<u8>)>, k: Seq<u8>)
    ensures
        map_of(s).contains_key(k) <==> exists|i: int| 0 <= i < s.len() && s[i].0 == k,
    decreases s.len(),
{
    if s.len() > 0 {
        lemma_map_of_contains(s.drop_last(), k);
        if s.last().0 != k && map_of(s).contains_key(k) {
            let i = choose|i: int| 0 <= i < s.drop_last().len() && s.drop_last()[i].0 == k;
            assert(s[i].0 == k);
        }
        if exists|i: int| 0 <= i < s.len() && s[i].0 == k {
            let i = choose|i: int| 0 <= i < s.len() && s[i].0 == k;
            if i < s.len() - 1 {
                assert(s.drop_last()[i].0 == k);
            }
        }
    }
}

proof fn lemma_map_of_index(s: Seq<(Seq<u8>, Seq<u8>)>, i: int)
    requires
        unique_keys(s),
        0 <= i < s.len(),
    ensures
        map_of(s).contains_key(s[i].0),
        map_of(s)[s[i].0] == s[i].1,
    decreases s.len(),
{
    if i == s.len() - 1 {
    } else {
        assert(s.drop_last()[i] == s[i]);
        lemma_map_of_index(s.drop_last(), i);
        assert(s[i].0 != s.last().0);
    }
}

proof fn lemma_map_of_update(s: Seq<(Seq<u8>, Seq<u8>)>, i: int, v: Seq<u8>)
    requires
        unique_keys(s),
        0 <= i < s.len(),
    ensures
        map_of(s.update(i, (s[i].0, v))) == map_of(s).insert(s[i].0, v),
    decreases s.len(),
{
    let k = s[i].0;
    let t = s.update(i, (k, v));
    if i == s.len() - 1 {
        assert(t.drop_last() =~= s.drop_last());
        assert(map_of(t) =~= map_of(s).insert(k, v));
    } else {
        assert(t.drop_last() =~= s.drop_last().update(i, (k, v)));
        assert(s.drop_last()[i] == s[i]);
        lemma_map_of_update(s.drop_last(), i, v);
        assert(k != s.last().0);
        assert(map_of(t) =~= map_of(s).insert(k, v));
    }
}

/// The interpreter's environment: mutable variables and the current
/// directory. Created once at start, mutated by assignment statements and the
/// directory-change builtin, read by substitution and path-relative builtins.
pub struct Env {
    vars: Vec<(Vec<u8>, Vec<u8>)>,
    dir: Vec<u8>,
}

impl View for Env {
    type V = Map<Seq<u8>, Seq<u8>>;

    closed spec fn view(&self) -> Map<Seq<u8>, Seq<u8>> {
        map_of(pairs_view(self.vars@))
    }
}

impl Env {
    /// Every stored name is bound at most once.
    pub closed spec fn wf(&self) -> bool {
        unique_keys(pairs_view(self.vars@))
    }

    /// The stored bindings in insertion order.
    pub closed spec fn pairs(&self) -> Seq<(Seq<u8>, Seq<u8>)> {
        pairs_view(self.vars@)
    }

    /// The current directory, as a byte-string path.
    pub closed spec fn dir_spec(&self) -> Seq<u8> {
        self.dir@
    }

    pub fn new() -> (r: Self)
        ensures
            r.wf(),
            r@ == Map::<Seq<u8>, Seq<u8>>::empty(),
            r.dir_spec() == Seq::<u8>::empty(),
    {
        Self { vars: Vec::new(), dir: Vec::new() }
    }

    /// Bind `k` to `v`, replacing any earlier binding of `k`.
    pub fn set(&mut self, k: Vec<u8>, v: Vec<u8>)
        requires
            old(self).wf(),
        ensures
            final(self).wf(),
            final(self)@ == old(self)@.insert(k@, v@),
            final(self).dir_spec() == old(self).dir_spec(),
    {
        let n = self.vars.len();
        let mut i: usize = 0;
        while i < n
            invariant
                *self == *old(self),
                old(self).wf(),
                n == self.vars.len(),
                0 <= i <= n,
                forall|j: int| 0 <= j < i ==> self.vars@[j].0@ != k@,
            decreases n - i,
        {
            if bytes_eq(&self.vars[i].0, &k) {
                let ghost p = pairs_view(self.vars@);
                proof {
                    assert(p[i as int].0 == k@);
                    lemma_map_of_update(p, i as int, v@);
                }
                let pair = (k, v);
                let ghost pk = (pair.0@, pair.1@);
                self.vars[i] = pair;
                proof {
                    assert forall|j: int| 0 <= j < self.vars@.len() implies pairs_view(
                        self.vars@,
                    )[j] == p.update(i as int, pk)[j] by {
                        assert(pairs_view(self.vars@)[j] == (self.vars@[j].0@, self.vars@[j].1@));
                        assert(p[j] == (old(self).vars@[j].0@, old(self).vars@[j].1@));
                    }
                    assert(pairs_view(self.vars@) =~= p.update(i as int, pk));
                }
                return ;
            }
            i += 1;
        }
        let ghost p = pairs_view(self.vars@);
        let pair = (k, v);
        let ghost pk = (pair.0@, pair.1@);
        proof {
            lemma_pairs_view_push(self.vars@, pair);
        }
        self.vars.push(pair);
        proof {
            assert(pairs_view(self.vars@) == p.push(pk));
            assert(p.push(pk).drop_last() =~= p);
            assert(p.push(pk).last() == pk);
            assert forall|j: int| 0 <= j < p.len() implies p[j].0 != k@ by {
                assert(p[j] == (old(self).vars@[j].0@, old(self).vars@[j].1@));
            }
        }
    }

    /// Read variable `k`; an unset variable reads as the empty byte string.
    pub fn get(&self, k: Vec<u8>) -> (r: Vec<u8>)
        requires
            self.wf(),
        ensures
            r@ == env_lookup(self@, k@),
    {
        let n = self.vars.len();
        let mut i: usize = 0;
        while i < n
            invariant
                self.wf(),
                n == self.vars.len(),
                0 <= i <= n,
                forall|j: int| 0 <= j < i ==> self.vars@[j].0@ != k@,
            decreases n - i,
        {
            if bytes_eq(&self.vars[i].0, &k) {
                proof {
                    assert(pairs_view(self.vars@)[i as int].0 == k@);
                    lemma_map_of_index(pairs_view(self.vars@), i as int);
                }
                let r = self.vars[i].1.clone();
                proof {
                    assert(r@ =~= self.vars@[i as int].1@);
                }
                return r;
            }
            i += 1;
        }
        proof {
            lemma_map_of_contains(pairs_view(self.vars@), k@);
            assert(forall|j: int|
                0 <= j < pairs_view(self.vars@).len() ==> pairs_view(self.vars@)[j].0 != k@);
        }
        Vec::new()
    }

    /// The stored bindings followed by the given ones: the variable set that a
    /// spawned command sees, its own assignments overriding inherited values.
    pub fn with_assigns(&self, assigns: Vec<EnvAssign>) -> (r: Vec<(Vec<u8>, Vec<u8>)>)
        ensures
            pairs_view(r@) == self.pairs() + assigns_view(assigns@),
    {
        let mut r: Vec<(Vec<u8>, Vec<u8>)> = Vec::new();
        let n = self.vars.len();
        let mut i: usize = 0;
        while i < n
            invariant
                n == self.vars.len(),
                0 <= i <= n,
                pairs_view(r@) =~= pairs_view(self.vars@.subrange(0, i as int)),
            decreases n - i,
        {
            let k = self.vars[i].0.clone();
            let v = self.vars[i].1.clone();
            proof {
                assert(k@ =~= self.vars@[i as int].0@);
                assert(v@ =~= self.vars@[i as int].1@);
                lemma_pairs_view_push(r@, (k, v));
            }
            r.push((k, v));
            i += 1;
            proof {
                let s = self.vars@;
                assert(s.subrange(0, i as int) =~= s.subrange(0, i - 1).push(s[i - 1]));
                lemma_pairs_view_push(s.subrange(0, i - 1), s[i - 1]);
                assert(pairs_view(r@) =~= pairs_view(s.subrange(0, i as int)));
            }
        }
        proof {
            assert(self.vars@.subrange(0, n as int) =~= self.vars@);
        }
        let m = assigns.len();
        let mut j: usize = 0;
        while j < m
            invariant
                m == assigns.len(),
                0 <= j <= m,
                pairs_view(r@) =~= self.pairs() + assigns_view(assigns@.subrange(0, j as int)),
            decreases m - j,
        {
            let a = &assigns[j];
            let k = a.lvalue.clone();
            let v = a.rvalue.clone();
            proof {
                assert(k@ =~= assigns@[j as int].lvalue@);
                assert(v@ =~= assigns@[j as int].rvalue@);
                lemma_pairs_view_push(r@, (k, v));
            }
            r.push((k, v));
            j += 1;
            proof {
                let s = assigns@;
                assert(s.subrange(0, j as int) =~= s.subrange(0, j - 1).push(s[j - 1]));
                lemma_assigns_view_push(s.subrange(0, j - 1), s[j - 1]);
                assert(pairs_view(r@) =~= self.pairs() + assigns_view(s.subrange(0, j as int)));
            }
        }
        proof {
            assert(assigns@.subrange(0, m as int) =~= assigns@);
        }
        r
    }

    /// Replace the current directory.
    pub fn set_dir(&mut self, dir: Vec<u8>)
        ensures
            final(self).dir_spec() == dir@,
            final(self)@ == old(self)@,
            final(self).wf() == old(self).wf(),
            final(self).pairs() == old(self).pairs(),
    {
        self.dir = dir;
    }

    /// Read the current directory.
    pub fn get_dir(&self) -> (r: Vec<u8>)
        ensures
            r@ == self.dir_spec(),
    {
        let r = self.dir.clone();
        proof {
            assert(r@ =~= self.dir@);
        }
        r
    }
}

/// Byte-for-byte equality of two byte vectors.
pub fn bytes_eq(a: &Vec<u8>, b: &Vec<u8>) -> (r: bool)
    ensures
        r == (a@ == b@),
{
    if a.len() != b.len() {
        proof {
            assert(a@.len() != b@.len());
        }
        return false;
    }
    let n = a.len();
    let mut i: usize = 0;
    while i < n
        invariant
            n == a.len() == b.len(),
            0 <= i <= n,
            forall|j: int| 0 <= j < i ==> a@[j] == b@[j],
        decreases n - i,
    {
        if a[i] != b[i] {
            return false;
        }
        i += 1;
    }
    proof {
        assert(a@ =~= b@);
    }
    true
}

} // verus!

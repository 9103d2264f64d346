//! Nested scopes of names.

use vstd::prelude::*;

verus! {

/// The value bound last to `key` among `entries`, if any.
pub open spec fn last_binding<V>(entries: Seq<(Seq<char>, V)>, key: Seq<char>) -> Option<V>
    decreases entries.len(),
{
    if entries.len() == 0 {
        None
    } else if entries.last().0 == key {
        Some(entries.last().1)
    } else {
        last_binding(entries.drop_last(), key)
    }
}

/// Rebinding the last entry for `key` changes what `key` resolves to and
/// nothing else.
proof fn lemma_rebind_last<V>(s: Seq<(Seq<char>, V)>, i: int, key: Seq<char>)
    requires
        0 <= i < s.len(),
        s[i].0 == key,
        forall|j: int| i < j < s.len() ==> s[j].0 != key,
    ensures
        forall|v: V| #[trigger] last_binding(s.update(i, (key, v)), key) == Some(v),
        forall|v: V, k: Seq<char>| k != key ==> #[trigger] last_binding(s.update(i, (key, v)), k) == last_binding(s, k),
    decreases s.len(),
{
    assert forall|v: V| #[trigger] last_binding(s.update(i, (key, v)), key) == Some(v) by {
        let u = s.update(i, (key, v));
        assert(u.len() == s.len());
        if i < s.len() - 1 {
            assert(u.last() == s.last());
            assert(u.last().0 != key);
            lemma_rebind_last(s.drop_last(), i, key);
            assert(u.drop_last() =~= s.drop_last().update(i, (key, v)));
            assert(last_binding(s.drop_last().update(i, (key, v)), key) == Some(v));
        } else {
            assert(u.last() == (key, v));
        }
    }
    assert forall|v: V, k: Seq<char>| k != key implies #[trigger] last_binding(s.update(i, (key, v)), k) == last_binding(s, k) by {
        let u = s.update(i, (key, v));
        assert(u.len() == s.len());
        if i < s.len() - 1 {
            assert(u.last() == s.last());
            lemma_rebind_last(s.drop_last(), i, key);
            assert(u.drop_last() =~= s.drop_last().update(i, (key, v)));
            assert(last_binding(s.drop_last().update(i, (key, v)), k) == last_binding(s.drop_last(), k));
        } else {
            assert(u.last() == (key, v));
            assert(s.last().0 == key);
            assert(u.drop_last() =~= s.drop_last());
        }
    }
}

/// Rebinding the entry that `key` resolves to in `s` itself changes what
/// `key` resolves to and nothing else.
proof fn lemma_rebound<V>(s: Scope<V>, i: int, key: Seq<char>)
    requires
        0 <= i < s.map@.len(),
        s.map@[i].0@ == key,
        forall|j: int| i < j < s.map@.len() ==> s.map@[j].0@ != key,
    ensures
        forall|t: Scope<V>, x: V|
            #![trigger t.resolve(key), s.map@.update(i, (s.map@[i].0, x))]
            t.parent == s.parent && t.map@ == s.map@.update(i, (s.map@[i].0, x)) ==> t.resolve(key) == Some(x),
        forall|t: Scope<V>, x: V, k: Seq<char>|
            #![trigger t.resolve(k), s.map@.update(i, (s.map@[i].0, x))]
            t.parent == s.parent && t.map@ == s.map@.update(i, (s.map@[i].0, x)) && k != key ==> t.resolve(k) == s.resolve(k),
{
    let bv = bindings_view(s.map@);
    lemma_rebind_last(bv, i, key);
    assert forall|t: Scope<V>, x: V, k: Seq<char>|
        t.parent == s.parent && t.map@ == s.map@.update(i, (s.map@[i].0, x)) implies
        (k == key ==> t.resolve(k) == Some(x)) && (k != key ==> t.resolve(k) == s.resolve(k)) by {
        assert(bindings_view(t.map@) =~= bv.update(i, (key, x)));
        assert(last_binding(bv.update(i, (key, x)), k) == (if k == key { Some(x) } else { last_binding(bv, k) }));
    }
}

pub open spec fn bindings_view<V>(entries: Seq<(String, V)>) -> Seq<(Seq<char>, V)> {
    entries.map_values(|e: (String, V)| (e.0@, e.1))
}

/// A lexical scope: names bound here, and the enclosing scope that is
/// searched for names not bound here.
pub struct Scope<V> {
    parent: Option<Box<Scope<V>>>,
    map: Vec<(String, V)>,
}

impl<V> Scope<V> {
    /// What `key` resolves to: its binding in the innermost scope that has
    /// one.
    pub closed spec fn resolve(&self, key: Seq<char>) -> Option<V>
        decreases self,
    {
        match last_binding(bindings_view(self.map@), key) {
            Some(v) => Some(v),
            None => match &self.parent {
                Some(p) => p.resolve(key),
                None => None,
            },
        }
    }

    /// How many scopes enclose this one.
    pub closed spec fn depth(&self) -> nat
        decreases self,
    {
        match &self.parent {
            Some(p) => p.depth() + 1,
            None => 0,
        }
    }

    /// An outermost scope with no names.
    pub fn new() -> (r: Scope<V>)
        ensures
            forall|k: Seq<char>| r.resolve(k) is None,
    {
        let r = Scope { parent: None, map: Vec::new() };
        assert forall|k: Seq<char>| r.resolve(k) is None by {
            assert(bindings_view(r.map@).len() == 0);
        }
        r
    }

    /// A scope with no names of its own inside `parent`.
    pub fn with_parent(parent: Scope<V>) -> (r: Scope<V>)
        ensures
            forall|k: Seq<char>| r.resolve(k) == parent.resolve(k),
    {
        let r = Scope { parent: Some(Box::new(parent)), map: Vec::new() };
        assert forall|k: Seq<char>| r.resolve(k) == parent.resolve(k) by {
            assert(bindings_view(r.map@).len() == 0);
        }
        r
    }

    /// Binds `key` to `value` in this scope, hiding any earlier binding of it.
    pub fn insert(&mut self, key: String, value: V)
        ensures
            final(self).resolve(key@) == Some(value),
            forall|k: Seq<char>| k != key@ ==> final(self).resolve(k) == old(self).resolve(k),
    {
        let ghost k0 = key@;
        let ghost before = bindings_view(self.map@);
        self.map.push((key, value));
        proof {
            assert(bindings_view(self.map@).drop_last() =~= before);
        }
    }

    fn find(&self, key: &String) -> (r: Option<usize>)
        ensures
            match r {
                Some(i) => i < self.map@.len() && self.map@[i as int].0@ == key@
                    && last_binding(bindings_view(self.map@), key@) == Some(self.map@[i as int].1)
                    && forall|j: int| i < j < self.map@.len() ==> self.map@[j].0@ != key@,
                None => last_binding(bindings_view(self.map@), key@) is None,
            },
    {
        let ghost bv = bindings_view(self.map@);
        let mut i = self.map.len();
        assert(bv.take(i as int) =~= bv);
        while i > 0
            invariant
                i <= self.map@.len(),
                bv == bindings_view(self.map@),
                last_binding(bv, key@) == last_binding(bv.take(i as int), key@),
                forall|j: int| i <= j < self.map@.len() ==> self.map@[j].0@ != key@,
            decreases i,
        {
            assert(bv.take(i as int).drop_last() =~= bv.take(i - 1));
            i = i - 1;
            if self.map[i].0 == *key {
                return Some(i);
            }
        }
        None
    }

    /// The value that `key` resolves to.
    pub fn get(&self, key: &String) -> (r: Option<&V>)
        ensures
            match r {
                Some(v) => self.resolve(key@) == Some(*v),
                None => self.resolve(key@) is None,
            },
        decreases self,
    {
        match self.find(key) {
            Some(i) => Some(&self.map[i].1),
            None => match &self.parent {
                Some(p) => p.get(key),
                None => None,
            },
        }
    }

    fn value_mut(&mut self, i: usize) -> (r: &mut V)
        requires
            i < old(self).map@.len(),
        ensures
            *r == old(self).map@[i as int].1,
            final(self).map@ == old(self).map@.update(i as int, (old(self).map@[i as int].0, *final(r))),
            final(self).parent == old(self).parent,
    {
        let entry = &mut self.map[i];
        &mut entry.1
    }

    /// The value that `key` resolves to, for changing in place.
    pub fn get_mut(&mut self, key: &String) -> (r: Option<&mut V>)
        ensures
            match r {
                Some(v) => {
                    &&& old(self).resolve(key@) == Some(*v)
                    &&& final(self).resolve(key@) == Some(*final(v))
                    &&& forall|k: Seq<char>| k != key@ ==> final(self).resolve(k) == old(self).resolve(k)
                },
                None => old(self).resolve(key@) is None && *final(self) == *old(self),
            },
        decreases old(self).depth(), 1nat,
    {
        match self.find(key) {
            Some(i) => {
                proof {
                    lemma_rebound(*self, i as int, key@);
                }
                Some(self.value_mut(i))
            },
            None => self.parent_get_mut(key),
        }
    }

    fn parent_get_mut(&mut self, key: &String) -> (r: Option<&mut V>)
        requires
            last_binding(bindings_view(old(self).map@), key@) is None,
        ensures
            match r {
                Some(v) => {
                    &&& old(self).resolve(key@) == Some(*v)
                    &&& final(self).resolve(key@) == Some(*final(v))
                    &&& forall|k: Seq<char>| k != key@ ==> final(self).resolve(k) == old(self).resolve(k)
                },
                None => old(self).resolve(key@) is None && *final(self) == *old(self),
            },
        decreases old(self).depth(), 0nat,
    {
        proof {
            Self::lemma_resolve_unfold();
        }
        match self.parent_mut() {
            Some(p) => p.get_mut(key),
            None => None,
        }
    }

    proof fn lemma_resolve_unfold()
        ensures
            forall|t: Scope<V>, k: Seq<char>| #[trigger] t.resolve(k) == match last_binding(bindings_view(t.map@), k) {
                Some(v) => Some(v),
                None => match t.parent {
                    Some(p) => p.resolve(k),
                    None => None,
                },
            },
    {
    }

    fn parent_mut(&mut self) -> (r: Option<&mut Scope<V>>)
        ensures
            match r {
                Some(p) => {
                    &&& old(self).parent == Some(Box::new(*p))
                    &&& final(self).parent == Some(Box::new(*final(p)))
                    &&& final(self).map == old(self).map
                },
                None => old(self).parent is None && *final(self) == *old(self),
            },
    {
        match &mut self.parent {
            Some(p) => Some(&mut **p),
            None => None,
        }
    }

    /// Whether `key` resolves to anything.
    pub fn has(&self, key: &String) -> (r: bool)
        ensures
            r == self.resolve(key@) is Some,
        decreases self,
    {
        match self.find(key) {
            Some(_) => true,
            None => match &self.parent {
                Some(p) => p.has(key),
                None => false,
            },
        }
    }
}

} // verus!

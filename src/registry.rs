use vstd::prelude::*;

verus! {

/// A set of resources, each registered under a name of its own. Registering a
/// name that is already present replaces the resource it stood for.
pub struct Registry<T> {
    entries: Vec<(String, T)>,
}

/// Entry `i` is registered under `name`.
pub open spec fn names_at<T>(e: Seq<(String, T)>, name: Seq<char>, i: int) -> bool {
    0 <= i < e.len() && e[i].0@ == name
}

/// No two entries share a name.
pub open spec fn names_unique<T>(e: Seq<(String, T)>) -> bool {
    forall|a: int, b: int| names_at(e, e[b].0@, a) && 0 <= b < e.len() ==> a == b
}

/// The resource of each registered name.
pub open spec fn entries_map<T>(e: Seq<(String, T)>) -> Map<Seq<char>, T> {
    Map::new(
        |name: Seq<char>| exists|i: int| names_at(e, name, i),
        |name: Seq<char>| e[choose|i: int| names_at(e, name, i)].1,
    )
}

proof fn lemma_entry_found<T>(e: Seq<(String, T)>, i: int)
    requires
        names_unique(e),
        0 <= i < e.len(),
    ensures
        entries_map(e).contains_key(e[i].0@),
        entries_map(e)[e[i].0@] == e[i].1,
{
    let name = e[i].0@;
    assert(names_at(e, name, i));
    let c = choose|c: int| names_at(e, name, c);
    assert(names_at(e, e[i].0@, c));
}

impl<T> View for Registry<T> {
    type V = Map<Seq<char>, T>;

    closed spec fn view(&self) -> Map<Seq<char>, T> {
        entries_map(self.entries@)
    }
}

impl<T> Registry<T> {
    /// The registry is well formed: its names are unique.
    pub closed spec fn wf(&self) -> bool {
        names_unique(self.entries@)
    }

    /// An empty registry.
    pub fn new() -> (r: Registry<T>)
        ensures
            r.wf(),
            r@ == Map::<Seq<char>, T>::empty(),
    {
        let r = Registry { entries: Vec::new() };
        assert(r@ =~= Map::<Seq<char>, T>::empty());
        r
    }

    /// The number of registered names.
    pub fn len(&self) -> (r: usize)
        requires
            self.wf(),
        ensures
            r as nat == self@.dom().len(),
    {
        proof {
            self.lemma_dom_len(self.entries@.len() as int);
        }
        self.entries.len()
    }

    /// The names of the first `n` entries make up the domain, restricted to them.
    proof fn lemma_dom_len(&self, n: int)
        requires
            self.wf(),
            0 <= n <= self.entries@.len(),
        ensures
            Set::new(|name: Seq<char>| exists|i: int| 0 <= i < n && names_at(self.entries@, name, i)).finite(),
            Set::new(|name: Seq<char>| exists|i: int| 0 <= i < n && names_at(self.entries@, name, i)).len()
                == n,
            n == self.entries@.len() ==> self@.dom() =~= Set::new(
                |name: Seq<char>| exists|i: int| 0 <= i < n && names_at(self.entries@, name, i),
            ),
        decreases n,
    {
        let e = self.entries@;
        let s = Set::new(|name: Seq<char>| exists|i: int| 0 <= i < n && names_at(e, name, i));
        if n == 0 {
            assert(s =~= Set::<Seq<char>>::empty());
        } else {
            self.lemma_dom_len(n - 1);
            let p = Set::new(|name: Seq<char>| exists|i: int| 0 <= i < n - 1 && names_at(e, name, i));
            assert(names_at(e, e[n - 1].0@, n - 1));
            assert(s =~= p.insert(e[n - 1].0@));
            assert(!p.contains(e[n - 1].0@));
        }
    }

    /// Where `name` stands among the entries, if it is registered.
    fn position(&self, name: &String) -> (r: Option<usize>)
        requires
            self.wf(),
        ensures
            match r {
                Some(i) => names_at(self.entries@, name@, i as int),
                None => !self@.contains_key(name@),
            },
    {
        let mut i: usize = 0;
        while i < self.entries.len()
            invariant
                i <= self.entries@.len(),
                forall|k: int| 0 <= k < i ==> !names_at(self.entries@, name@, k),
            decreases self.entries@.len() - i,
        {
            if self.entries[i].0 == *name {
                return Some(i);
            }
            i += 1;
        }
        None
    }

    /// The resource registered under `name`, if any.
    pub fn get(&self, name: &str) -> (r: Option<&T>)
        requires
            self.wf(),
        ensures
            match r {
                Some(v) => self@.contains_key(name@) && *v == self@[name@],
                None => !self@.contains_key(name@),
            },
    {
        let key = String::from_str(name);
        match self.position(&key) {
            Some(i) => {
                proof {
                    lemma_entry_found(self.entries@, i as int);
                }
                Some(&self.entries[i].1)
            },
            None => None,
        }
    }

    /// Registers `value` under `name`, replacing what stood there before.
    pub fn insert(&mut self, name: &str, value: T)
        requires
            old(self).wf(),
        ensures
            final(self).wf(),
            final(self)@ == old(self)@.insert(name@, value),
    {
        let key = String::from_str(name);
        let ghost pre = self.entries@;
        match self.position(&key) {
            Some(i) => {
                self.entries.set(i, (key, value));
                let ghost post = self.entries@;
                assert(post =~= pre.update(i as int, post[i as int]));
                assert forall|a: int, b: int|
                    names_at(post, post[b].0@, a) && 0 <= b < post.len() implies a == b by {
                    assert(names_at(pre, pre[i as int].0@, i as int));
                    if a != i as int && b != i as int {
                        assert(names_at(pre, pre[b].0@, a));
                    } else if a != i as int {
                        assert(names_at(pre, pre[i as int].0@, a));
                    } else if b != i as int {
                        assert(names_at(pre, pre[b].0@, i as int));
                    }
                }
                assert forall|n: Seq<char>| #[trigger] self@.contains_key(n) <==> old(self)@.insert(
                    name@,
                    value,
                ).contains_key(n) by {
                    if self@.contains_key(n) {
                        let k = choose|k: int| names_at(post, n, k);
                        if k != i as int {
                            assert(names_at(pre, n, k));
                        }
                    }
                    if old(self)@.contains_key(n) {
                        let k = choose|k: int| names_at(pre, n, k);
                        if k != i as int {
                            assert(names_at(post, n, k));
                        } else {
                            assert(names_at(post, n, i as int));
                        }
                    }
                    if n == name@ {
                        assert(names_at(post, n, i as int));
                    }
                }
                assert forall|n: Seq<char>| #[trigger] self@.contains_key(n) implies self@[n]
                    == old(self)@.insert(name@, value)[n] by {
                    let k = choose|k: int| names_at(post, n, k);
                    lemma_entry_found(post, k);
                    if k != i as int {
                        assert(names_at(pre, n, k));
                        lemma_entry_found(pre, k);
                    }
                }
                assert(self@ =~= old(self)@.insert(name@, value));
            },
            None => {
                self.entries.push((key, value));
                let ghost post = self.entries@;
                assert(post =~= pre.push(post[pre.len() as int]));
                let ghost last = pre.len() as int;
                assert forall|a: int, b: int|
                    names_at(post, post[b].0@, a) && 0 <= b < post.len() implies a == b by {
                    if a != last && b != last {
                        assert(names_at(pre, pre[b].0@, a));
                    } else if a != last {
                        assert(names_at(pre, name@, a));
                    } else if b != last {
                        assert(names_at(pre, name@, b));
                    }
                }
                assert forall|n: Seq<char>| #[trigger] self@.contains_key(n) <==> old(self)@.insert(
                    name@,
                    value,
                ).contains_key(n) by {
                    if self@.contains_key(n) {
                        let k = choose|k: int| names_at(post, n, k);
                        if k != last {
                            assert(names_at(pre, n, k));
                        }
                    }
                    if old(self)@.contains_key(n) {
                        let k = choose|k: int| names_at(pre, n, k);
                        assert(names_at(post, n, k));
                    }
                    if n == name@ {
                        assert(names_at(post, n, last));
                    }
                }
                assert forall|n: Seq<char>| #[trigger] self@.contains_key(n) implies self@[n]
                    == old(self)@.insert(name@, value)[n] by {
                    let k = choose|k: int| names_at(post, n, k);
                    lemma_entry_found(post, k);
                    if k != last {
                        assert(names_at(pre, n, k));
                        lemma_entry_found(pre, k);
                    }
                }
                assert(self@ =~= old(self)@.insert(name@, value));
            },
        }
    }
}

} // verus!

//! World snapshot types for the functional core.
//!
//! A [`Snapshot`] captures all cluster state needed for reconciliation
//! decisions at a specific point in time. This module provides the trait and
//! the stores from which snapshots are built: [`NamespacedStore`] for
//! namespaced resources, keyed by namespace and name, and [`ClusterStore`]
//! for cluster-scoped resources, keyed by name.
use jiff::Timestamp;
use vstd::prelude::*;

verus! {

#[verifier::external_type_specification]
#[verifier::external_body]
pub struct ExTimestamp(Timestamp);

/// A point-in-time snapshot of relevant cluster state.
///
/// Implementors hold all resources needed for reconciliation and expose them
/// through domain-specific accessor methods. [`Snapshot::now`] returns the
/// timestamp at which the snapshot was taken, which makes time-dependent
/// logic deterministic in tests.
pub trait Snapshot {
    /// Returns the timestamp at which this snapshot was captured.
    fn now(&self) -> Timestamp;
}

/// The key of a namespaced resource: its namespace and its name.
pub type NamespacedKey = (Seq<char>, Seq<char>);

/// A store for namespaced Kubernetes resources, keyed by `(namespace, name)`.
///
/// Each key occurs at most once.
pub struct NamespacedStore<T> {
    entries: Vec<(String, String, T)>,
}

impl<T> NamespacedStore<T> {
    /// The key of the `i`-th entry.
    pub closed spec fn key_at(self, i: int) -> NamespacedKey {
        (self.entries@[i].0@, self.entries@[i].1@)
    }

    /// No key occurs twice.
    #[verifier::type_invariant]
    pub closed spec fn well_formed(self) -> bool {
        forall|i: int, j: int|
            0 <= i < j < self.entries@.len() ==> #[trigger] self.key_at(i) != #[trigger] self.key_at(j)
    }

    /// The store holds an entry under `k`.
    pub closed spec fn holds(self, k: NamespacedKey) -> bool {
        exists|i: int| 0 <= i < self.entries@.len() && #[trigger] self.key_at(i) == k
    }

    /// The position of the entry under `k`.
    pub closed spec fn position_of(self, k: NamespacedKey) -> int {
        choose|i: int| 0 <= i < self.entries@.len() && #[trigger] self.key_at(i) == k
    }
}

impl<T> View for NamespacedStore<T> {
    type V = Map<NamespacedKey, T>;

    closed spec fn view(&self) -> Map<NamespacedKey, T> {
        Map::new(|k: NamespacedKey| self.holds(k), |k: NamespacedKey| self.entries@[self.position_of(k)].2)
    }
}

impl<T> NamespacedStore<T> {
    /// The entry at `i` is the one under its key.
    proof fn lemma_entry(self, i: int)
        requires
            self.well_formed(),
            0 <= i < self.entries@.len(),
        ensures
            self.holds(self.key_at(i)),
            self.position_of(self.key_at(i)) == i,
            self@.contains_key(self.key_at(i)),
            self@[self.key_at(i)] == self.entries@[i].2,
    {
        let k = self.key_at(i);
        assert(self.holds(k));
        let j = self.position_of(k);
        if j != i {
            if j < i {
                assert(self.key_at(j) != self.key_at(i));
            } else {
                assert(self.key_at(i) != self.key_at(j));
            }
        }
    }

    /// Creates an empty store.
    pub fn new() -> (s: Self)
        ensures
            s@ == Map::<NamespacedKey, T>::empty(),
    {
        let s = NamespacedStore { entries: Vec::new() };
        assert(s@ =~= Map::<NamespacedKey, T>::empty());
        s
    }

    /// The position of the entry under `(namespace, name)`, if any.
    fn find(&self, namespace: &String, name: &String) -> (r: Option<usize>)
        ensures
            match r {
                Some(i) => i < self.entries@.len() && self.key_at(i as int) == (namespace@, name@),
                None => !self.holds((namespace@, name@)),
            },
    {
        let mut i: usize = 0;
        while i < self.entries.len()
            invariant
                i <= self.entries@.len(),
                forall|j: int| 0 <= j < i ==> self.key_at(j) != (namespace@, name@),
            decreases self.entries@.len() - i,
        {
            if self.entries[i].0 == *namespace && self.entries[i].1 == *name {
                return Some(i);
            }
            i = i + 1;
        }
        None
    }

    /// Look up the value under `(namespace, name)`.
    pub fn get(&self, namespace: &str, name: &str) -> (r: Option<&T>)
        ensures
            match r {
                Some(v) => self@.contains_key((namespace@, name@)) && *v == self@[(
                    namespace@,
                    name@,
                )],
                None => !self@.contains_key((namespace@, name@)),
            },
    {
        proof {
            use_type_invariant(self);
        }
        let ns = String::from_str(namespace);
        let n = String::from_str(name);
        match self.find(&ns, &n) {
            Some(i) => {
                proof {
                    self.lemma_entry(i as int);
                }
                Some(&self.entries[i].2)
            },
            None => None,
        }
    }

    /// Insert `value` under `(namespace, name)`, replacing and returning the
    /// value that was there.
    pub fn insert(&mut self, namespace: String, name: String, value: T) -> (r: Option<T>)
        ensures
            final(self)@ == old(self)@.insert((namespace@, name@), value),
            match r {
                Some(v) => old(self)@.contains_key((namespace@, name@)) && v == old(self)@[(
                    namespace@,
                    name@,
                )],
                None => !old(self)@.contains_key((namespace@, name@)),
            },
    {
        proof {
            use_type_invariant(&*self);
        }
        let ghost k: NamespacedKey = (namespace@, name@);
        let ghost before = *self;
        match self.find(&namespace, &name) {
            Some(i) => {
                proof {
                    before.lemma_entry(i as int);
                }
                let mut entry = (namespace, name, value);
                let mut entries = Vec::new();
                std::mem::swap(&mut entries, &mut self.entries);
                entries.set_and_swap(i, &mut entry);
                proof {
                    let updated = NamespacedStore { entries };
                    assert forall|j: int| 0 <= j < updated.entries@.len() implies updated.key_at(j)
                        == before.key_at(j) by {}
                    assert(updated.well_formed());
                }
                self.entries = entries;
                proof {
                    assert forall|j: int| 0 <= j < self.entries@.len() implies self.key_at(j)
                        == before.key_at(j) by {}
                    assert forall|kk: NamespacedKey| #[trigger] self.holds(kk) == before.holds(kk) by {
                        if before.holds(kk) {
                            let j = before.position_of(kk);
                            assert(self.key_at(j) == kk);
                        }
                        if self.holds(kk) {
                            let j = self.position_of(kk);
                            assert(before.key_at(j) == kk);
                        }
                    }
                    assert forall|kk: NamespacedKey| self.holds(kk) implies #[trigger] self@[kk]
                        == if kk == k { value } else { before@[kk] } by {
                        let j = self.position_of(kk);
                        self.lemma_entry(j);
                        before.lemma_entry(j);
                    }
                    assert(self@ =~= before@.insert(k, value));
                }
                Some(entry.2)
            },
            None => {
                let mut entries = Vec::new();
                std::mem::swap(&mut entries, &mut self.entries);
                entries.push((namespace, name, value));
                proof {
                    let n = before.entries@.len() as int;
                    let grown = NamespacedStore { entries };
                    assert(grown.key_at(n) == k);
                    assert forall|j: int| 0 <= j < n implies grown.key_at(j) == before.key_at(j) by {}
                    assert forall|a: int, b: int|
                        0 <= a < b < grown.entries@.len() implies #[trigger] grown.key_at(a)
                        != #[trigger] grown.key_at(b) by {
                        if b == n {
                            assert(before.key_at(a) != k);
                        } else {
                            assert(before.key_at(a) != before.key_at(b));
                        }
                    }
                }
                self.entries = entries;
                proof {
                    let n = before.entries@.len() as int;
                    assert(self.key_at(n) == k);
                    assert forall|j: int| 0 <= j < n implies self.key_at(j) == before.key_at(j) by {}
                    assert forall|kk: NamespacedKey| #[trigger] self.holds(kk) == (before.holds(kk) || kk == k) by {
                        if before.holds(kk) {
                            let j = before.position_of(kk);
                            assert(self.key_at(j) == kk);
                        }
                        if self.holds(kk) && kk != k {
                            let j = self.position_of(kk);
                            assert(before.key_at(j) == kk);
                        }
                        if kk == k {
                            assert(self.key_at(n) == kk);
                        }
                    }
                    assert forall|kk: NamespacedKey| self.holds(kk) implies #[trigger] self@[kk]
                        == if kk == k { value } else { before@[kk] } by {
                        let j = self.position_of(kk);
                        self.lemma_entry(j);
                        if kk != k {
                            before.lemma_entry(j);
                        }
                    }
                    assert(self@ =~= before@.insert(k, value));
                }
                None
            },
        }
    }
}

/// A store for cluster-scoped Kubernetes resources, keyed by name.
///
/// Each name occurs at most once.
pub struct ClusterStore<T> {
    entries: Vec<(String, T)>,
}

impl<T> ClusterStore<T> {
    /// The key of the `i`-th entry.
    pub closed spec fn key_at(self, i: int) -> Seq<char> {
        self.entries@[i].0@
    }

    /// No key occurs twice.
    #[verifier::type_invariant]
    pub closed spec fn well_formed(self) -> bool {
        forall|i: int, j: int|
            0 <= i < j < self.entries@.len() ==> #[trigger] self.key_at(i) != #[trigger] self.key_at(j)
    }

    /// The store holds an entry under `k`.
    pub closed spec fn holds(self, k: Seq<char>) -> bool {
        exists|i: int| 0 <= i < self.entries@.len() && #[trigger] self.key_at(i) == k
    }

    /// The position of the entry under `k`.
    pub closed spec fn position_of(self, k: Seq<char>) -> int {
        choose|i: int| 0 <= i < self.entries@.len() && #[trigger] self.key_at(i) == k
    }
}

impl<T> View for ClusterStore<T> {
    type V = Map<Seq<char>, T>;

    closed spec fn view(&self) -> Map<Seq<char>, T> {
        Map::new(|k: Seq<char>| self.holds(k), |k: Seq<char>| self.entries@[self.position_of(k)].1)
    }
}

impl<T> ClusterStore<T> {
    /// The entry at `i` is the one under its key.
    proof fn lemma_entry(self, i: int)
        requires
            self.well_formed(),
            0 <= i < self.entries@.len(),
        ensures
            self.holds(self.key_at(i)),
            self.position_of(self.key_at(i)) == i,
            self@.contains_key(self.key_at(i)),
            self@[self.key_at(i)] == self.entries@[i].1,
    {
        let k = self.key_at(i);
        assert(self.holds(k));
        let j = self.position_of(k);
        if j != i {
            if j < i {
                assert(self.key_at(j) != self.key_at(i));
            } else {
                assert(self.key_at(i) != self.key_at(j));
            }
        }
    }

    /// Creates an empty store.
    pub fn new() -> (s: Self)
        ensures
            s@ == Map::<Seq<char>, T>::empty(),
    {
        let s = ClusterStore { entries: Vec::new() };
        assert(s@ =~= Map::<Seq<char>, T>::empty());
        s
    }

    /// The position of the entry under `name`, if any.
    fn find(&self, name: &String) -> (r: Option<usize>)
        ensures
            match r {
                Some(i) => i < self.entries@.len() && self.key_at(i as int) == name@,
                None => !self.holds(name@),
            },
    {
        let mut i: usize = 0;
        while i < self.entries.len()
            invariant
                i <= self.entries@.len(),
                forall|j: int| 0 <= j < i ==> self.key_at(j) != name@,
            decreases self.entries@.len() - i,
        {
            if self.entries[i].0 == *name {
                return Some(i);
            }
            i = i + 1;
        }
        None
    }

    /// Look up the value under `name`.
    pub fn get(&self, name: &str) -> (r: Option<&T>)
        ensures
            match r {
                Some(v) => self@.contains_key(name@) && *v == self@[name@],
                None => !self@.contains_key(name@),
            },
    {
        proof {
            use_type_invariant(self);
        }
        let n = String::from_str(name);
        match self.find(&n) {
            Some(i) => {
                proof {
                    self.lemma_entry(i as int);
                }
                Some(&self.entries[i].1)
            },
            None => None,
        }
    }

    /// Insert `value` under `name`, replacing and returning the value that was
    /// there.
    pub fn insert(&mut self, name: String, value: T) -> (r: Option<T>)
        ensures
            final(self)@ == old(self)@.insert(name@, value),
            match r {
                Some(v) => old(self)@.contains_key(name@) && v == old(self)@[name@],
                None => !old(self)@.contains_key(name@),
            },
    {
        proof {
            use_type_invariant(&*self);
        }
        let ghost k: Seq<char> = name@;
        let ghost before = *self;
        match self.find(&name) {
            Some(i) => {
                proof {
                    before.lemma_entry(i as int);
                }
                let mut entry = (name, value);
                let mut entries = Vec::new();
                std::mem::swap(&mut entries, &mut self.entries);
                entries.set_and_swap(i, &mut entry);
                proof {
                    let updated = ClusterStore { entries };
                    assert forall|j: int| 0 <= j < updated.entries@.len() implies updated.key_at(j)
                        == before.key_at(j) by {}
                    assert(updated.well_formed());
                }
                self.entries = entries;
                proof {
                    assert forall|j: int| 0 <= j < self.entries@.len() implies self.key_at(j)
                        == before.key_at(j) by {}
                    assert forall|kk: Seq<char>| #[trigger] self.holds(kk) == before.holds(kk) by {
                        if before.holds(kk) {
                            let j = before.position_of(kk);
                            assert(self.key_at(j) == kk);
                        }
                        if self.holds(kk) {
                            let j = self.position_of(kk);
                            assert(before.key_at(j) == kk);
                        }
                    }
                    assert forall|kk: Seq<char>| self.holds(kk) implies #[trigger] self@[kk]
                        == if kk == k { value } else { before@[kk] } by {
                        let j = self.position_of(kk);
                        self.lemma_entry(j);
                        before.lemma_entry(j);
                    }
                    assert(self@ =~= before@.insert(k, value));
                }
                Some(entry.1)
            },
            None => {
                let mut entries = Vec::new();
                std::mem::swap(&mut entries, &mut self.entries);
                entries.push((name, value));
                proof {
                    let n = before.entries@.len() as int;
                    let grown = ClusterStore { entries };
                    assert(grown.key_at(n) == k);
                    assert forall|j: int| 0 <= j < n implies grown.key_at(j) == before.key_at(j) by {}
                    assert forall|a: int, b: int|
                        0 <= a < b < grown.entries@.len() implies #[trigger] grown.key_at(a)
                        != #[trigger] grown.key_at(b) by {
                        if b == n {
                            assert(before.key_at(a) != k);
                        } else {
                            assert(before.key_at(a) != before.key_at(b));
                        }
                    }
                }
                self.entries = entries;
                proof {
                    let n = before.entries@.len() as int;
                    assert(self.key_at(n) == k);
                    assert forall|j: int| 0 <= j < n implies self.key_at(j) == before.key_at(j) by {}
                    assert forall|kk: Seq<char>| #[trigger] self.holds(kk) == (before.holds(kk) || kk == k) by {
                        if before.holds(kk) {
                            let j = before.position_of(kk);
                            assert(self.key_at(j) == kk);
                        }
                        if self.holds(kk) && kk != k {
                            let j = self.position_of(kk);
                            assert(before.key_at(j) == kk);
                        }
                        if kk == k {
                            assert(self.key_at(n) == kk);
                        }
                    }
                    assert forall|kk: Seq<char>| self.holds(kk) implies #[trigger] self@[kk]
                        == if kk == k { value } else { before@[kk] } by {
                        let j = self.position_of(kk);
                        self.lemma_entry(j);
                        if kk != k {
                            before.lemma_entry(j);
                        }
                    }
                    assert(self@ =~= before@.insert(k, value));
                }
                None
            },
        }
    }
}

/// The namespace under which a resource with metadata namespace `namespace`
/// is stored: the namespace itself, or the empty string when it has none.
pub open spec fn stored_namespace(namespace: Option<String>) -> Seq<char> {
    match namespace {
        Some(ns) => ns@,
        None => Seq::empty(),
    }
}

/// Insert a namespaced resource into a [`NamespacedStore`], under the
/// namespace and name from its metadata (`namespace` and `name`).
/// If the resource has no namespace, it defaults to an empty string.
pub fn insert_namespaced<T>(
    store: &mut NamespacedStore<T>,
    namespace: Option<String>,
    name: String,
    resource: T,
)
    ensures
        final(store)@ == old(store)@.insert((stored_namespace(namespace), name@), resource),
        namespace matches Some(ns) ==> final(store)@ == old(store)@.insert((ns@, name@), resource),
        namespace is None ==> final(store)@ == old(store)@.insert((Seq::empty(), name@), resource),
{
    let ns = match namespace {
        Some(ns) => ns,
        None => String::new(),
    };
    store.insert(ns, name, resource);
}

/// Insert a cluster-scoped resource into a [`ClusterStore`], under the name
/// from its metadata (`name`).
pub fn insert_cluster_scoped<T>(store: &mut ClusterStore<T>, name: String, resource: T)
    ensures
        final(store)@ == old(store)@.insert(name@, resource),
{
    store.insert(name, resource);
}

/// Look up a namespaced resource by namespace and name.
pub fn get_namespaced<'a, T>(store: &'a NamespacedStore<T>, namespace: &str, name: &str) -> (r:
    Option<&'a T>)
    ensures
        match r {
            Some(v) => store@.contains_key((namespace@, name@)) && *v == store@[(namespace@, name@)],
            None => !store@.contains_key((namespace@, name@)),
        },
{
    store.get(namespace, name)
}

/// A resource with a namespace is stored under that namespace; one without
/// is stored under the empty namespace.
pub proof fn law_stored_namespace(namespace: Option<String>)
    ensures
        namespace matches Some(ns) ==> stored_namespace(namespace) == ns@,
        namespace is None ==> stored_namespace(namespace) == Seq::<char>::empty(),
{
}

/// After a resource is inserted with namespace `ns` and name `name`, a
/// lookup of `ns` and `name` finds it.
pub proof fn law_get_after_insert_with_namespace<T>(
    store: Map<NamespacedKey, T>,
    ns: String,
    name: String,
    resource: T,
)
    ensures
        ({
            let after = store.insert((stored_namespace(Some(ns)), name@), resource);
            after.contains_key((ns@, name@)) && after[(ns@, name@)] == resource
        }),
{
}

/// A lookup after an insert finds the inserted resource under its namespace
/// (the empty one when it has none) and name, and what was found before
/// under any other key.
pub proof fn law_get_after_insert_namespaced<T>(
    store: Map<NamespacedKey, T>,
    namespace: Option<String>,
    name: String,
    resource: T,
    key: NamespacedKey,
)
    ensures
        ({
            let after = store.insert((stored_namespace(namespace), name@), resource);
            &&& key == (stored_namespace(namespace), name@) ==> after.contains_key(key)
                && after[key] == resource
            &&& key != (stored_namespace(namespace), name@) ==> (after.contains_key(key)
                == store.contains_key(key) && (store.contains_key(key) ==> after[key] == store[key]))
        }),
{
}

/// A lookup after an insert finds the inserted resource under its name, and
/// what was found before under any other name.
pub proof fn law_get_after_insert_cluster_scoped<T>(
    store: Map<Seq<char>, T>,
    name: String,
    resource: T,
    key: Seq<char>,
)
    ensures
        ({
            let after = store.insert(name@, resource);
            &&& key == name@ ==> after.contains_key(key) && after[key] == resource
            &&& key != name@ ==> (after.contains_key(key) == store.contains_key(key) && (
            store.contains_key(key) ==> after[key] == store[key]))
        }),
{
}

} // verus!

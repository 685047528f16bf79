use vstd::prelude::*;

verus! {

/// One operation of a scoped data object's method table, holding the host
/// closure (or whatever stands for it) that performs the operation.
pub enum NonStaticMethod<T> {
    /// Receives the instance, read-borrowed.
    Method(T),
    /// Receives the instance, write-borrowed.
    MethodMut(T),
    /// Does not receive the instance.
    Function(T),
    /// Does not receive the instance, and must not be entered while running.
    FunctionMut(T),
}

impl<T> NonStaticMethod<T> {
    /// The host value the operation carries, whatever its variant.
    pub open spec fn payload(self) -> T {
        match self {
            NonStaticMethod::Method(f) => f,
            NonStaticMethod::MethodMut(f) => f,
            NonStaticMethod::Function(f) => f,
            NonStaticMethod::FunctionMut(f) => f,
        }
    }
}

/// A named table: each entry is a key and its operation.
pub type Table<T> = Vec<(String, NonStaticMethod<T>)>;

/// The keys of a table as character sequences, beside their operations.
pub open spec fn entries<T>(t: Seq<(String, NonStaticMethod<T>)>) -> Seq<(Seq<char>, NonStaticMethod<T>)> {
    t.map_values(|e: (String, NonStaticMethod<T>)| (e.0@, e.1))
}

/// No key appears twice.
pub open spec fn keys_unique<M>(t: Seq<(Seq<char>, M)>) -> bool {
    forall|i: int, j: int| 0 <= i < j < t.len() ==> t[i].0 != t[j].0
}

/// What a table maps a key to, if anything.
pub open spec fn lookup<M>(t: Seq<(Seq<char>, M)>, k: Seq<char>) -> Option<M> {
    if exists|i: int| 0 <= i < t.len() && t[i].0 == k {
        Some(t[choose|i: int| 0 <= i < t.len() && t[i].0 == k].1)
    } else {
        None
    }
}

/// In a table without repeated keys, the entry at `i` is what its key maps to.
pub proof fn lemma_lookup_at<M>(t: Seq<(Seq<char>, M)>, i: int)
    requires
        keys_unique(t),
        0 <= i < t.len(),
    ensures
        lookup(t, t[i].0) == Some(t[i].1),
{
    let k = t[i].0;
    assert(0 <= i < t.len() && t[i].0 == k);
    let j = choose|j: int| 0 <= j < t.len() && t[j].0 == k;
    assert(j == i);
}

/// Adds `m` under `name`, replacing what the table held under that key.
fn table_insert<T>(t: &mut Table<T>, name: &str, m: NonStaticMethod<T>)
    requires
        keys_unique(entries(old(t)@)),
    ensures
        keys_unique(entries(final(t)@)),
        forall|k: Seq<char>|
            lookup(entries(final(t)@), k) == if k == name@ {
                Some(m)
            } else {
                lookup(entries(old(t)@), k)
            },
{
    let ghost before = entries(t@);
    let key = name.to_owned();
    let mut i: usize = 0;
    while i < t.len()
        invariant
            0 <= i <= t.len(),
            t@ == old(t)@,
            before == entries(t@),
            key@ == name@,
            keys_unique(before),
            forall|j: int| 0 <= j < i ==> before[j].0 != name@,
        decreases t.len() - i,
    {
        if t[i].0 == key {
            t.set(i, (key, m));
            let ghost after = entries(t@);
            assert(after =~= before.update(i as int, (name@, m)));
            assert(keys_unique(after)) by {
                assert(before[i as int].0 == name@);
            }
            assert forall|k: Seq<char>|
                lookup(after, k) == if k == name@ {
                    Some(m)
                } else {
                    lookup(before, k)
                } by {
                if k == name@ {
                    lemma_lookup_at(after, i as int);
                } else if exists|j: int| 0 <= j < before.len() && before[j].0 == k {
                    let j = choose|j: int| 0 <= j < before.len() && before[j].0 == k;
                    lemma_lookup_at(before, j);
                    lemma_lookup_at(after, j);
                } else {
                    assert(!exists|j: int| 0 <= j < after.len() && after[j].0 == k) by {
                        if exists|j: int| 0 <= j < after.len() && after[j].0 == k {
                            let j = choose|j: int| 0 <= j < after.len() && after[j].0 == k;
                            assert(before[j].0 == k);
                        }
                    }
                }
            }
            return;
        }
        i = i + 1;
    }
    t.push((key, m));
    let ghost after = entries(t@);
    assert(after =~= before.push((name@, m)));
    assert forall|k: Seq<char>|
        lookup(after, k) == if k == name@ {
            Some(m)
        } else {
            lookup(before, k)
        } by {
        if k == name@ {
            lemma_lookup_at(after, before.len() as int);
        } else if exists|j: int| 0 <= j < before.len() && before[j].0 == k {
            let j = choose|j: int| 0 <= j < before.len() && before[j].0 == k;
            lemma_lookup_at(before, j);
            lemma_lookup_at(after, j);
        } else {
            assert(!exists|j: int| 0 <= j < after.len() && after[j].0 == k) by {
                if exists|j: int| 0 <= j < after.len() && after[j].0 == k {
                    let j = choose|j: int| 0 <= j < after.len() && after[j].0 == k;
                    assert(before[j].0 == k);
                }
            }
        }
    }
}

/// Collects the operations of one scoped data object before it is created:
/// named methods, and meta-operations under their meta keys.
pub struct NonStaticUserDataMethods<T> {
    methods: Table<T>,
    meta_methods: Table<T>,
}

impl<T> NonStaticUserDataMethods<T> {
    /// The named methods.
    pub closed spec fn methods_view(&self) -> Seq<(Seq<char>, NonStaticMethod<T>)> {
        entries(self.methods@)
    }

    /// The meta-operations.
    pub closed spec fn meta_view(&self) -> Seq<(Seq<char>, NonStaticMethod<T>)> {
        entries(self.meta_methods@)
    }

    /// Neither table repeats a key.
    pub open spec fn wf(&self) -> bool {
        keys_unique(self.methods_view()) && keys_unique(self.meta_view())
    }

    pub fn new() -> (r: Self)
        ensures
            r.wf(),
            r.methods_view() == Seq::<(Seq<char>, NonStaticMethod<T>)>::empty(),
            r.meta_view() == Seq::<(Seq<char>, NonStaticMethod<T>)>::empty(),
    {
        let r = NonStaticUserDataMethods { methods: Vec::new(), meta_methods: Vec::new() };
        assert(entries(r.methods@) =~= Seq::empty());
        assert(entries(r.meta_methods@) =~= Seq::empty());
        r
    }

    /// Adds `m` under `name` to the named methods, replacing an earlier one.
    fn insert_method(&mut self, name: &str, m: NonStaticMethod<T>)
        requires
            old(self).wf(),
        ensures
            final(self).wf(),
            final(self).meta_view() == old(self).meta_view(),
            forall|k: Seq<char>|
                lookup(final(self).methods_view(), k) == if k == name@ {
                    Some(m)
                } else {
                    lookup(old(self).methods_view(), k)
                },
    {
        table_insert(&mut self.methods, name, m);
    }

    /// Adds `m` under the meta key `meta` to the meta-operations, replacing an
    /// earlier one.
    fn insert_meta(&mut self, meta: &str, m: NonStaticMethod<T>)
        requires
            old(self).wf(),
        ensures
            final(self).wf(),
            final(self).methods_view() == old(self).methods_view(),
            forall|k: Seq<char>|
                lookup(final(self).meta_view(), k) == if k == meta@ {
                    Some(m)
                } else {
                    lookup(old(self).meta_view(), k)
                },
    {
        table_insert(&mut self.meta_methods, meta, m);
    }

    /// Adds a method that reads the instance.
    pub fn add_method(&mut self, name: &str, f: T)
        requires
            old(self).wf(),
        ensures
            final(self).wf(),
            final(self).meta_view() == old(self).meta_view(),
            forall|k: Seq<char>|
                lookup(final(self).methods_view(), k) == if k == name@ {
                    Some(NonStaticMethod::Method(f))
                } else {
                    lookup(old(self).methods_view(), k)
                },
    {
        self.insert_method(name, NonStaticMethod::Method(f));
    }

    /// Adds a method that mutates the instance.
    pub fn add_method_mut(&mut self, name: &str, f: T)
        requires
            old(self).wf(),
        ensures
            final(self).wf(),
            final(self).meta_view() == old(self).meta_view(),
            forall|k: Seq<char>|
                lookup(final(self).methods_view(), k) == if k == name@ {
                    Some(NonStaticMethod::MethodMut(f))
                } else {
                    lookup(old(self).methods_view(), k)
                },
    {
        self.insert_method(name, NonStaticMethod::MethodMut(f));
    }

    /// Adds a function that does not receive the instance.
    pub fn add_function(&mut self, name: &str, f: T)
        requires
            old(self).wf(),
        ensures
            final(self).wf(),
            final(self).meta_view() == old(self).meta_view(),
            forall|k: Seq<char>|
                lookup(final(self).methods_view(), k) == if k == name@ {
                    Some(NonStaticMethod::Function(f))
                } else {
                    lookup(old(self).methods_view(), k)
                },
    {
        self.insert_method(name, NonStaticMethod::Function(f));
    }

    /// Adds a mutating function that does not receive the instance.
    pub fn add_function_mut(&mut self, name: &str, f: T)
        requires
            old(self).wf(),
        ensures
            final(self).wf(),
            final(self).meta_view() == old(self).meta_view(),
            forall|k: Seq<char>|
                lookup(final(self).methods_view(), k) == if k == name@ {
                    Some(NonStaticMethod::FunctionMut(f))
                } else {
                    lookup(old(self).methods_view(), k)
                },
    {
        self.insert_method(name, NonStaticMethod::FunctionMut(f));
    }

    /// Adds a meta-operation that reads the instance.
    pub fn add_meta_method(&mut self, meta: &str, f: T)
        requires
            old(self).wf(),
        ensures
            final(self).wf(),
            final(self).methods_view() == old(self).methods_view(),
            forall|k: Seq<char>|
                lookup(final(self).meta_view(), k) == if k == meta@ {
                    Some(NonStaticMethod::Method(f))
                } else {
                    lookup(old(self).meta_view(), k)
                },
    {
        self.insert_meta(meta, NonStaticMethod::Method(f));
    }

    /// Adds a meta-operation that mutates the instance.
    pub fn add_meta_method_mut(&mut self, meta: &str, f: T)
        requires
            old(self).wf(),
        ensures
            final(self).wf(),
            final(self).methods_view() == old(self).methods_view(),
            forall|k: Seq<char>|
                lookup(final(self).meta_view(), k) == if k == meta@ {
                    Some(NonStaticMethod::MethodMut(f))
                } else {
                    lookup(old(self).meta_view(), k)
                },
    {
        self.insert_meta(meta, NonStaticMethod::MethodMut(f));
    }

    /// Adds a meta-operation that does not receive the instance.
    pub fn add_meta_function(&mut self, meta: &str, f: T)
        requires
            old(self).wf(),
        ensures
            final(self).wf(),
            final(self).methods_view() == old(self).methods_view(),
            forall|k: Seq<char>|
                lookup(final(self).meta_view(), k) == if k == meta@ {
                    Some(NonStaticMethod::Function(f))
                } else {
                    lookup(old(self).meta_view(), k)
                },
    {
        self.insert_meta(meta, NonStaticMethod::Function(f));
    }

    /// Adds a mutating meta-operation that does not receive the instance.
    pub fn add_meta_function_mut(&mut self, meta: &str, f: T)
        requires
            old(self).wf(),
        ensures
            final(self).wf(),
            final(self).methods_view() == old(self).methods_view(),
            forall|k: Seq<char>|
                lookup(final(self).meta_view(), k) == if k == meta@ {
                    Some(NonStaticMethod::FunctionMut(f))
                } else {
                    lookup(old(self).meta_view(), k)
                },
    {
        self.insert_meta(meta, NonStaticMethod::FunctionMut(f));
    }

    /// Hands over both tables: the named methods, then the meta-operations.
    pub fn into_tables(self) -> (r: (Table<T>, Table<T>))
        ensures
            entries(r.0@) == self.methods_view(),
            entries(r.1@) == self.meta_view(),
    {
        (self.methods, self.meta_methods)
    }
}

impl<T> Default for NonStaticUserDataMethods<T> {
    fn default() -> (r: Self)
        ensures
            r.wf(),
            r.methods_view() == Seq::<(Seq<char>, NonStaticMethod<T>)>::empty(),
            r.meta_view() == Seq::<(Seq<char>, NonStaticMethod<T>)>::empty(),
    {
        Self::new()
    }
}

} // verus!

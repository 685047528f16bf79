use vstd::prelude::*;

use crate::borrow::BorrowFlag;
use crate::error::Error;
use crate::methods::{entries, keys_unique, NonStaticMethod, NonStaticUserDataMethods, Table};
use crate::runtime::{
    acquire, borrow_outcome, call_outcome, names, release, replace_outcome, runtime_inv,
    CallGuard, Runtime, SlotKind, SlotView,
};

verus! {

/// The registry is in order of registration, names each handle once, and
/// every handle in it still holds its host value.
pub open spec fn registry_ok<T>(s: Seq<SlotView<T>>, reg: Seq<usize>) -> bool {
    &&& forall|k: int| 0 <= k < reg.len() ==> (#[trigger] reg[k]) < s.len()
    &&& forall|k: int| 0 <= k < reg.len() ==> s[(#[trigger] reg[k]) as int].value is Some
    &&& forall|j: int, k: int| 0 <= j < k < reg.len() ==> reg[j] < reg[k]
}

/// The handles after every registered one was made inert.
pub open spec fn invalidated<T>(s: Seq<SlotView<T>>, reg: Seq<usize>) -> Seq<SlotView<T>> {
    Seq::new(
        s.len(),
        |i: int|
            if reg.contains(i as usize) {
                SlotView { value: None, ..s[i] }
            } else {
                s[i]
            },
    )
}

/// The host values that teardown collects, in registration order.
pub open spec fn collected<T>(s: Seq<SlotView<T>>, reg: Seq<usize>) -> Seq<T> {
    reg.map_values(|h: usize| s[h as int].value.unwrap())
}

/// A fresh handle for an operation of a scoped data object at `ud`.
pub open spec fn method_slot<T>(m: NonStaticMethod<T>, ud: usize) -> SlotView<T> {
    SlotView {
        kind: match m {
            NonStaticMethod::Method(_) => SlotKind::Method { mutating: false, cell: ud, token: ud },
            NonStaticMethod::MethodMut(_) => SlotKind::Method { mutating: true, cell: ud, token: ud },
            NonStaticMethod::Function(_) => SlotKind::Function,
            NonStaticMethod::FunctionMut(_) => SlotKind::FunctionMut,
        },
        value: Some(m.payload()),
        flag: BorrowFlag { readers: 0, writing: false },
        methods: Seq::empty(),
        meta_methods: Seq::empty(),
    }
}

/// A fresh handle of kind `kind` for `value`.
pub open spec fn fresh_slot<T>(kind: SlotKind, value: T) -> SlotView<T> {
    SlotView {
        kind,
        value: Some(value),
        flag: BorrowFlag { readers: 0, writing: false },
        methods: Seq::empty(),
        meta_methods: Seq::empty(),
    }
}

/// The handles that the operations of table `t` get, for the object at `ud`.
pub open spec fn method_slots<T>(t: Seq<(Seq<char>, NonStaticMethod<T>)>, ud: usize) -> Seq<SlotView<T>> {
    t.map_values(|e: (Seq<char>, NonStaticMethod<T>)| method_slot(e.1, ud))
}

/// The table installed for `t` when its operations get handles from `first` on.
pub open spec fn installed<T>(t: Seq<(Seq<char>, NonStaticMethod<T>)>, first: int) -> Seq<(Seq<char>, usize)> {
    Seq::new(t.len(), |i: int| (t[i].0, (first + i) as usize))
}

/// The handles from `first` on, `n` of them.
pub open spec fn handle_range(first: int, n: int) -> Seq<usize> {
    Seq::new(n as nat, |i: int| (first + i) as usize)
}

/// Lends host values to a runtime for a bounded region. Every closure or data
/// object registered through it is made inert when the scope ends, and only
/// then are the host values dropped.
pub struct Scope<T> {
    runtime: Runtime<T>,
    destructors: Vec<usize>,
}

impl<T> Scope<T> {
    /// The runtime's handles.
    pub closed spec fn slots(&self) -> Seq<SlotView<T>> {
        self.runtime@
    }

    /// The handles to invalidate at the end, in registration order.
    pub closed spec fn registered(&self) -> Seq<usize> {
        self.destructors@
    }

    pub closed spec fn sized(&self) -> bool {
        self.runtime.sized()
    }

    pub open spec fn wf(&self) -> bool {
        &&& self.sized()
        &&& self.slots().len() <= usize::MAX
        &&& runtime_inv(self.slots())
        &&& registry_ok(self.slots(), self.registered())
    }

    /// Opens a scope on `runtime`, with nothing registered yet.
    pub fn new(runtime: Runtime<T>) -> (r: Self)
        requires
            runtime.wf(),
        ensures
            r.wf(),
            r.slots() == runtime@,
            r.registered() == Seq::<usize>::empty(),
    {
        Scope { runtime, destructors: Vec::new() }
    }

    /// Gives `value` a handle of kind `kind` and registers its invalidation.
    fn create_callback(&mut self, kind: SlotKind, value: T) -> (h: usize)
        requires
            old(self).wf(),
            old(self).slots().len() < usize::MAX,
            kind matches SlotKind::ScopedData { token } ==> token == old(self).slots().len(),
            kind matches SlotKind::Method { cell, token, .. } ==> cell < old(self).slots().len()
                && old(self).slots()[cell as int].kind == (SlotKind::ScopedData { token }),
        ensures
            final(self).wf(),
            h == old(self).slots().len(),
            final(self).slots() == old(self).slots().push(fresh_slot(kind, value)),
            final(self).registered() == old(self).registered().push(h),
    {
        let h = self.runtime.push_slot(kind, value);
        self.destructors.push(h);
        assert(fresh_slot(kind, value) == self.runtime@[h as int]);
        h
    }

    /// Gives `value` a handle of kind `kind`, or fails when no handle is left.
    fn create_checked(&mut self, kind: SlotKind, value: T) -> (r: Result<usize, Error>)
        requires
            old(self).wf(),
            kind is Function || kind is FunctionMut || kind is StaticData,
        ensures
            final(self).wf(),
            old(self).slots().len() < usize::MAX ==> r == Ok::<usize, Error>(old(self).slots().len() as usize)
                && final(self).slots() == old(self).slots().push(fresh_slot(kind, value))
                && final(self).registered() == old(self).registered().push(r.unwrap()),
            old(self).slots().len() == usize::MAX ==> r == Err::<usize, Error>(Error::OutOfHandles)
                && final(self).slots() == old(self).slots()
                && final(self).registered() == old(self).registered(),
    {
        if self.runtime.len() == usize::MAX {
            return Err(Error::OutOfHandles);
        }
        Ok(self.create_callback(kind, value))
    }

    /// Registers a host closure, callable any number of times at once, until
    /// the scope ends.
    pub fn create_function(&mut self, func: T) -> (r: Result<usize, Error>)
        requires
            old(self).wf(),
        ensures
            final(self).wf(),
            old(self).slots().len() < usize::MAX ==> r == Ok::<usize, Error>(old(self).slots().len() as usize)
                && final(self).slots() == old(self).slots().push(fresh_slot(SlotKind::Function, func))
                && final(self).registered() == old(self).registered().push(r.unwrap()),
            old(self).slots().len() == usize::MAX ==> r == Err::<usize, Error>(Error::OutOfHandles)
                && final(self).slots() == old(self).slots()
                && final(self).registered() == old(self).registered(),
    {
        self.create_checked(SlotKind::Function, func)
    }

    /// Registers a mutating host closure until the scope ends; entering it
    /// while it runs is refused.
    pub fn create_function_mut(&mut self, func: T) -> (r: Result<usize, Error>)
        requires
            old(self).wf(),
        ensures
            final(self).wf(),
            old(self).slots().len() < usize::MAX ==> r == Ok::<usize, Error>(old(self).slots().len() as usize)
                && final(self).slots() == old(self).slots().push(fresh_slot(SlotKind::FunctionMut, func))
                && final(self).registered() == old(self).registered().push(r.unwrap()),
            old(self).slots().len() == usize::MAX ==> r == Err::<usize, Error>(Error::OutOfHandles)
                && final(self).slots() == old(self).slots()
                && final(self).registered() == old(self).registered(),
    {
        self.create_checked(SlotKind::FunctionMut, func)
    }

    /// Registers a data object whose type carries a global identity; when the
    /// scope ends the value is taken back out and the handle left inert.
    pub fn create_static_userdata(&mut self, data: T) -> (r: Result<usize, Error>)
        requires
            old(self).wf(),
        ensures
            final(self).wf(),
            old(self).slots().len() < usize::MAX ==> r == Ok::<usize, Error>(old(self).slots().len() as usize)
                && final(self).slots() == old(self).slots().push(fresh_slot(SlotKind::StaticData, data))
                && final(self).registered() == old(self).registered().push(r.unwrap()),
            old(self).slots().len() == usize::MAX ==> r == Err::<usize, Error>(Error::OutOfHandles)
                && final(self).slots() == old(self).slots()
                && final(self).registered() == old(self).registered(),
    {
        self.create_checked(SlotKind::StaticData, data)
    }

    /// Gives operation `m` of the scoped data object `ud` a handle of its own.
    fn wrap_method(&mut self, ud: usize, m: NonStaticMethod<T>) -> (h: usize)
        requires
            old(self).wf(),
            old(self).slots().len() < usize::MAX,
            ud < old(self).slots().len(),
            old(self).slots()[ud as int].kind == (SlotKind::ScopedData { token: ud }),
        ensures
            final(self).wf(),
            h == old(self).slots().len(),
            final(self).slots() == old(self).slots().push(method_slot(m, ud)),
            final(self).registered() == old(self).registered().push(h),
    {
        match m {
            NonStaticMethod::Method(f) => self.create_callback(
                SlotKind::Method { mutating: false, cell: ud, token: ud },
                f,
            ),
            NonStaticMethod::MethodMut(f) => self.create_callback(
                SlotKind::Method { mutating: true, cell: ud, token: ud },
                f,
            ),
            NonStaticMethod::Function(f) => self.create_callback(SlotKind::Function, f),
            NonStaticMethod::FunctionMut(f) => self.create_callback(SlotKind::FunctionMut, f),
        }
    }

    /// Gives every operation of `table` a handle, in table order, and returns
    /// the table from keys to those handles.
    fn add_table(&mut self, ud: usize, table: Table<T>) -> (r: Vec<(String, usize)>)
        requires
            old(self).wf(),
            ud < old(self).slots().len(),
            old(self).slots()[ud as int].kind == (SlotKind::ScopedData { token: ud }),
            old(self).slots().len() + table@.len() <= usize::MAX,
            keys_unique(entries(table@)),
        ensures
            final(self).wf(),
            final(self).slots() == old(self).slots() + method_slots(entries(table@), ud),
            final(self).registered() == old(self).registered() + handle_range(
                old(self).slots().len() as int,
                table@.len() as int,
            ),
            names(r@) == installed(entries(table@), old(self).slots().len() as int),
            keys_unique(names(r@)),
    {
        let ghost t0 = entries(table@);
        let ghost s0 = self.slots();
        let ghost r0 = self.registered();
        let n = table.len();
        let first = self.runtime.len();
        let ghost all_slots = method_slots(t0, ud);
        let ghost all_handles = handle_range(first as int, n as int);
        let ghost all_names = installed(t0, first as int);
        let mut table = table;
        let mut out: Vec<(String, usize)> = Vec::new();
        let mut k: usize = 0;
        assert(s0 + all_slots.subrange(0, 0) =~= s0);
        assert(r0 + all_handles.subrange(0, 0) =~= r0);
        assert(names(out@) =~= all_names.subrange(0, 0));
        assert(entries(table@) =~= t0.subrange(0, n as int));
        while table.len() > 0
            invariant
                self.wf(),
                n == t0.len(),
                first == s0.len(),
                first + n <= usize::MAX,
                ud < s0.len(),
                s0[ud as int].kind == (SlotKind::ScopedData { token: ud }),
                k <= n,
                entries(table@) == t0.subrange(k as int, n as int),
                all_slots == method_slots(t0, ud),
                all_handles == handle_range(first as int, n as int),
                all_names == installed(t0, first as int),
                self.slots() == s0 + all_slots.subrange(0, k as int),
                self.registered() == r0 + all_handles.subrange(0, k as int),
                names(out@) == all_names.subrange(0, k as int),
            decreases table.len(),
        {
            let ghost before = table@;
            assert(entries(before).len() == before.len());
            assert(k < n);
            assert(entries(before)[0] == t0.subrange(k as int, n as int)[0]);
            let e = table.remove(0);
            assert(entries(before)[0] == t0[k as int]);
            assert(entries(table@) =~= entries(before).subrange(1, entries(before).len() as int));
            assert(entries(table@) =~= t0.subrange(k + 1, n as int));
            assert(e.0@ == t0[k as int].0 && e.1 == t0[k as int].1);
            let (name, m) = e;
            let h = self.wrap_method(ud, m);
            assert(h == first + k);
            let ghost out_before = out@;
            let ghost key = name@;
            out.push((name, h));
            assert(names(out@) =~= names(out_before).push((key, h)));
            assert(all_names[k as int] == (key, h));
            k = k + 1;
            assert(self.slots() =~= s0 + all_slots.subrange(0, k as int));
            assert(self.registered() =~= r0 + all_handles.subrange(0, k as int));
            assert(names(out@) =~= all_names.subrange(0, k as int));
        }
        assert(all_slots.subrange(0, k as int) =~= all_slots);
        assert(all_handles.subrange(0, k as int) =~= all_handles);
        assert(all_names.subrange(0, k as int) =~= all_names);
        assert(keys_unique(names(out@))) by {
            assert forall|i: int, j: int| 0 <= i < j < all_names.len() implies all_names[i].0
                != all_names[j].0 by {
                assert(all_names[i].0 == t0[i].0);
                assert(all_names[j].0 == t0[j].0);
            }
        }
        out
    }

    /// Registers a data object whose type has no global identity. It gets a
    /// method table of its own, whose methods accept only this instance as
    /// receiver, and every operation of `methods` a handle of its own.
    pub fn create_nonstatic_userdata(&mut self, data: T, methods: NonStaticUserDataMethods<T>) -> (r: Result<usize, Error>)
        requires
            old(self).wf(),
            methods.wf(),
        ensures
            final(self).wf(),
            ({
                let s = old(self).slots();
                let l = s.len() as int;
                let mv = methods.methods_view();
                let xv = methods.meta_view();
                let n = mv.len() as int;
                let x = xv.len() as int;
                if l + 1 + n + x <= usize::MAX {
                    &&& r == Ok::<usize, Error>(l as usize)
                    &&& final(self).slots() == s.push(
                        SlotView {
                            kind: SlotKind::ScopedData { token: l as usize },
                            value: Some(data),
                            flag: BorrowFlag { readers: 0, writing: false },
                            methods: installed(mv, l + 1),
                            meta_methods: installed(xv, l + 1 + n),
                        },
                    ) + method_slots(mv, l as usize) + method_slots(xv, l as usize)
                    &&& final(self).registered() == old(self).registered().push(l as usize)
                        + handle_range(l + 1, n as int) + handle_range(l + 1 + n, x as int)
                } else {
                    &&& r == Err::<usize, Error>(Error::OutOfHandles)
                    &&& final(self).slots() == s
                    &&& final(self).registered() == old(self).registered()
                }
            }),
    {
        let (ms, metas) = methods.into_tables();
        let len = self.runtime.len();
        if len == usize::MAX || usize::MAX - len - 1 < ms.len() || usize::MAX - len - 1 - ms.len()
            < metas.len() {
            return Err(Error::OutOfHandles);
        }
        let ghost s0 = self.slots();
        let ud = self.create_callback(SlotKind::ScopedData { token: len }, data);
        let ghost s1 = self.slots();
        let mt = self.add_table(ud, ms);
        let ghost s2 = self.slots();
        let mmt = self.add_table(ud, metas);
        let ghost s3 = self.slots();
        assert(s3[ud as int] == s1[ud as int]);
        self.runtime.install_tables(ud, mt, mmt);
        assert(self.slots() =~= s0.push(
            SlotView {
                kind: SlotKind::ScopedData { token: len },
                value: Some(data),
                flag: BorrowFlag { readers: 0, writing: false },
                methods: installed(methods.methods_view(), len + 1),
                meta_methods: installed(methods.meta_view(), len + 1 + ms@.len()),
            },
        ) + method_slots(methods.methods_view(), len) + method_slots(methods.meta_view(), len));
        Ok(ud)
    }

    /// First phase of ending the scope: makes every registered handle inert,
    /// in registration order, and collects the host values without dropping
    /// any. The runtime is handed back with the values.
    pub fn invalidate(self) -> (r: (Runtime<T>, Vec<T>))
        requires
            self.wf(),
        ensures
            r.0.wf(),
            r.0@ == invalidated(self.slots(), self.registered()),
            r.1@ == collected(self.slots(), self.registered()),
    {
        let ghost s0 = self.slots();
        let ghost d = self.registered();
        let Scope { runtime, destructors } = self;
        let mut runtime = runtime;
        let mut to_drop: Vec<T> = Vec::new();
        let mut k: usize = 0;
        assert(runtime@ =~= invalidated(s0, d.subrange(0, 0)));
        assert(to_drop@ =~= collected(s0, d.subrange(0, 0)));
        while k < destructors.len()
            invariant
                runtime.wf(),
                d == destructors@,
                k <= d.len(),
                registry_ok(s0, d),
                s0.len() <= usize::MAX,
                runtime@ == invalidated(s0, d.subrange(0, k as int)),
                to_drop@ == collected(s0, d.subrange(0, k as int)),
            decreases d.len() - k,
        {
            let h = destructors[k];
            let ghost done = d.subrange(0, k as int);
            assert(!done.contains(h)) by {
                if done.contains(h) {
                    let j = choose|j: int| 0 <= j < done.len() && done[j] == h;
                    assert(d[j] < d[k as int]);
                }
            }
            assert(runtime@[h as int] == s0[h as int]);
            let v = runtime.invalidate(h);
            let ghost next = d.subrange(0, k + 1);
            assert forall|i: int| 0 <= i < s0.len() implies (#[trigger] next.contains(i as usize) <==> (
            done.contains(i as usize) || h == i as usize)) by {
                if next.contains(i as usize) {
                    let j = choose|j: int| 0 <= j < next.len() && next[j] == i as usize;
                    if j < k {
                        assert(done[j] == i as usize);
                    }
                }
                if done.contains(i as usize) {
                    let j = choose|j: int| 0 <= j < done.len() && done[j] == i as usize;
                    assert(next[j] == i as usize);
                }
                if h == i as usize {
                    assert(next[k as int] == h);
                }
            }
            assert forall|i: int| 0 <= i < s0.len() implies runtime@[i] == invalidated(s0, next)[i] by {
                if i == h as int {
                    assert(next.contains(h));
                } else {
                    assert(next.contains(i as usize) == done.contains(i as usize));
                }
            }
            assert(runtime@ =~= invalidated(s0, next));
            match v {
                Some(x) => {
                    to_drop.push(x);
                },
                None => {},
            }
            k = k + 1;
            assert(to_drop@ =~= collected(s0, d.subrange(0, k as int)));
        }
        assert(d.subrange(0, k as int) =~= d);
        (runtime, to_drop)
    }

    /// Ends the scope: every registered handle is made inert first, and only
    /// then are the collected host values dropped, in registration order.
    pub fn end(self) -> (r: Runtime<T>)
        requires
            self.wf(),
        ensures
            r.wf(),
            r@ == invalidated(self.slots(), self.registered()),
    {
        // Every handle is inert once `invalidate` returns; the collected values
        // are dropped, first to last, when `_to_drop` goes out of scope.
        let (runtime, _to_drop) = self.invalidate();
        runtime
    }

    /// The runtime, for reading.
    pub fn runtime(&self) -> (r: &Runtime<T>)
        ensures
            r@ == self.slots(),
    {
        &self.runtime
    }

    /// A foreign call through handle `h`; see [`Runtime::call`].
    pub fn call(&mut self, h: usize, receiver: Option<usize>) -> (r: Result<CallGuard, Error>)
        requires
            old(self).wf(),
        ensures
            final(self).wf(),
            final(self).registered() == old(self).registered(),
            r == call_outcome(old(self).slots(), h, receiver),
            final(self).slots() == match r {
                Ok(g) => acquire(old(self).slots(), g),
                Err(_) => old(self).slots(),
            },
    {
        self.runtime.call(h, receiver)
    }

    /// Borrows a globally typed data object; see [`Runtime::borrow_static`].
    pub fn borrow_static(&mut self, h: usize, write: bool) -> (r: Result<CallGuard, Error>)
        requires
            old(self).wf(),
        ensures
            final(self).wf(),
            final(self).registered() == old(self).registered(),
            r == borrow_outcome(old(self).slots(), h, write),
            final(self).slots() == match r {
                Ok(g) => acquire(old(self).slots(), g),
                Err(_) => old(self).slots(),
            },
    {
        self.runtime.borrow_static(h, write)
    }

    /// Gives back the borrows that `g` records; see [`Runtime::finish`].
    pub fn finish(&mut self, g: CallGuard)
        requires
            old(self).wf(),
        ensures
            final(self).wf(),
            final(self).registered() == old(self).registered(),
            final(self).slots() == release(old(self).slots(), g),
    {
        self.runtime.finish(g)
    }

    /// Replaces the data behind a write borrow; see [`Runtime::replace_data`].
    pub fn replace_data(&mut self, g: &CallGuard, v: T) -> (r: Result<T, Error>)
        requires
            old(self).wf(),
        ensures
            final(self).wf(),
            final(self).registered() == old(self).registered(),
            r == replace_outcome(old(self).slots(), *g),
            final(self).slots() == match r {
                Ok(_) => old(self).slots().update(
                    g.cell.unwrap() as int,
                    SlotView { value: Some(v), ..old(self).slots()[g.cell.unwrap() as int] },
                ),
                Err(_) => old(self).slots(),
            },
    {
        self.runtime.replace_data(g, v)
    }
}

} // verus!

use vstd::prelude::*;

use crate::borrow::BorrowFlag;
use crate::error::Error;
use crate::methods::{keys_unique, lemma_lookup_at, lookup};

verus! {

/// What a handle of the runtime stands for.
#[derive(Clone, Copy, Debug, PartialEq, Eq, Structural)]
pub enum SlotKind {
    /// A host closure that may be entered any number of times at once.
    Function,
    /// A host closure that must not be entered while it is running.
    FunctionMut,
    /// A data object whose type carries a global identity.
    StaticData,
    /// A data object without global type identity; `token` identifies the
    /// instance (it is the handle's own index).
    ScopedData { token: usize },
    /// A method of one scoped data object: it borrows the data at `cell`
    /// and accepts only a receiver that carries `token`.
    Method { mutating: bool, cell: usize, token: usize },
}

/// A borrow granted by a call or a data borrow, given back by
/// [`Runtime::finish`].
#[derive(Debug, PartialEq, Eq, Structural)]
pub struct CallGuard {
    /// The handle that was called or borrowed.
    pub handle: usize,
    /// The handle's own running flag was taken (a mutating callback).
    pub own: bool,
    /// The data cell that was borrowed, if any.
    pub cell: Option<usize>,
    /// The data cell was borrowed for writing.
    pub write: bool,
}

/// One handle of the runtime as the contracts see it.
pub struct SlotView<T> {
    pub kind: SlotKind,
    /// The host value behind the handle; `None` once it was invalidated.
    pub value: Option<T>,
    /// The handle's dynamic borrow state.
    pub flag: BorrowFlag,
    /// For scoped data: method name to method handle.
    pub methods: Seq<(Seq<char>, usize)>,
    /// For scoped data: meta key to method handle.
    pub meta_methods: Seq<(Seq<char>, usize)>,
}

/// The keys of a method table as character sequences.
pub open spec fn names(t: Seq<(String, usize)>) -> Seq<(Seq<char>, usize)> {
    t.map_values(|e: (String, usize)| (e.0@, e.1))
}

/// What holds of the runtime's handles in every reachable state.
pub open spec fn runtime_inv<T>(s: Seq<SlotView<T>>) -> bool {
    &&& forall|i: int| 0 <= i < s.len() ==> (#[trigger] s[i]).flag.wf()
    &&& forall|i: int|
        0 <= i < s.len() ==> ((#[trigger] s[i]).kind matches SlotKind::ScopedData { token }
            ==> token == i)
    &&& forall|i: int|
        0 <= i < s.len() ==> ((#[trigger] s[i]).kind matches SlotKind::Method { cell, token, .. }
            ==> cell < s.len() && s[cell as int].kind == (SlotKind::ScopedData { token }))
    &&& forall|i: int|
        0 <= i < s.len() ==> keys_unique((#[trigger] s[i]).methods) && keys_unique(
            s[i].meta_methods,
        )
}

pub open spec fn with_flag<T>(s: Seq<SlotView<T>>, i: int, f: BorrowFlag) -> Seq<SlotView<T>> {
    s.update(i, SlotView { flag: f, ..s[i] })
}

/// The receiver carries the identity token `token`.
pub open spec fn receiver_matches<T>(s: Seq<SlotView<T>>, receiver: Option<usize>, token: usize) -> bool {
    match receiver {
        Some(r) => r < s.len() && s[r as int].kind == (SlotKind::ScopedData { token }),
        None => false,
    }
}

/// What a foreign call through handle `h` with first argument `receiver`
/// yields: the borrow it takes, or why it is refused.
pub open spec fn call_outcome<T>(s: Seq<SlotView<T>>, h: usize, receiver: Option<usize>) -> Result<CallGuard, Error> {
    if h >= s.len() {
        Err(Error::InvalidHandle)
    } else {
        let slot = s[h as int];
        match slot.kind {
            SlotKind::StaticData => Err(Error::NotCallable),
            SlotKind::ScopedData { .. } => Err(Error::NotCallable),
            SlotKind::Function => if slot.value is None {
                Err(Error::CallbackDestructed)
            } else {
                Ok(CallGuard { handle: h, own: false, cell: None, write: false })
            },
            SlotKind::FunctionMut => if slot.value is None {
                Err(Error::CallbackDestructed)
            } else if !slot.flag.writable() {
                Err(Error::RecursiveMutCallback)
            } else {
                Ok(CallGuard { handle: h, own: true, cell: None, write: false })
            },
            SlotKind::Method { mutating, cell, token } => if slot.value is None {
                Err(Error::CallbackDestructed)
            } else if !receiver_matches(s, receiver, token) {
                Err(Error::UserDataTypeMismatch)
            } else if s[cell as int].value is None {
                Err(Error::UserDataDestructed)
            } else if mutating {
                if !slot.flag.writable() {
                    Err(Error::RecursiveMutCallback)
                } else if !s[cell as int].flag.writable() {
                    Err(Error::UserDataBorrowMutError)
                } else {
                    Ok(CallGuard { handle: h, own: true, cell: Some(cell), write: true })
                }
            } else if !s[cell as int].flag.readable() {
                Err(Error::UserDataBorrowError)
            } else {
                Ok(CallGuard { handle: h, own: false, cell: Some(cell), write: false })
            },
        }
    }
}

/// What borrowing the globally typed data object `h` yields.
pub open spec fn borrow_outcome<T>(s: Seq<SlotView<T>>, h: usize, write: bool) -> Result<CallGuard, Error> {
    if h >= s.len() {
        Err(Error::InvalidHandle)
    } else if s[h as int].kind != SlotKind::StaticData {
        Err(Error::UserDataTypeMismatch)
    } else if s[h as int].value is None {
        Err(Error::UserDataDestructed)
    } else if write && !s[h as int].flag.writable() {
        Err(Error::UserDataBorrowMutError)
    } else if !write && !s[h as int].flag.readable() {
        Err(Error::UserDataBorrowError)
    } else {
        Ok(CallGuard { handle: h, own: false, cell: Some(h), write })
    }
}

/// The handles after the borrows that `g` records were taken.
pub open spec fn acquire<T>(s: Seq<SlotView<T>>, g: CallGuard) -> Seq<SlotView<T>> {
    let s1 = if g.own {
        with_flag(s, g.handle as int, s[g.handle as int].flag.acquired(true))
    } else {
        s
    };
    match g.cell {
        Some(c) => with_flag(s1, c as int, s1[c as int].flag.acquired(g.write)),
        None => s1,
    }
}

/// The handles after the borrows that `g` records were given back.
pub open spec fn release<T>(s: Seq<SlotView<T>>, g: CallGuard) -> Seq<SlotView<T>> {
    let s1 = if g.own && g.handle < s.len() {
        with_flag(s, g.handle as int, s[g.handle as int].flag.released(true))
    } else {
        s
    };
    match g.cell {
        Some(c) => if c < s.len() {
            with_flag(s1, c as int, s1[c as int].flag.released(g.write))
        } else {
            s1
        },
        None => s1,
    }
}

/// The data that a guard's borrow reaches.
pub open spec fn guard_data<T>(s: Seq<SlotView<T>>, g: CallGuard) -> Option<T> {
    match g.cell {
        Some(c) => if c < s.len() {
            s[c as int].value
        } else {
            None
        },
        None => None,
    }
}

/// What replacing the data behind a guard yields.
pub open spec fn replace_outcome<T>(s: Seq<SlotView<T>>, g: CallGuard) -> Result<T, Error> {
    match g.cell {
        Some(c) => if !g.write || c >= s.len() || !s[c as int].flag.writing {
            Err(Error::UserDataBorrowMutError)
        } else if s[c as int].value is None {
            Err(Error::UserDataDestructed)
        } else {
            Ok(s[c as int].value.unwrap())
        },
        None => Err(Error::UserDataBorrowMutError),
    }
}

/// What looking up `name` among the methods (or, with `meta`, the
/// meta-operations) of the scoped data object `ud` yields.
pub open spec fn lookup_outcome<T>(s: Seq<SlotView<T>>, ud: usize, name: Seq<char>, meta: bool) -> Result<usize, Error> {
    if ud >= s.len() {
        Err(Error::InvalidHandle)
    } else if !(s[ud as int].kind is ScopedData) {
        Err(Error::UserDataTypeMismatch)
    } else {
        let t = if meta { s[ud as int].meta_methods } else { s[ud as int].methods };
        match lookup(t, name) {
            Some(m) => Ok(m),
            None => Err(Error::NoSuchMethod),
        }
    }
}

/// The storage of the embedded runtime: every value it was handed, behind
/// the index that serves as its handle.
pub struct Runtime<T> {
    kinds: Vec<SlotKind>,
    values: Vec<Option<T>>,
    flags: Vec<BorrowFlag>,
    methods: Vec<Vec<(String, usize)>>,
    meta_methods: Vec<Vec<(String, usize)>>,
}

impl<T> View for Runtime<T> {
    type V = Seq<SlotView<T>>;

    closed spec fn view(&self) -> Seq<SlotView<T>> {
        Seq::new(
            self.kinds.len() as nat,
            |i: int|
                SlotView {
                    kind: self.kinds@[i],
                    value: self.values@[i],
                    flag: self.flags@[i],
                    methods: names(self.methods@[i]@),
                    meta_methods: names(self.meta_methods@[i]@),
                },
        )
    }
}

impl<T> Runtime<T> {
    pub closed spec fn sized(&self) -> bool {
        &&& self.values.len() == self.kinds.len()
        &&& self.flags.len() == self.kinds.len()
        &&& self.methods.len() == self.kinds.len()
        &&& self.meta_methods.len() == self.kinds.len()
    }

    pub open spec fn wf(&self) -> bool {
        &&& self.sized()
        &&& self@.len() <= usize::MAX
        &&& runtime_inv(self@)
    }

    /// A runtime that holds no value.
    pub fn new() -> (r: Self)
        ensures
            r.wf(),
            r@ == Seq::<SlotView<T>>::empty(),
    {
        let r = Runtime {
            kinds: Vec::new(),
            values: Vec::new(),
            flags: Vec::new(),
            methods: Vec::new(),
            meta_methods: Vec::new(),
        };
        assert(r@ =~= Seq::<SlotView<T>>::empty());
        r
    }

    /// The number of handles given out so far.
    pub fn len(&self) -> (r: usize)
        requires
            self.wf(),
        ensures
            r == self@.len(),
    {
        self.kinds.len()
    }

    fn set_flag(&mut self, i: usize, f: BorrowFlag)
        requires
            old(self).sized(),
            i < old(self)@.len(),
        ensures
            final(self).sized(),
            final(self)@ == with_flag(old(self)@, i as int, f),
    {
        self.flags.set(i, f);
        assert(self@ =~= with_flag(old(self)@, i as int, f));
    }

    /// Adds a handle of kind `kind` for `value`, with empty method tables.
    pub(crate) fn push_slot(&mut self, kind: SlotKind, value: T) -> (h: usize)
        requires
            old(self).wf(),
            old(self)@.len() < usize::MAX,
            kind matches SlotKind::ScopedData { token } ==> token == old(self)@.len(),
            kind matches SlotKind::Method { cell, token, .. } ==> cell < old(self)@.len()
                && old(self)@[cell as int].kind == (SlotKind::ScopedData { token }),
        ensures
            final(self).wf(),
            h == old(self)@.len(),
            final(self)@ == old(self)@.push(
                SlotView {
                    kind,
                    value: Some(value),
                    flag: BorrowFlag { readers: 0, writing: false },
                    methods: Seq::empty(),
                    meta_methods: Seq::empty(),
                },
            ),
    {
        let h = self.kinds.len();
        self.kinds.push(kind);
        self.values.push(Some(value));
        self.flags.push(BorrowFlag::new());
        self.methods.push(Vec::new());
        self.meta_methods.push(Vec::new());
        let ghost e = Seq::<(String, usize)>::empty();
        assert(names(e) =~= Seq::empty());
        assert(self@ =~= old(self)@.push(
            SlotView {
                kind,
                value: Some(value),
                flag: BorrowFlag { readers: 0, writing: false },
                methods: Seq::empty(),
                meta_methods: Seq::empty(),
            },
        ));
        h
    }

    /// Installs the method tables of the scoped data object `ud`.
    pub(crate) fn install_tables(
        &mut self,
        ud: usize,
        methods: Vec<(String, usize)>,
        meta_methods: Vec<(String, usize)>,
    )
        requires
            old(self).wf(),
            ud < old(self)@.len(),
            keys_unique(names(methods@)),
            keys_unique(names(meta_methods@)),
        ensures
            final(self).wf(),
            final(self)@ == old(self)@.update(
                ud as int,
                SlotView {
                    methods: names(methods@),
                    meta_methods: names(meta_methods@),
                    ..old(self)@[ud as int]
                },
            ),
    {
        let ghost m = names(methods@);
        let ghost mm = names(meta_methods@);
        self.methods.set(ud, methods);
        self.meta_methods.set(ud, meta_methods);
        assert(self@ =~= old(self)@.update(
            ud as int,
            SlotView { methods: m, meta_methods: mm, ..old(self)@[ud as int] },
        ));
    }

    /// Takes the host value out of handle `h`, leaving the handle inert.
    pub(crate) fn invalidate(&mut self, h: usize) -> (r: Option<T>)
        requires
            old(self).wf(),
            h < old(self)@.len(),
        ensures
            final(self).wf(),
            r == old(self)@[h as int].value,
            final(self)@ == old(self)@.update(
                h as int,
                SlotView { value: None, ..old(self)@[h as int] },
            ),
    {
        let mut out: Option<T> = None;
        self.values.set_and_swap(h, &mut out);
        assert(self@ =~= old(self)@.update(h as int, SlotView { value: None, ..old(self)@[h as int] }));
        out
    }

    /// A foreign call through handle `h`, whose first argument is `receiver`
    /// where that is a handle. On success the host logic may run until the
    /// returned guard is given to [`Runtime::finish`].
    pub fn call(&mut self, h: usize, receiver: Option<usize>) -> (r: Result<CallGuard, Error>)
        requires
            old(self).wf(),
        ensures
            final(self).wf(),
            r == call_outcome(old(self)@, h, receiver),
            final(self)@ == match r {
                Ok(g) => acquire(old(self)@, g),
                Err(_) => old(self)@,
            },
    {
        if h >= self.kinds.len() {
            return Err(Error::InvalidHandle);
        }
        let kind = self.kinds[h];
        match kind {
            SlotKind::StaticData => Err(Error::NotCallable),
            SlotKind::ScopedData { .. } => Err(Error::NotCallable),
            SlotKind::Function => {
                if self.values[h].is_none() {
                    return Err(Error::CallbackDestructed);
                }
                Ok(CallGuard { handle: h, own: false, cell: None, write: false })
            },
            SlotKind::FunctionMut => {
                if self.values[h].is_none() {
                    return Err(Error::CallbackDestructed);
                }
                let mut own = self.flags[h];
                if !own.can_write() {
                    return Err(Error::RecursiveMutCallback);
                }
                own.acquire(true);
                self.set_flag(h, own);
                Ok(CallGuard { handle: h, own: true, cell: None, write: false })
            },
            SlotKind::Method { mutating, cell, token } => {
                if self.values[h].is_none() {
                    return Err(Error::CallbackDestructed);
                }
                let matched = match receiver {
                    Some(r) => r < self.kinds.len() && match self.kinds[r] {
                        SlotKind::ScopedData { token: t } => t == token,
                        _ => false,
                    },
                    None => false,
                };
                if !matched {
                    return Err(Error::UserDataTypeMismatch);
                }
                proof {
                    assert(self@[h as int].kind == kind);
                }
                if self.values[cell].is_none() {
                    return Err(Error::UserDataDestructed);
                }
                if mutating {
                    let mut own = self.flags[h];
                    if !own.can_write() {
                        return Err(Error::RecursiveMutCallback);
                    }
                    let mut data = self.flags[cell];
                    if !data.can_write() {
                        return Err(Error::UserDataBorrowMutError);
                    }
                    own.acquire(true);
                    self.set_flag(h, own);
                    data.acquire(true);
                    self.set_flag(cell, data);
                    Ok(CallGuard { handle: h, own: true, cell: Some(cell), write: true })
                } else {
                    let mut data = self.flags[cell];
                    if !data.can_read() {
                        return Err(Error::UserDataBorrowError);
                    }
                    data.acquire(false);
                    self.set_flag(cell, data);
                    Ok(CallGuard { handle: h, own: false, cell: Some(cell), write: false })
                }
            },
        }
    }

    /// Borrows the globally typed data object `h` directly, for reading or
    /// for writing.
    pub fn borrow_static(&mut self, h: usize, write: bool) -> (r: Result<CallGuard, Error>)
        requires
            old(self).wf(),
        ensures
            final(self).wf(),
            r == borrow_outcome(old(self)@, h, write),
            final(self)@ == match r {
                Ok(g) => acquire(old(self)@, g),
                Err(_) => old(self)@,
            },
    {
        if h >= self.kinds.len() {
            return Err(Error::InvalidHandle);
        }
        match self.kinds[h] {
            SlotKind::StaticData => {},
            _ => {
                return Err(Error::UserDataTypeMismatch);
            },
        }
        if self.values[h].is_none() {
            return Err(Error::UserDataDestructed);
        }
        let mut data = self.flags[h];
        if write && !data.can_write() {
            return Err(Error::UserDataBorrowMutError);
        }
        if !write && !data.can_read() {
            return Err(Error::UserDataBorrowError);
        }
        data.acquire(write);
        self.set_flag(h, data);
        Ok(CallGuard { handle: h, own: false, cell: Some(h), write })
    }

    /// Gives back the borrows that `g` records.
    pub fn finish(&mut self, g: CallGuard)
        requires
            old(self).wf(),
        ensures
            final(self).wf(),
            final(self)@ == release(old(self)@, g),
    {
        let len = self.kinds.len();
        if g.own && g.handle < len {
            let mut own = self.flags[g.handle];
            own.release(true);
            self.set_flag(g.handle, own);
        }
        assert(self@.len() == len);
        match g.cell {
            Some(c) => {
                if c < len {
                    let mut data = self.flags[c];
                    data.release(g.write);
                    self.set_flag(c, data);
                }
            },
            None => {},
        }
    }

    /// The data that the borrow of `g` reaches.
    pub fn data(&self, g: &CallGuard) -> (r: Option<&T>)
        requires
            self.wf(),
        ensures
            r is Some == guard_data(self@, *g) is Some,
            r is Some ==> *r.unwrap() == guard_data(self@, *g).unwrap(),
    {
        match g.cell {
            Some(c) => if c < self.values.len() {
                self.values[c].as_ref()
            } else {
                None
            },
            None => None,
        }
    }

    /// Replaces the data behind a write borrow, handing back what it held.
    pub fn replace_data(&mut self, g: &CallGuard, v: T) -> (r: Result<T, Error>)
        requires
            old(self).wf(),
        ensures
            final(self).wf(),
            r == replace_outcome(old(self)@, *g),
            final(self)@ == match r {
                Ok(_) => old(self)@.update(
                    g.cell.unwrap() as int,
                    SlotView { value: Some(v), ..old(self)@[g.cell.unwrap() as int] },
                ),
                Err(_) => old(self)@,
            },
    {
        let c = match g.cell {
            Some(c) => c,
            None => {
                return Err(Error::UserDataBorrowMutError);
            },
        };
        if !g.write || c >= self.kinds.len() || !self.flags[c].writing {
            return Err(Error::UserDataBorrowMutError);
        }
        if self.values[c].is_none() {
            return Err(Error::UserDataDestructed);
        }
        let mut out = Some(v);
        self.values.set_and_swap(c, &mut out);
        assert(self@ =~= old(self)@.update(c as int, SlotView { value: Some(v), ..old(self)@[c as int] }));
        match out {
            Some(o) => Ok(o),
            None => Err(Error::UserDataDestructed),
        }
    }

    /// The host value behind handle `h`, unless it was invalidated.
    pub fn value(&self, h: usize) -> (r: Option<&T>)
        requires
            self.wf(),
        ensures
            r is Some == (h < self@.len() && self@[h as int].value is Some),
            r is Some ==> *r.unwrap() == self@[h as int].value.unwrap(),
    {
        if h < self.values.len() {
            self.values[h].as_ref()
        } else {
            None
        }
    }

    /// The method handle that scoped data `ud` has under `name`; with `meta`,
    /// the meta-operation under that key.
    pub fn method(&self, ud: usize, name: &String, meta: bool) -> (r: Result<usize, Error>)
        requires
            self.wf(),
        ensures
            r == lookup_outcome(self@, ud, name@, meta),
    {
        if ud >= self.kinds.len() {
            return Err(Error::InvalidHandle);
        }
        match self.kinds[ud] {
            SlotKind::ScopedData { .. } => {},
            _ => {
                return Err(Error::UserDataTypeMismatch);
            },
        }
        assert(self@[ud as int].kind is ScopedData);
        let t = if meta { &self.meta_methods[ud] } else { &self.methods[ud] };
        let ghost nt = names(t@);
        assert(nt == if meta { self@[ud as int].meta_methods } else { self@[ud as int].methods });
        let mut i: usize = 0;
        while i < t.len()
            invariant
                0 <= i <= t.len(),
                nt == names(t@),
                nt == if meta { self@[ud as int].meta_methods } else { self@[ud as int].methods },
                ud < self@.len(),
                self@[ud as int].kind is ScopedData,
                keys_unique(nt),
                forall|j: int| 0 <= j < i ==> nt[j].0 != name@,
            decreases t.len() - i,
        {
            if t[i].0 == *name {
                proof {
                    assert(nt[i as int] == (t@[i as int].0@, t@[i as int].1));
                    lemma_lookup_at(nt, i as int);
                }
                return Ok(t[i].1);
            }
            assert(nt[i as int] == (t@[i as int].0@, t@[i as int].1));
            i = i + 1;
        }
        Err(Error::NoSuchMethod)
    }
}

} // verus!

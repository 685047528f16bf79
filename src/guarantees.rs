use vstd::prelude::*;

use crate::error::Error;
use crate::runtime::{
    acquire, borrow_outcome, call_outcome, guard_data, runtime_inv, CallGuard, SlotKind, SlotView,
};
use crate::scope::{collected, invalidated, registry_ok};

verus! {

/// Once a scope has ended, no call through a handle it registered reaches
/// host logic: a closure or method reports that it was destructed, a data
/// object cannot be called, and borrowing a data object reports that it was
/// destructed (or, for data without global identity, that it has no type).
pub proof fn lemma_inert_after_end<T>(
    s: Seq<SlotView<T>>,
    reg: Seq<usize>,
    h: usize,
    receiver: Option<usize>,
    write: bool,
)
    requires
        registry_ok(s, reg),
        s.len() <= usize::MAX,
        reg.contains(h),
    ensures
        call_outcome(invalidated(s, reg), h, receiver) == if s[h as int].kind is StaticData
            || s[h as int].kind is ScopedData {
            Err::<CallGuard, Error>(Error::NotCallable)
        } else {
            Err::<CallGuard, Error>(Error::CallbackDestructed)
        },
        borrow_outcome(invalidated(s, reg), h, write) == if s[h as int].kind is StaticData {
            Err::<CallGuard, Error>(Error::UserDataDestructed)
        } else {
            Err::<CallGuard, Error>(Error::UserDataTypeMismatch)
        },
{
    let k = choose|k: int| 0 <= k < reg.len() && reg[k] == h;
    assert(reg[k] < s.len());
    let after = invalidated(s, reg);
    assert(after[h as int].value is None);
    assert(after[h as int].kind == s[h as int].kind);
}

/// Ending a scope first makes every registered handle inert and only yields
/// the host values, in registration order, once all of them are: no value is
/// dropped while any of its handles can still reach it.
pub proof fn lemma_invalidate_before_drop<T>(s: Seq<SlotView<T>>, reg: Seq<usize>)
    requires
        registry_ok(s, reg),
        s.len() <= usize::MAX,
    ensures
        collected(s, reg).len() == reg.len(),
        forall|k: int| 0 <= k < reg.len() ==> (#[trigger] invalidated(s, reg)[reg[k] as int]).value is None,
        forall|k: int|
            0 <= k < reg.len() ==> Some(#[trigger] collected(s, reg)[k]) == s[reg[k] as int].value,
{
    assert forall|k: int| 0 <= k < reg.len() implies (#[trigger] invalidated(s, reg)[reg[k] as int]).value is None by {
        assert(reg.contains(reg[k]));
    }
}

/// A method taken from one scoped data object refuses the handle of another
/// scoped data object as its receiver.
pub proof fn lemma_instances_not_interchangeable<T>(s: Seq<SlotView<T>>, m: usize, b: usize)
    requires
        runtime_inv(s),
        m < s.len(),
        s[m as int].kind is Method,
        s[m as int].value is Some,
        b < s.len(),
        s[b as int].kind is ScopedData,
        b != s[m as int].kind->Method_cell,
    ensures
        call_outcome(s, m, Some(b)) == Err::<CallGuard, Error>(Error::UserDataTypeMismatch),
{
    let a = s[m as int].kind->Method_cell;
    assert(s[a as int].kind == (SlotKind::ScopedData { token: s[m as int].kind->Method_token }));
    assert(s[b as int].kind->ScopedData_token == b);
}

/// A mutating closure or method that is running refuses to be entered again
/// (with the same receiver) until the running call finishes.
pub proof fn lemma_reentrant_mutation_rejected<T>(s: Seq<SlotView<T>>, h: usize, receiver: Option<usize>, g: CallGuard)
    requires
        runtime_inv(s),
        call_outcome(s, h, receiver) == Ok::<CallGuard, Error>(g),
        s[h as int].kind is FunctionMut || s[h as int].kind is Method && s[h as int].kind->Method_mutating,
    ensures
        call_outcome(acquire(s, g), h, receiver) == Err::<CallGuard, Error>(Error::RecursiveMutCallback),
{
    let s2 = acquire(s, g);
    assert(s2[h as int].flag.writing);
    assert(s2[h as int].kind == s[h as int].kind);
    assert(s2[h as int].value == s[h as int].value);
    if s[h as int].kind is Method {
        let c = s[h as int].kind->Method_cell;
        assert(s2[c as int].value == s[c as int].value);
        let r = receiver.unwrap();
        assert(s2[r as int].kind == s[r as int].kind);
    }
}

/// While a read method of a scoped data object runs, another read method of
/// the same object may run as well, but a write method is refused.
pub proof fn lemma_borrow_discipline<T>(
    s: Seq<SlotView<T>>,
    rm: usize,
    ud: usize,
    g: CallGuard,
    rm2: usize,
    wm: usize,
)
    requires
        runtime_inv(s),
        call_outcome(s, rm, Some(ud)) == Ok::<CallGuard, Error>(g),
        s[rm as int].kind == (SlotKind::Method { mutating: false, cell: ud, token: ud }),
        rm2 < s.len(),
        s[rm2 as int].kind == (SlotKind::Method { mutating: false, cell: ud, token: ud }),
        s[rm2 as int].value is Some,
        s[ud as int].flag.readers + 1 < u64::MAX,
        wm < s.len(),
        s[wm as int].kind == (SlotKind::Method { mutating: true, cell: ud, token: ud }),
        s[wm as int].value is Some,
        s[wm as int].flag.writable(),
    ensures
        call_outcome(acquire(s, g), rm2, Some(ud)) is Ok,
        call_outcome(acquire(s, g), wm, Some(ud)) == Err::<CallGuard, Error>(Error::UserDataBorrowMutError),
{
    let s2 = acquire(s, g);
    assert(s2[ud as int].flag.readers == s[ud as int].flag.readers + 1);
    assert(!s2[ud as int].flag.writing);
    assert(s2[rm2 as int] == s[rm2 as int]);
    assert(s2[wm as int] == s[wm as int]);
    assert(s2[ud as int].kind == s[ud as int].kind);
    assert(s2[ud as int].value == s[ud as int].value);
}

/// A registered data object with global identity lends back the value it was
/// given while its scope lasts, and reports that it was destructed once the
/// scope has ended.
pub proof fn lemma_static_round_trip<T>(s: Seq<SlotView<T>>, reg: Seq<usize>, h: usize, v: T)
    requires
        registry_ok(s, reg),
        s.len() <= usize::MAX,
        reg.contains(h),
        s[h as int].kind == SlotKind::StaticData,
        s[h as int].value == Some(v),
        s[h as int].flag.readable(),
    ensures
        borrow_outcome(s, h, false) is Ok,
        guard_data(acquire(s, borrow_outcome(s, h, false).unwrap()), borrow_outcome(s, h, false).unwrap())
            == Some(v),
        borrow_outcome(invalidated(s, reg), h, false) == Err::<CallGuard, Error>(Error::UserDataDestructed),
{
    let k = choose|k: int| 0 <= k < reg.len() && reg[k] == h;
    assert(reg[k] < s.len());
    let after = invalidated(s, reg);
    assert(after[h as int].value is None);
    assert(after[h as int].kind == s[h as int].kind);
}

} // verus!

use vstd::prelude::*;

verus! {

/// Errors reported across the boundary between host and runtime.
#[derive(Clone, Copy, Debug, PartialEq, Eq, Structural)]
pub enum Error {
    /// A mutating callback was entered while it was already running.
    RecursiveMutCallback,
    /// A read borrow of user data was refused: it is mutably borrowed.
    UserDataBorrowError,
    /// A write borrow of user data was refused: it is borrowed.
    UserDataBorrowMutError,
    /// The receiver is not the instance (or the type) the operation belongs to.
    UserDataTypeMismatch,
    /// The callback behind the handle was invalidated when its scope ended.
    CallbackDestructed,
    /// The user data behind the handle was invalidated when its scope ended.
    UserDataDestructed,
    /// The handle names a data object, which cannot be called.
    NotCallable,
    /// The handle does not name any value of the runtime.
    InvalidHandle,
    /// The user data has no method under the requested name.
    NoSuchMethod,
    /// The runtime has no room left for another handle.
    OutOfHandles,
}

} // verus!

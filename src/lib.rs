//! Scoped registration of short-lived host values with an embedded runtime.
//!
//! A [`Scope`] lends values to a [`Runtime`] for a bounded region and, when the
//! region ends, makes every handle it gave out inert before any of the values
//! is dropped.
pub mod borrow;
pub mod error;
pub mod guarantees;
pub mod methods;
pub mod runtime;
pub mod scope;

pub use borrow::BorrowFlag;
pub use error::Error;
pub use methods::{NonStaticMethod, NonStaticUserDataMethods};
pub use runtime::{CallGuard, Runtime, SlotKind, SlotView};
pub use scope::Scope;

//! Marker traits for values that may cross threads.

use vstd::prelude::*;

verus! {

/// A value that may be sent to another thread.
pub trait OptionalSend: Send {}

impl<T: Send + ?Sized> OptionalSend for T {}

/// A value that may be shared between threads.
pub trait OptionalSync: Sync {}

impl<T: Sync + ?Sized> OptionalSync for T {}

} // verus!

//! What a type has to offer to be sent and shared between tasks.

use vstd::prelude::*;

verus! {

pub trait MaybeSend: Send {

}

impl<T: Send> MaybeSend for T {

}

pub trait MaybeSync: Sync {

}

impl<T: Sync> MaybeSync for T {

}

} // verus!

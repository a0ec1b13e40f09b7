//! Scoped lifetime regions.

use vstd::prelude::*;
use std::marker::PhantomData;
use crate::runtime::Runtime;

verus! {

/// A region on the engine's handle stack. What is created while the region
/// is open may be collected once it is closed, unless it was stored somewhere
/// that lives longer. Regions are closed in the reverse of the order in
/// which they were opened.
#[derive(Debug)]
pub struct Scope<'rt> {
    handle: u64,
    owner: PhantomData<&'rt Runtime>,
}

impl<'rt> View for Scope<'rt> {
    type V = u64;

    closed spec fn view(&self) -> u64 {
        self.handle
    }
}

impl<'rt> Scope<'rt> {
    /// Takes ownership of the region behind `handle`, which the engine `rt`
    /// has just opened.
    pub fn adopt(rt: &'rt Runtime, handle: u64) -> (r: Self)
        ensures
            r@ == handle,
    {
        Scope { handle, owner: PhantomData }
    }

    /// Gives the handle up, for the region to be closed exactly once.
    pub fn into_handle(self) -> (h: u64)
        ensures
            h == self@,
    {
        self.handle
    }
}

} // verus!

//! Symbol handles.

use vstd::prelude::*;
use vstd::std_specs::convert::FromSpecImpl;
use std::marker::PhantomData;
use crate::runtime::Runtime;
use crate::value::{Value, ValueKind};

verus! {

/// A handle to a symbol in the engine. It owns one unit of the engine's
/// reference count for it.
#[derive(Debug)]
pub struct Symbol<'rt> {
    pub(crate) handle: u64,
    pub(crate) owner: PhantomData<&'rt Runtime>,
}

impl<'rt> View for Symbol<'rt> {
    type V = u64;

    closed spec fn view(&self) -> u64 {
        self.handle
    }
}

impl<'rt> Symbol<'rt> {
    /// Takes ownership of a handle to a symbol that the engine `rt` returned.
    pub fn adopt(rt: &'rt Runtime, handle: u64) -> (r: Self)
        ensures
            r@ == handle,
    {
        Self::from_handle(handle)
    }

    /// Wraps a handle whose ownership the caller has already established.
    pub(crate) fn from_handle(handle: u64) -> (r: Self)
        ensures
            r@ == handle,
    {
        Symbol { handle, owner: PhantomData }
    }

    /// The handle, for a call that borrows it.
    pub fn handle(&self) -> (h: u64)
        ensures
            h == self@,
    {
        self.handle
    }

    /// Gives the handle up. The unit of the reference count goes with it to
    /// the caller, who releases it exactly once.
    pub fn into_handle(self) -> (h: u64)
        ensures
            h == self@,
    {
        self.handle
    }
}

impl<'rt> From<Symbol<'rt>> for Value<'rt> {
    /// Turns the handle into a tagged value. Ownership of the unit moves into
    /// the value.
    fn from(source: Symbol<'rt>) -> (v: Value<'rt>) {
        Value::from_handle(ValueKind::Symbol, source.handle)
    }
}

impl<'rt> FromSpecImpl<Symbol<'rt>> for Value<'rt> {
    open spec fn obeys_from_spec() -> bool {
        true
    }

    open spec fn from_spec(source: Symbol<'rt>) -> Value<'rt> {
        Value::of_handle(ValueKind::Symbol, source@)
    }
}

} // verus!

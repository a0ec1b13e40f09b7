//! Byte-buffer handles.

use vstd::prelude::*;
use vstd::std_specs::convert::FromSpecImpl;
use std::marker::PhantomData;
use crate::runtime::Runtime;
use crate::value::{Value, ValueKind};

verus! {

/// A handle to a byte buffer in the engine. It owns one unit of the engine's
/// reference count for it.
#[derive(Debug)]
pub struct ArrayBuffer<'rt> {
    pub(crate) handle: u64,
    pub(crate) owner: PhantomData<&'rt Runtime>,
}

impl<'rt> View for ArrayBuffer<'rt> {
    type V = u64;

    closed spec fn view(&self) -> u64 {
        self.handle
    }
}

impl<'rt> ArrayBuffer<'rt> {
    /// Takes ownership of a handle to a byte buffer that the engine `rt` returned.
    pub fn adopt(rt: &'rt Runtime, handle: u64) -> (r: Self)
        ensures
            r@ == handle,
    {
        Self::from_handle(handle)
    }

    /// Wraps a handle whose ownership the caller has already established.
    pub(crate) fn from_handle(handle: u64) -> (r: Self)
        ensures
            r@ == handle,
    {
        ArrayBuffer { handle, owner: PhantomData }
    }

    /// The handle, for a call that borrows it.
    pub fn handle(&self) -> (h: u64)
        ensures
            h == self@,
    {
        self.handle
    }

    /// Gives the handle up. The unit of the reference count goes with it to
    /// the caller, who releases it exactly once.
    pub fn into_handle(self) -> (h: u64)
        ensures
            h == self@,
    {
        self.handle
    }
}

impl<'rt> ArrayBuffer<'rt> {
    /// How many bytes of the buffer may be looked at, given the address of
    /// its storage and its size as the engine reports them: none where the
    /// buffer has no storage, else all of them.
    ///
    /// The bytes may be looked at only until the next call into the engine,
    /// which may move or drop the storage.
    pub fn window(&self, storage: u64, size: usize) -> (n: usize)
        ensures
            n == if storage == 0 {
                0
            } else {
                size
            },
    {
        if storage == 0 {
            0
        } else {
            size
        }
    }
}

impl<'rt> From<ArrayBuffer<'rt>> for Value<'rt> {
    /// Turns the handle into a tagged value. Ownership of the unit moves into
    /// the value.
    fn from(source: ArrayBuffer<'rt>) -> (v: Value<'rt>) {
        Value::from_handle(ValueKind::Object, source.handle)
    }
}

impl<'rt> FromSpecImpl<ArrayBuffer<'rt>> for Value<'rt> {
    open spec fn obeys_from_spec() -> bool {
        true
    }

    open spec fn from_spec(source: ArrayBuffer<'rt>) -> Value<'rt> {
        Value::of_handle(ValueKind::Object, source@)
    }
}

} // verus!

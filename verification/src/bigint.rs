//! Big-integer handles.

use vstd::prelude::*;
use vstd::std_specs::convert::FromSpecImpl;
use std::marker::PhantomData;
use crate::runtime::Runtime;
use crate::value::{Value, ValueKind};

verus! {

/// A handle to a big integer in the engine. It owns one unit of the engine's
/// reference count for it.
#[derive(Debug)]
pub struct BigInt<'rt> {
    pub(crate) handle: u64,
    pub(crate) owner: PhantomData<&'rt Runtime>,
}

impl<'rt> View for BigInt<'rt> {
    type V = u64;

    closed spec fn view(&self) -> u64 {
        self.handle
    }
}

impl<'rt> BigInt<'rt> {
    /// Takes ownership of a handle to a big integer that the engine `rt` returned.
    pub fn adopt(rt: &'rt Runtime, handle: u64) -> (r: Self)
        ensures
            r@ == handle,
    {
        Self::from_handle(handle)
    }

    /// Wraps a handle whose ownership the caller has already established.
    pub(crate) fn from_handle(handle: u64) -> (r: Self)
        ensures
            r@ == handle,
    {
        BigInt { handle, owner: PhantomData }
    }

    /// The handle, for a call that borrows it.
    pub fn handle(&self) -> (h: u64)
        ensures
            h == self@,
    {
        self.handle
    }

    /// Gives the handle up. The unit of the reference count goes with it to
    /// the caller, who releases it exactly once.
    pub fn into_handle(self) -> (h: u64)
        ensures
            h == self@,
    {
        self.handle
    }
}

/// The signed integer that has the same sixty-four bits as `bits`.
pub open spec fn reinterpret_signed(bits: u64) -> int {
    if bits < 0x8000_0000_0000_0000 {
        bits as int
    } else {
        bits as int - 0x1_0000_0000_0000_0000
    }
}

impl<'rt> BigInt<'rt> {
    /// The big integer cut down to a signed 64-bit integer, given its lowest
    /// sixty-four bits as the engine returned them. The result is the big
    /// integer itself only if the engine says that it fits.
    pub fn truncate_to_i64(&self, truncated: u64) -> (r: i64)
        ensures
            r == reinterpret_signed(truncated),
    {
        if truncated < 0x8000_0000_0000_0000 {
            truncated as i64
        } else {
            let below: u64 = truncated - 0x8000_0000_0000_0000;
            (below as i64) + i64::MIN
        }
    }

    /// Whether the engine can write a big integer in this radix: from 2 to
    /// 36.
    pub fn supports_radix(radix: i32) -> (b: bool)
        ensures
            b == (2 <= radix <= 36),
    {
        2 <= radix && radix <= 36
    }
}

impl<'rt> From<BigInt<'rt>> for Value<'rt> {
    /// Turns the handle into a tagged value. Ownership of the unit moves into
    /// the value.
    fn from(source: BigInt<'rt>) -> (v: Value<'rt>) {
        Value::from_handle(ValueKind::BigInt, source.handle)
    }
}

impl<'rt> FromSpecImpl<BigInt<'rt>> for Value<'rt> {
    open spec fn obeys_from_spec() -> bool {
        true
    }

    open spec fn from_spec(source: BigInt<'rt>) -> Value<'rt> {
        Value::of_handle(ValueKind::BigInt, source@)
    }
}

} // verus!

//! String handles.

use vstd::prelude::*;
use vstd::std_specs::convert::FromSpecImpl;
use std::marker::PhantomData;
use crate::error::{Error, ErrorModel};
use crate::runtime::Runtime;
use crate::text::{read_strict, strict_model};
use crate::value::{Value, ValueKind};

verus! {

/// A handle to a string in the engine. It owns one unit of the engine's
/// reference count for it.
#[derive(Debug)]
pub struct JsString<'rt> {
    pub(crate) handle: u64,
    pub(crate) owner: PhantomData<&'rt Runtime>,
}

impl<'rt> View for JsString<'rt> {
    type V = u64;

    closed spec fn view(&self) -> u64 {
        self.handle
    }
}

impl<'rt> JsString<'rt> {
    /// Takes ownership of a handle to a string that the engine `rt` returned.
    pub fn adopt(rt: &'rt Runtime, handle: u64) -> (r: Self)
        ensures
            r@ == handle,
    {
        Self::from_handle(handle)
    }

    /// Wraps a handle whose ownership the caller has already established.
    pub(crate) fn from_handle(handle: u64) -> (r: Self)
        ensures
            r@ == handle,
    {
        JsString { handle, owner: PhantomData }
    }

    /// The handle, for a call that borrows it.
    pub fn handle(&self) -> (h: u64)
        ensures
            h == self@,
    {
        self.handle
    }

    /// Gives the handle up. The unit of the reference count goes with it to
    /// the caller, who releases it exactly once.
    pub fn into_handle(self) -> (h: u64)
        ensures
            h == self@,
    {
        self.handle
    }
}

impl<'rt> JsString<'rt> {
    /// The text of the string, given the UTF-8 bytes that the engine wrote
    /// for it. Bytes that are not well-formed are refused with a conversion
    /// error.
    pub fn to_rust_string(&self, bytes: Vec<u8>) -> (r: Result<String, Error>)
        ensures
            match r {
                Ok(s) => strict_model(bytes@) == Ok::<Seq<char>, ErrorModel>(s@),
                Err(e) => strict_model(bytes@) == Err::<Seq<char>, ErrorModel>(e@),
            },
    {
        read_strict(bytes)
    }
}

impl<'rt> From<JsString<'rt>> for Value<'rt> {
    /// Turns the handle into a tagged value. Ownership of the unit moves into
    /// the value.
    fn from(source: JsString<'rt>) -> (v: Value<'rt>) {
        Value::from_handle(ValueKind::String, source.handle)
    }
}

impl<'rt> FromSpecImpl<JsString<'rt>> for Value<'rt> {
    open spec fn obeys_from_spec() -> bool {
        true
    }

    open spec fn from_spec(source: JsString<'rt>) -> Value<'rt> {
        Value::of_handle(ValueKind::String, source@)
    }
}

} // verus!

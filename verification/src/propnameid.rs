//! Interned property names.

use vstd::prelude::*;
use std::marker::PhantomData;
use crate::error::{Error, ErrorModel};
use crate::runtime::Runtime;
use crate::text::{read_strict, strict_model};

verus! {

/// A property name that the engine has interned: a key that can be used
/// again and again without being encoded and hashed each time. It names the
/// same property as the string it was made from.
#[derive(Debug)]
pub struct PropNameId<'rt> {
    handle: u64,
    owner: PhantomData<&'rt Runtime>,
}

impl<'rt> View for PropNameId<'rt> {
    type V = u64;

    closed spec fn view(&self) -> u64 {
        self.handle
    }
}

impl<'rt> PropNameId<'rt> {
    /// Takes ownership of a handle to an interned name that the engine `rt`
    /// returned.
    pub fn adopt(rt: &'rt Runtime, handle: u64) -> (r: Self)
        ensures
            r@ == handle,
    {
        PropNameId { handle, owner: PhantomData }
    }

    /// The handle, for a call that borrows it.
    pub fn handle(&self) -> (h: u64)
        ensures
            h == self@,
    {
        self.handle
    }

    /// Gives the handle up, to be released exactly once.
    pub fn into_handle(self) -> (h: u64)
        ensures
            h == self@,
    {
        self.handle
    }

    /// The text of the name, given the UTF-8 bytes that the engine wrote for
    /// it. Bytes that are not well-formed are refused with a conversion
    /// error.
    pub fn to_rust_string(&self, bytes: Vec<u8>) -> (r: Result<String, Error>)
        ensures
            match r {
                Ok(s) => strict_model(bytes@) == Ok::<Seq<char>, ErrorModel>(s@),
                Err(e) => strict_model(bytes@) == Err::<Seq<char>, ErrorModel>(e@),
            },
    {
        read_strict(bytes)
    }
}

} // verus!

//! Weak references to objects.

use vstd::prelude::*;
use std::marker::PhantomData;
use crate::error::{Error, ErrorModel};
use crate::runtime::{unit_outcome, Runtime};
use crate::value::{RawValue, Value, KIND_UNDEFINED};

verus! {

/// A weak reference to an object: a handle that does not keep the object
/// alive.
#[derive(Debug)]
pub struct WeakObject<'rt> {
    handle: u64,
    owner: PhantomData<&'rt Runtime>,
}

impl<'rt> View for WeakObject<'rt> {
    type V = u64;

    closed spec fn view(&self) -> u64 {
        self.handle
    }
}

/// What locking a weak reference ends in, given the value that the engine
/// returned and the outcome of draining the error latches afterwards:
/// `undefined` says that the object is gone, which is no error.
pub open spec fn lock_model(locked: RawValue, drained: Result<(), ErrorModel>) -> Result<
    Option<RawValue>,
    ErrorModel,
> {
    match drained {
        Err(e) => Err(e),
        Ok(()) => if locked.canonical().kind == KIND_UNDEFINED {
            Ok(None)
        } else {
            Ok(Some(locked.canonical()))
        },
    }
}

impl<'rt> WeakObject<'rt> {
    /// Takes ownership of a weak handle that the engine `rt` returned.
    pub fn adopt(rt: &'rt Runtime, handle: u64) -> (r: Self)
        ensures
            r@ == handle,
    {
        WeakObject { handle, owner: PhantomData }
    }

    /// The handle, for a call that borrows it.
    pub fn handle(&self) -> (h: u64)
        ensures
            h == self@,
    {
        self.handle
    }

    /// Gives the handle up, to be released exactly once.
    pub fn into_handle(self) -> (h: u64)
        ensures
            h == self@,
    {
        self.handle
    }

    /// The object that the reference points to, as a value that keeps it
    /// alive; or nothing, if the object is gone. `locked` is what the engine
    /// returned for the reference and `drained` the outcome of draining the
    /// error latches afterwards.
    pub fn lock(&self, rt: &'rt Runtime, locked: RawValue, drained: Result<(), Error>) -> (r:
        Result<Option<Value<'rt>>, Error>)
        ensures
            match r {
                Ok(Some(v)) => lock_model(locked, unit_outcome(drained)) == Ok::<
                    Option<RawValue>,
                    ErrorModel,
                >(Some(v@)),
                Ok(None) => lock_model(locked, unit_outcome(drained)) == Ok::<
                    Option<RawValue>,
                    ErrorModel,
                >(None),
                Err(e) => lock_model(locked, unit_outcome(drained)) == Err::<
                    Option<RawValue>,
                    ErrorModel,
                >(e@),
            },
    {
        match drained {
            Err(e) => Err(e),
            Ok(()) => {
                let value = Value::from_raw(rt, locked);
                if value.is_undefined() {
                    Ok(None)
                } else {
                    Ok(Some(value))
                }
            },
        }
    }
}

} // verus!

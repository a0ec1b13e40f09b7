//! Scripts that were compiled ahead of their evaluation.

use vstd::prelude::*;
use vstd::string::StringExecFns;
use std::marker::PhantomData;
use crate::error::{Error, ErrorModel};
use crate::runtime::{unit_outcome, Runtime};

verus! {

/// A script that the engine has compiled and can evaluate any number of
/// times.
#[derive(Debug)]
pub struct PreparedJavaScript<'rt> {
    handle: u64,
    owner: PhantomData<&'rt Runtime>,
}

impl<'rt> View for PreparedJavaScript<'rt> {
    type V = u64;

    closed spec fn view(&self) -> u64 {
        self.handle
    }
}

/// What compiling a script ends in, given the handle that the engine
/// returned and the outcome of draining the error latches afterwards: a
/// pending error is the result, and without one a zero handle still says that
/// nothing was compiled.
pub open spec fn prepared_model(handle: u64, drained: Result<(), ErrorModel>) -> Result<
    u64,
    ErrorModel,
> {
    match drained {
        Err(e) => Err(e),
        Ok(()) => if handle == 0 {
            Err(ErrorModel::RuntimeError("failed to prepare JavaScript"@))
        } else {
            Ok(handle)
        },
    }
}

impl<'rt> PreparedJavaScript<'rt> {
    #[verifier::type_invariant]
    spec fn inv(&self) -> bool {
        self.handle != 0
    }

    /// Takes ownership of the compiled script behind `handle`, which is what
    /// the engine `rt` returned; `drained` is the outcome of draining the
    /// error latches afterwards.
    pub fn adopt(rt: &'rt Runtime, handle: u64, drained: Result<(), Error>) -> (r: Result<
        Self,
        Error,
    >)
        ensures
            match r {
                Ok(p) => prepared_model(handle, unit_outcome(drained)) == Ok::<u64, ErrorModel>(
                    p@,
                ),
                Err(e) => prepared_model(handle, unit_outcome(drained)) == Err::<u64, ErrorModel>(
                    e@,
                ),
            },
    {
        match drained {
            Err(e) => Err(e),
            Ok(()) => {
                if handle == 0 {
                    Err(Error::RuntimeError(String::from_str("failed to prepare JavaScript")))
                } else {
                    Ok(PreparedJavaScript { handle, owner: PhantomData })
                }
            },
        }
    }

    /// The handle, for a call that borrows it. It is never zero.
    pub fn handle(&self) -> (h: u64)
        ensures
            h == self@,
            h != 0,
    {
        proof {
            use_type_invariant(self);
        }
        self.handle
    }

    /// Gives the handle up, to be deleted exactly once. It is never zero.
    pub fn into_handle(self) -> (h: u64)
        ensures
            h == self@,
            h != 0,
    {
        proof {
            use_type_invariant(&self);
        }
        self.handle
    }
}

} // verus!

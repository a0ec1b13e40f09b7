//! Function handles and the trampoline that lets the engine call native code.

use vstd::prelude::*;
use vstd::std_specs::convert::FromSpecImpl;
use std::marker::PhantomData;
use vstd::string::StringExecFns;
use crate::convert::{depth_of, levels_model, outcome_model, FromJs, IntoJs};
use crate::datum::{Datum, Tree, DEPTH_LIMIT};
use crate::error::{Error, ErrorModel};
use crate::runtime::Runtime;
use crate::value::{RawValue, Value, ValueKind};

verus! {

/// A handle to a function in the engine. It owns one unit of the engine's
/// reference count for it.
#[derive(Debug)]
pub struct Function<'rt> {
    pub(crate) handle: u64,
    pub(crate) owner: PhantomData<&'rt Runtime>,
}

impl<'rt> View for Function<'rt> {
    type V = u64;

    closed spec fn view(&self) -> u64 {
        self.handle
    }
}

impl<'rt> Function<'rt> {
    /// Takes ownership of a handle to a function that the engine `rt` returned.
    pub fn adopt(rt: &'rt Runtime, handle: u64) -> (r: Self)
        ensures
            r@ == handle,
    {
        Self::from_handle(handle)
    }

    /// Wraps a handle whose ownership the caller has already established.
    pub(crate) fn from_handle(handle: u64) -> (r: Self)
        ensures
            r@ == handle,
    {
        Function { handle, owner: PhantomData }
    }

    /// The handle, for a call that borrows it.
    pub fn handle(&self) -> (h: u64)
        ensures
            h == self@,
    {
        self.handle
    }

    /// Gives the handle up. The unit of the reference count goes with it to
    /// the caller, who releases it exactly once.
    pub fn into_handle(self) -> (h: u64)
        ensures
            h == self@,
    {
        self.handle
    }
}

impl<'rt> From<Function<'rt>> for Value<'rt> {
    /// Turns the handle into a tagged value. Ownership of the unit moves into
    /// the value.
    fn from(source: Function<'rt>) -> (v: Value<'rt>) {
        Value::from_handle(ValueKind::Object, source.handle)
    }
}

impl<'rt> FromSpecImpl<Function<'rt>> for Value<'rt> {
    open spec fn obeys_from_spec() -> bool {
        true
    }

    open spec fn from_spec(source: Function<'rt>) -> Value<'rt> {
        Value::of_handle(ValueKind::Object, source@)
    }
}

impl<'rt> Function<'rt> {
    /// The arguments of a call in raw form, in order. The values are
    /// borrowed: each keeps its unit of the reference count, and the engine
    /// takes units of its own for what it keeps.
    pub fn arguments(args: &[&Value<'rt>]) -> (raw: Vec<RawValue>)
        ensures
            raw@.len() == args@.len(),
            forall|i: int| 0 <= i < args@.len() ==> raw@[i] == args@[i]@,
    {
        let mut raw: Vec<RawValue> = Vec::new();
        let mut i: usize = 0;
        while i < args.len()
            invariant
                i <= args@.len(),
                raw@.len() == i,
                forall|j: int| 0 <= j < i ==> raw@[j] == args@[j]@,
            decreases args@.len() - i,
        {
            raw.push(args[i].as_raw());
            i += 1;
        }
        raw
    }
}

/// How a native function is made known to scripts.
#[derive(Debug)]
pub struct OpArgs {
    /// The name that scripts call the function by, where it is not the
    /// function's own.
    pub name: Option<String>,
}

impl OpArgs {
    /// The name that scripts call the function by: the one that was chosen,
    /// else the function's own.
    pub fn js_name(&self, function: &str) -> (name: String)
        ensures
            name@ == match self.name {
                Some(chosen) => chosen@,
                None => function@,
            },
    {
        match &self.name {
            Some(chosen) => chosen.clone(),
            None => String::from_str(function),
        }
    }
}

/// A native type that a host function can take as an argument.
pub trait FromJsArg: Sized + DeepView {
    /// The native value that an argument is read as, or the error that
    /// reading it ends in.
    spec fn arg_decoded(tree: Tree) -> Result<<Self as DeepView>::V, ErrorModel>;

    /// How many levels of arrays and objects an argument of this type is
    /// read through; no number where the type takes the argument whole.
    spec fn arg_reach() -> Option<nat>;

    /// Reads the argument. The data is left as it is.
    fn from_arg(raw: &Datum) -> (r: Result<Self, Error>)
        ensures
            outcome_model(r) == Self::arg_decoded(raw@),
    ;

    /// How many levels of arrays and objects have to be read out of the
    /// engine for an argument of this type.
    fn arg_levels() -> (n: Option<usize>)
        ensures
            n == levels_model(Self::arg_reach()),
    ;

    /// What an argument is read as does not depend on what lies beyond the
    /// type's reach.
    proof fn lemma_arg_reach(tree: Tree, levels: nat)
        ensures
            Self::arg_reach() is Some && levels >= Self::arg_reach()->0 ==> Self::arg_decoded(
                tree.cut(levels),
            ) == Self::arg_decoded(tree),
    ;
}

impl<T: FromJs> FromJsArg for T {
    open spec fn arg_decoded(tree: Tree) -> Result<<Self as DeepView>::V, ErrorModel> {
        T::decoded(tree)
    }

    open spec fn arg_reach() -> Option<nat> {
        T::reach()
    }

    fn from_arg(raw: &Datum) -> (r: Result<Self, Error>) {
        T::from_js(raw)
    }

    fn arg_levels() -> (n: Option<usize>) {
        T::levels()
    }

    proof fn lemma_arg_reach(tree: Tree, levels: nat) {
        T::lemma_reach(tree, levels);
    }
}

/// A native type that a host function can return.
pub trait IntoJsRet: Sized {
    /// The tree of the returned value, or the error that the call ends in.
    spec fn ret_encoded(self) -> Result<Tree, ErrorModel>;

    /// Turns the returned value into engine data.
    fn into_ret(self) -> (r: Result<Datum, Error>)
        ensures
            outcome_model(r) == self.ret_encoded(),
    ;
}

impl<T: IntoJs> IntoJsRet for T {
    open spec fn ret_encoded(self) -> Result<Tree, ErrorModel> {
        T::encoded(self.deep_view())
    }

    fn into_ret(self) -> (r: Result<Datum, Error>) {
        self.into_js()
    }
}

impl<T: IntoJsRet> IntoJsRet for Result<T, Error> {
    open spec fn ret_encoded(self) -> Result<Tree, ErrorModel> {
        match self {
            Ok(v) => v.ret_encoded(),
            Err(e) => Err(e@),
        }
    }

    fn into_ret(self) -> (r: Result<Datum, Error>) {
        match self {
            Ok(v) => v.into_ret(),
            Err(e) => Err(e),
        }
    }
}

/// What a host function hands back to the engine: the value of the call,
/// and the message of the error to leave pending, if the call failed.
#[derive(Debug, PartialEq)]
pub struct Completion {
    pub result: Datum,
    pub pending: Option<String>,
}

/// The mathematical content of a [`Completion`].
pub struct CompletionModel {
    pub result: Tree,
    pub pending: Option<Seq<char>>,
}

impl View for Completion {
    type V = CompletionModel;

    open spec fn view(&self) -> CompletionModel {
        CompletionModel {
            result: self.result@,
            pending: match self.pending {
                Some(m) => Some(m@),
                None => None,
            },
        }
    }
}

/// How a call that ended in `outcome` is handed back: a value as it is; an
/// error as `undefined`, with the error's text left pending so that the
/// script sees an exception.
pub open spec fn completed(outcome: Result<Tree, ErrorModel>) -> CompletionModel {
    match outcome {
        Ok(tree) => CompletionModel { result: tree, pending: None },
        Err(e) => CompletionModel { result: Tree::Undefined, pending: Some(e.text()) },
    }
}

/// Hands the outcome of a call back to the engine.
pub fn complete(outcome: Result<Datum, Error>) -> (c: Completion)
    ensures
        c@ == completed(outcome_model(outcome)),
{
    match outcome {
        Ok(d) => Completion { result: d, pending: None },
        Err(e) => Completion { result: Datum::Undefined, pending: Some(e.to_string()) },
    }
}

/// Whether reading the argument at `index` as a `T` can end in `read`,
/// where the caller passed `count` arguments and `source` reads one of them
/// out of the engine, to a given number of levels.
///
/// An argument that the caller did not pass is `undefined`, and the source
/// is not asked for it. One that was passed is read out as far as `T` looks
/// into it; if that fails, so does the reading of the argument.
pub open spec fn argument_read<T: FromJsArg, S: Fn(usize, usize) -> Result<Datum, Error>>(
    count: usize,
    source: &S,
    index: usize,
    read: Result<<T as DeepView>::V, ErrorModel>,
) -> bool {
    if index < count {
        exists|datum: Result<Datum, Error>| #[trigger]
            source.ensures((index, depth_model(T::arg_reach())), datum) && read == match datum {
                Ok(d) => T::arg_decoded(d@),
                Err(e) => Err(e@),
            }
    } else {
        read == T::arg_decoded(Tree::Undefined)
    }
}

/// How many levels are read out of the engine for a type of the given
/// reach.
pub open spec fn depth_model(reach: Option<nat>) -> usize {
    match levels_model(reach) {
        Some(n) => n,
        None => DEPTH_LIMIT,
    }
}

/// Reads the argument at `index` as a `T`. An argument that the caller did
/// not pass is read as `undefined`; nothing beyond the arguments that were
/// passed is touched.
pub fn argument<T: FromJsArg, S: Fn(usize, usize) -> Result<Datum, Error>>(
    count: usize,
    source: &S,
    index: usize,
) -> (r: Result<T, Error>)
    requires
        forall|index: usize, levels: usize| index < count ==> source.requires((index, levels)),
    ensures
        argument_read::<T, S>(count, source, index, outcome_model(r)),
{
    if index < count {
        match source(index, depth_of(T::arg_levels())) {
            Ok(datum) => T::from_arg(&datum),
            Err(e) => Err(e),
        }
    } else {
        T::from_arg(&Datum::Undefined)
    }
}

/// Calls a host function that reads its arguments itself, with
/// [`argument`], and hands its outcome back. The function may take any
/// number of arguments.
pub fn invoke<S: Fn(usize, usize) -> Result<Datum, Error>, F: Fn(usize, &S) -> Result<Datum, Error>>(
    f: &F,
    count: usize,
    source: &S,
) -> (out: Completion)
    requires
        f.requires((count, source)),
    ensures
        exists|r: Result<Datum, Error>|
            f.ensures((count, source), r) && out@ == completed(outcome_model(r)),
{
    let r = f(count, source);
    complete(r)
}

/// Calls a host function that takes no argument, and hands its outcome
/// back. Arguments that the caller passed are not read.
pub fn invoke0<R: IntoJsRet, F: Fn() -> R>(f: &F) -> (out: Completion)
    requires
        f.requires(()),
    ensures
        exists|r: R| f.ensures((), r) && out@ == completed(r.ret_encoded()),
{
    let r = f();
    complete(r.into_ret())
}

/// Calls a host function of one argument. If the argument cannot be read the
/// function is not called, and the error is handed back.
pub fn invoke1<
    A: FromJsArg,
    R: IntoJsRet,
    F: Fn(A) -> R,
    S: Fn(usize, usize) -> Result<Datum, Error>,
>(f: &F, count: usize, source: &S) -> (out: Completion)
    requires
        forall|a: A| f.requires((a,)),
        forall|index: usize, levels: usize| index < count ==> source.requires((index, levels)),
    ensures
        exists|read: Result<<A as DeepView>::V, ErrorModel>|
            argument_read::<A, S>(count, source, 0, read) && match read {
                Err(e) => out@ == completed(Err(e)),
                Ok(first) =>
                exists|a: A, r: R|
                    {
                        &&& a.deep_view() == first
                        &&& f.ensures((a,), r)
                        &&& out@ == completed(r.ret_encoded())
                    },
            },
{
    let a = match argument::<A, S>(count, source, 0) {
        Ok(a) => a,
        Err(e) => {
            return complete(Err(e));
        },
    };
    let r = f(a);
    complete(r.into_ret())
}

/// Calls a host function of two arguments. The arguments are read in order,
/// each only after the one before it was accepted; at the first that cannot
/// be read the reading stops, the function is not called, and that error is
/// handed back.
pub fn invoke2<
    A: FromJsArg,
    B: FromJsArg,
    R: IntoJsRet,
    F: Fn(A, B) -> R,
    S: Fn(usize, usize) -> Result<Datum, Error>,
>(f: &F, count: usize, source: &S) -> (out: Completion)
    requires
        forall|a: A, b: B| f.requires((a, b)),
        forall|index: usize, levels: usize| index < count ==> source.requires((index, levels)),
    ensures
        exists|read: Result<<A as DeepView>::V, ErrorModel>|
            argument_read::<A, S>(count, source, 0, read) && match read {
                Err(e) => out@ == completed(Err(e)),
                Ok(first) =>
                exists|read: Result<<B as DeepView>::V, ErrorModel>|
                    argument_read::<B, S>(count, source, 1, read) && match read {
                        Err(e) => out@ == completed(Err(e)),
                        Ok(second) =>
                        exists|a: A, b: B, r: R|
                            {
                                &&& a.deep_view() == first
                                &&& b.deep_view() == second
                                &&& f.ensures((a, b), r)
                                &&& out@ == completed(r.ret_encoded())
                            },
                    },
            },
{
    let a = match argument::<A, S>(count, source, 0) {
        Ok(a) => a,
        Err(e) => {
            return complete(Err(e));
        },
    };
    let b = match argument::<B, S>(count, source, 1) {
        Ok(b) => b,
        Err(e) => {
            return complete(Err(e));
        },
    };
    let r = f(a, b);
    complete(r.into_ret())
}

/// Calls a host function of three arguments. The arguments are read in order,
/// each only after the one before it was accepted; at the first that cannot
/// be read the reading stops, the function is not called, and that error is
/// handed back.
pub fn invoke3<
    A: FromJsArg,
    B: FromJsArg,
    C: FromJsArg,
    R: IntoJsRet,
    F: Fn(A, B, C) -> R,
    S: Fn(usize, usize) -> Result<Datum, Error>,
>(f: &F, count: usize, source: &S) -> (out: Completion)
    requires
        forall|a: A, b: B, c: C| f.requires((a, b, c)),
        forall|index: usize, levels: usize| index < count ==> source.requires((index, levels)),
    ensures
        exists|read: Result<<A as DeepView>::V, ErrorModel>|
            argument_read::<A, S>(count, source, 0, read) && match read {
                Err(e) => out@ == completed(Err(e)),
                Ok(first) =>
                exists|read: Result<<B as DeepView>::V, ErrorModel>|
                    argument_read::<B, S>(count, source, 1, read) && match read {
                        Err(e) => out@ == completed(Err(e)),
                        Ok(second) =>
                        exists|read: Result<<C as DeepView>::V, ErrorModel>|
                            argument_read::<C, S>(count, source, 2, read) && match read {
                                Err(e) => out@ == completed(Err(e)),
                                Ok(third) =>
                                exists|a: A, b: B, c: C, r: R|
                                    {
                                        &&& a.deep_view() == first
                                        &&& b.deep_view() == second
                                        &&& c.deep_view() == third
                                        &&& f.ensures((a, b, c), r)
                                        &&& out@ == completed(r.ret_encoded())
                                    },
                            },
                    },
            },
{
    let a = match argument::<A, S>(count, source, 0) {
        Ok(a) => a,
        Err(e) => {
            return complete(Err(e));
        },
    };
    let b = match argument::<B, S>(count, source, 1) {
        Ok(b) => b,
        Err(e) => {
            return complete(Err(e));
        },
    };
    let c = match argument::<C, S>(count, source, 2) {
        Ok(c) => c,
        Err(e) => {
            return complete(Err(e));
        },
    };
    let r = f(a, b, c);
    complete(r.into_ret())
}

/// Calls a host function of four arguments. The arguments are read in order,
/// each only after the one before it was accepted; at the first that cannot
/// be read the reading stops, the function is not called, and that error is
/// handed back.
pub fn invoke4<
    A: FromJsArg,
    B: FromJsArg,
    C: FromJsArg,
    D: FromJsArg,
    R: IntoJsRet,
    F: Fn(A, B, C, D) -> R,
    S: Fn(usize, usize) -> Result<Datum, Error>,
>(f: &F, count: usize, source: &S) -> (out: Completion)
    requires
        forall|a: A, b: B, c: C, d: D| f.requires((a, b, c, d)),
        forall|index: usize, levels: usize| index < count ==> source.requires((index, levels)),
    ensures
        exists|read: Result<<A as DeepView>::V, ErrorModel>|
            argument_read::<A, S>(count, source, 0, read) && match read {
                Err(e) => out@ == completed(Err(e)),
                Ok(first) =>
                exists|read: Result<<B as DeepView>::V, ErrorModel>|
                    argument_read::<B, S>(count, source, 1, read) && match read {
                        Err(e) => out@ == completed(Err(e)),
                        Ok(second) =>
                        exists|read: Result<<C as DeepView>::V, ErrorModel>|
                            argument_read::<C, S>(count, source, 2, read) && match read {
                                Err(e) => out@ == completed(Err(e)),
                                Ok(third) =>
                                exists|read: Result<<D as DeepView>::V, ErrorModel>|
                                    argument_read::<D, S>(count, source, 3, read) && match read {
                                        Err(e) => out@ == completed(Err(e)),
                                        Ok(fourth) =>
                                        exists|a: A, b: B, c: C, d: D, r: R|
                                            {
                                                &&& a.deep_view() == first
                                                &&& b.deep_view() == second
                                                &&& c.deep_view() == third
                                                &&& d.deep_view() == fourth
                                                &&& f.ensures((a, b, c, d), r)
                                                &&& out@ == completed(r.ret_encoded())
                                            },
                                    },
                            },
                    },
            },
{
    let a = match argument::<A, S>(count, source, 0) {
        Ok(a) => a,
        Err(e) => {
            return complete(Err(e));
        },
    };
    let b = match argument::<B, S>(count, source, 1) {
        Ok(b) => b,
        Err(e) => {
            return complete(Err(e));
        },
    };
    let c = match argument::<C, S>(count, source, 2) {
        Ok(c) => c,
        Err(e) => {
            return complete(Err(e));
        },
    };
    let d = match argument::<D, S>(count, source, 3) {
        Ok(d) => d,
        Err(e) => {
            return complete(Err(e));
        },
    };
    let r = f(a, b, c, d);
    complete(r.into_ret())
}

/// Calls a host function of five arguments. The arguments are read in order,
/// each only after the one before it was accepted; at the first that cannot
/// be read the reading stops, the function is not called, and that error is
/// handed back.
pub fn invoke5<
    A: FromJsArg,
    B: FromJsArg,
    C: FromJsArg,
    D: FromJsArg,
    E: FromJsArg,
    R: IntoJsRet,
    F: Fn(A, B, C, D, E) -> R,
    S: Fn(usize, usize) -> Result<Datum, Error>,
>(f: &F, count: usize, source: &S) -> (out: Completion)
    requires
        forall|a: A, b: B, c: C, d: D, e: E| f.requires((a, b, c, d, e)),
        forall|index: usize, levels: usize| index < count ==> source.requires((index, levels)),
    ensures
        exists|read: Result<<A as DeepView>::V, ErrorModel>|
            argument_read::<A, S>(count, source, 0, read) && match read {
                Err(e) => out@ == completed(Err(e)),
                Ok(first) =>
                exists|read: Result<<B as DeepView>::V, ErrorModel>|
                    argument_read::<B, S>(count, source, 1, read) && match read {
                        Err(e) => out@ == completed(Err(e)),
                        Ok(second) =>
                        exists|read: Result<<C as DeepView>::V, ErrorModel>|
                            argument_read::<C, S>(count, source, 2, read) && match read {
                                Err(e) => out@ == completed(Err(e)),
                                Ok(third) =>
                                exists|read: Result<<D as DeepView>::V, ErrorModel>|
                                    argument_read::<D, S>(count, source, 3, read) && match read {
                                        Err(e) => out@ == completed(Err(e)),
                                        Ok(fourth) =>
                                        exists|read: Result<<E as DeepView>::V, ErrorModel>|
                                            argument_read::<E, S>(count, source, 4, read) && match read {
                                                Err(e) => out@ == completed(Err(e)),
                                                Ok(fifth) =>
                                                exists|a: A, b: B, c: C, d: D, e: E, r: R|
                                                    {
                                                        &&& a.deep_view() == first
                                                        &&& b.deep_view() == second
                                                        &&& c.deep_view() == third
                                                        &&& d.deep_view() == fourth
                                                        &&& e.deep_view() == fifth
                                                        &&& f.ensures((a, b, c, d, e), r)
                                                        &&& out@ == completed(r.ret_encoded())
                                                    },
                                            },
                                    },
                            },
                    },
            },
{
    let a = match argument::<A, S>(count, source, 0) {
        Ok(a) => a,
        Err(e) => {
            return complete(Err(e));
        },
    };
    let b = match argument::<B, S>(count, source, 1) {
        Ok(b) => b,
        Err(e) => {
            return complete(Err(e));
        },
    };
    let c = match argument::<C, S>(count, source, 2) {
        Ok(c) => c,
        Err(e) => {
            return complete(Err(e));
        },
    };
    let d = match argument::<D, S>(count, source, 3) {
        Ok(d) => d,
        Err(e) => {
            return complete(Err(e));
        },
    };
    let e = match argument::<E, S>(count, source, 4) {
        Ok(e) => e,
        Err(e) => {
            return complete(Err(e));
        },
    };
    let r = f(a, b, c, d, e);
    complete(r.into_ret())
}

/// Calls a host function of six arguments. The arguments are read in order,
/// each only after the one before it was accepted; at the first that cannot
/// be read the reading stops, the function is not called, and that error is
/// handed back.
pub fn invoke6<
    A: FromJsArg,
    B: FromJsArg,
    C: FromJsArg,
    D: FromJsArg,
    E: FromJsArg,
    G: FromJsArg,
    R: IntoJsRet,
    F: Fn(A, B, C, D, E, G) -> R,
    S: Fn(usize, usize) -> Result<Datum, Error>,
>(f: &F, count: usize, source: &S) -> (out: Completion)
    requires
        forall|a: A, b: B, c: C, d: D, e: E, g: G| f.requires((a, b, c, d, e, g)),
        forall|index: usize, levels: usize| index < count ==> source.requires((index, levels)),
    ensures
        exists|read: Result<<A as DeepView>::V, ErrorModel>|
            argument_read::<A, S>(count, source, 0, read) && match read {
                Err(e) => out@ == completed(Err(e)),
                Ok(first) =>
                exists|read: Result<<B as DeepView>::V, ErrorModel>|
                    argument_read::<B, S>(count, source, 1, read) && match read {
                        Err(e) => out@ == completed(Err(e)),
                        Ok(second) =>
                        exists|read: Result<<C as DeepView>::V, ErrorModel>|
                            argument_read::<C, S>(count, source, 2, read) && match read {
                                Err(e) => out@ == completed(Err(e)),
                                Ok(third) =>
                                exists|read: Result<<D as DeepView>::V, ErrorModel>|
                                    argument_read::<D, S>(count, source, 3, read) && match read {
                                        Err(e) => out@ == completed(Err(e)),
                                        Ok(fourth) =>
                                        exists|read: Result<<E as DeepView>::V, ErrorModel>|
                                            argument_read::<E, S>(count, source, 4, read) && match read {
                                                Err(e) => out@ == completed(Err(e)),
                                                Ok(fifth) =>
                                                exists|read: Result<<G as DeepView>::V, ErrorModel>|
                                                    argument_read::<G, S>(count, source, 5, read) && match read {
                                                        Err(e) => out@ == completed(Err(e)),
                                                        Ok(sixth) =>
                                                        exists|a: A, b: B, c: C, d: D, e: E, g: G, r: R|
                                                            {
                                                                &&& a.deep_view() == first
                                                                &&& b.deep_view() == second
                                                                &&& c.deep_view() == third
                                                                &&& d.deep_view() == fourth
                                                                &&& e.deep_view() == fifth
                                                                &&& g.deep_view() == sixth
                                                                &&& f.ensures((a, b, c, d, e, g), r)
                                                                &&& out@ == completed(r.ret_encoded())
                                                            },
                                                    },
                                            },
                                    },
                            },
                    },
            },
{
    let a = match argument::<A, S>(count, source, 0) {
        Ok(a) => a,
        Err(e) => {
            return complete(Err(e));
        },
    };
    let b = match argument::<B, S>(count, source, 1) {
        Ok(b) => b,
        Err(e) => {
            return complete(Err(e));
        },
    };
    let c = match argument::<C, S>(count, source, 2) {
        Ok(c) => c,
        Err(e) => {
            return complete(Err(e));
        },
    };
    let d = match argument::<D, S>(count, source, 3) {
        Ok(d) => d,
        Err(e) => {
            return complete(Err(e));
        },
    };
    let e = match argument::<E, S>(count, source, 4) {
        Ok(e) => e,
        Err(e) => {
            return complete(Err(e));
        },
    };
    let g = match argument::<G, S>(count, source, 5) {
        Ok(g) => g,
        Err(e) => {
            return complete(Err(e));
        },
    };
    let r = f(a, b, c, d, e, g);
    complete(r.into_ret())
}

/// Calls a host function of seven arguments. The arguments are read in order,
/// each only after the one before it was accepted; at the first that cannot
/// be read the reading stops, the function is not called, and that error is
/// handed back.
pub fn invoke7<
    A: FromJsArg,
    B: FromJsArg,
    C: FromJsArg,
    D: FromJsArg,
    E: FromJsArg,
    G: FromJsArg,
    H: FromJsArg,
    R: IntoJsRet,
    F: Fn(A, B, C, D, E, G, H) -> R,
    S: Fn(usize, usize) -> Result<Datum, Error>,
>(f: &F, count: usize, source: &S) -> (out: Completion)
    requires
        forall|a: A, b: B, c: C, d: D, e: E, g: G, h: H| f.requires((a, b, c, d, e, g, h)),
        forall|index: usize, levels: usize| index < count ==> source.requires((index, levels)),
    ensures
        exists|read: Result<<A as DeepView>::V, ErrorModel>|
            argument_read::<A, S>(count, source, 0, read) && match read {
                Err(e) => out@ == completed(Err(e)),
                Ok(first) =>
                exists|read: Result<<B as DeepView>::V, ErrorModel>|
                    argument_read::<B, S>(count, source, 1, read) && match read {
                        Err(e) => out@ == completed(Err(e)),
                        Ok(second) =>
                        exists|read: Result<<C as DeepView>::V, ErrorModel>|
                            argument_read::<C, S>(count, source, 2, read) && match read {
                                Err(e) => out@ == completed(Err(e)),
                                Ok(third) =>
                                exists|read: Result<<D as DeepView>::V, ErrorModel>|
                                    argument_read::<D, S>(count, source, 3, read) && match read {
                                        Err(e) => out@ == completed(Err(e)),
                                        Ok(fourth) =>
                                        exists|read: Result<<E as DeepView>::V, ErrorModel>|
                                            argument_read::<E, S>(count, source, 4, read) && match read {
                                                Err(e) => out@ == completed(Err(e)),
                                                Ok(fifth) =>
                                                exists|read: Result<<G as DeepView>::V, ErrorModel>|
                                                    argument_read::<G, S>(count, source, 5, read) && match read {
                                                        Err(e) => out@ == completed(Err(e)),
                                                        Ok(sixth) =>
                                                        exists|read: Result<<H as DeepView>::V, ErrorModel>|
                                                            argument_read::<H, S>(count, source, 6, read) && match read {
                                                                Err(e) => out@ == completed(Err(e)),
                                                                Ok(seventh) =>
                                                                exists|a: A, b: B, c: C, d: D, e: E, g: G, h: H, r: R|
                                                                    {
                                                                        &&& a.deep_view() == first
                                                                        &&& b.deep_view() == second
                                                                        &&& c.deep_view() == third
                                                                        &&& d.deep_view() == fourth
                                                                        &&& e.deep_view() == fifth
                                                                        &&& g.deep_view() == sixth
                                                                        &&& h.deep_view() == seventh
                                                                        &&& f.ensures((a, b, c, d, e, g, h), r)
                                                                        &&& out@ == completed(r.ret_encoded())
                                                                    },
                                                            },
                                                    },
                                            },
                                    },
                            },
                    },
            },
{
    let a = match argument::<A, S>(count, source, 0) {
        Ok(a) => a,
        Err(e) => {
            return complete(Err(e));
        },
    };
    let b = match argument::<B, S>(count, source, 1) {
        Ok(b) => b,
        Err(e) => {
            return complete(Err(e));
        },
    };
    let c = match argument::<C, S>(count, source, 2) {
        Ok(c) => c,
        Err(e) => {
            return complete(Err(e));
        },
    };
    let d = match argument::<D, S>(count, source, 3) {
        Ok(d) => d,
        Err(e) => {
            return complete(Err(e));
        },
    };
    let e = match argument::<E, S>(count, source, 4) {
        Ok(e) => e,
        Err(e) => {
            return complete(Err(e));
        },
    };
    let g = match argument::<G, S>(count, source, 5) {
        Ok(g) => g,
        Err(e) => {
            return complete(Err(e));
        },
    };
    let h = match argument::<H, S>(count, source, 6) {
        Ok(h) => h,
        Err(e) => {
            return complete(Err(e));
        },
    };
    let r = f(a, b, c, d, e, g, h);
    complete(r.into_ret())
}

/// Calls a host function of eight arguments. The arguments are read in order,
/// each only after the one before it was accepted; at the first that cannot
/// be read the reading stops, the function is not called, and that error is
/// handed back.
pub fn invoke8<
    A: FromJsArg,
    B: FromJsArg,
    C: FromJsArg,
    D: FromJsArg,
    E: FromJsArg,
    G: FromJsArg,
    H: FromJsArg,
    I: FromJsArg,
    R: IntoJsRet,
    F: Fn(A, B, C, D, E, G, H, I) -> R,
    S: Fn(usize, usize) -> Result<Datum, Error>,
>(f: &F, count: usize, source: &S) -> (out: Completion)
    requires
        forall|a: A, b: B, c: C, d: D, e: E, g: G, h: H, i: I| f.requires((a, b, c, d, e, g, h, i)),
        forall|index: usize, levels: usize| index < count ==> source.requires((index, levels)),
    ensures
        exists|read: Result<<A as DeepView>::V, ErrorModel>|
            argument_read::<A, S>(count, source, 0, read) && match read {
                Err(e) => out@ == completed(Err(e)),
                Ok(first) =>
                exists|read: Result<<B as DeepView>::V, ErrorModel>|
                    argument_read::<B, S>(count, source, 1, read) && match read {
                        Err(e) => out@ == completed(Err(e)),
                        Ok(second) =>
                        exists|read: Result<<C as DeepView>::V, ErrorModel>|
                            argument_read::<C, S>(count, source, 2, read) && match read {
                                Err(e) => out@ == completed(Err(e)),
                                Ok(third) =>
                                exists|read: Result<<D as DeepView>::V, ErrorModel>|
                                    argument_read::<D, S>(count, source, 3, read) && match read {
                                        Err(e) => out@ == completed(Err(e)),
                                        Ok(fourth) =>
                                        exists|read: Result<<E as DeepView>::V, ErrorModel>|
                                            argument_read::<E, S>(count, source, 4, read) && match read {
                                                Err(e) => out@ == completed(Err(e)),
                                                Ok(fifth) =>
                                                exists|read: Result<<G as DeepView>::V, ErrorModel>|
                                                    argument_read::<G, S>(count, source, 5, read) && match read {
                                                        Err(e) => out@ == completed(Err(e)),
                                                        Ok(sixth) =>
                                                        exists|read: Result<<H as DeepView>::V, ErrorModel>|
                                                            argument_read::<H, S>(count, source, 6, read) && match read {
                                                                Err(e) => out@ == completed(Err(e)),
                                                                Ok(seventh) =>
                                                                exists|read: Result<<I as DeepView>::V, ErrorModel>|
                                                                    argument_read::<I, S>(count, source, 7, read) && match read {
                                                                        Err(e) => out@ == completed(Err(e)),
                                                                        Ok(eighth) =>
                                                                        exists|a: A, b: B, c: C, d: D, e: E, g: G, h: H, i: I, r: R|
                                                                            {
                                                                                &&& a.deep_view() == first
                                                                                &&& b.deep_view() == second
                                                                                &&& c.deep_view() == third
                                                                                &&& d.deep_view() == fourth
                                                                                &&& e.deep_view() == fifth
                                                                                &&& g.deep_view() == sixth
                                                                                &&& h.deep_view() == seventh
                                                                                &&& i.deep_view() == eighth
                                                                                &&& f.ensures((a, b, c, d, e, g, h, i), r)
                                                                                &&& out@ == completed(r.ret_encoded())
                                                                            },
                                                                    },
                                                            },
                                                    },
                                            },
                                    },
                            },
                    },
            },
{
    let a = match argument::<A, S>(count, source, 0) {
        Ok(a) => a,
        Err(e) => {
            return complete(Err(e));
        },
    };
    let b = match argument::<B, S>(count, source, 1) {
        Ok(b) => b,
        Err(e) => {
            return complete(Err(e));
        },
    };
    let c = match argument::<C, S>(count, source, 2) {
        Ok(c) => c,
        Err(e) => {
            return complete(Err(e));
        },
    };
    let d = match argument::<D, S>(count, source, 3) {
        Ok(d) => d,
        Err(e) => {
            return complete(Err(e));
        },
    };
    let e = match argument::<E, S>(count, source, 4) {
        Ok(e) => e,
        Err(e) => {
            return complete(Err(e));
        },
    };
    let g = match argument::<G, S>(count, source, 5) {
        Ok(g) => g,
        Err(e) => {
            return complete(Err(e));
        },
    };
    let h = match argument::<H, S>(count, source, 6) {
        Ok(h) => h,
        Err(e) => {
            return complete(Err(e));
        },
    };
    let i = match argument::<I, S>(count, source, 7) {
        Ok(i) => i,
        Err(e) => {
            return complete(Err(e));
        },
    };
    let r = f(a, b, c, d, e, g, h, i);
    complete(r.into_ret())
}

} // verus!

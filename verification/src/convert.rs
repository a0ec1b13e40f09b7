//! The conversion protocol: how native data and engine data are turned into
//! each other.
//!
//! What the tree of a native value looks like, and which trees a native type
//! accepts, is decided here, for the scalar types, for optional values and
//! for sequences.

use vstd::prelude::*;
use vstd::string::StringExecFns;
use crate::datum::{Datum, Tree, DEPTH_LIMIT};
use crate::error::{Error, ErrorModel};
use crate::number::{clamp, double_of_int, integer_part, lemma_integer_round_trips, Number, TWO_53};

verus! {

/// The mathematical content of the result of a conversion.
pub open spec fn outcome_model<T: DeepView>(r: Result<T, Error>) -> Result<T::V, ErrorModel> {
    match r {
        Ok(v) => Ok(v.deep_view()),
        Err(e) => Err(e@),
    }
}

/// A native type whose values can be turned into engine data.
pub trait IntoJs: Sized + DeepView {
    /// The tree of a native value, or the error that its conversion ends in.
    spec fn encoded(model: <Self as DeepView>::V) -> Result<Tree, ErrorModel>;

    /// Turns the value into engine data.
    fn into_js(self) -> (r: Result<Datum, Error>)
        ensures
            outcome_model(r) == Self::encoded(self.deep_view()),
    ;
}

/// A native type whose values can be read out of engine data.
pub trait FromJs: Sized + DeepView {
    /// The native value that a tree is read as, or the error that reading
    /// it ends in.
    spec fn decoded(tree: Tree) -> Result<<Self as DeepView>::V, ErrorModel>;

    /// How many levels of arrays and objects a value of this type is read
    /// through: none for a type that looks into no object, one more than its
    /// elements for a sequence. No number where the type takes a value
    /// whole, however deep it goes.
    spec fn reach() -> Option<nat>;

    /// Reads a value out of engine data. The data is left as it is.
    fn from_js(value: &Datum) -> (r: Result<Self, Error>)
        ensures
            outcome_model(r) == Self::decoded(value@),
    ;

    /// What is read as a value of this type does not depend on what lies
    /// beyond the type's reach: data that was read out only that far, or
    /// further, is read as the same value, or refused with the same error,
    /// as the whole.
    proof fn lemma_reach(tree: Tree, levels: nat)
        ensures
            Self::reach() is Some && levels >= Self::reach()->0 ==> Self::decoded(
                tree.cut(levels),
            ) == Self::decoded(tree),
    ;

    /// How many levels of arrays and objects have to be read out of the
    /// engine before a value of this type can be read out of the data; no
    /// number where the type takes a value whole.
    fn levels() -> (n: Option<usize>)
        ensures
            n == levels_model(Self::reach()),
    ;
}

/// The reach of a type as a machine number: the reach itself, as far as it
/// can be counted.
pub open spec fn levels_model(reach: Option<nat>) -> Option<usize> {
    match reach {
        Some(r) => Some(
            if r <= usize::MAX {
                r as usize
            } else {
                usize::MAX
            },
        ),
        None => None,
    }
}

/// The reach of a type that looks one level further than a type of reach
/// `inner`.
pub open spec fn one_more(inner: Option<nat>) -> Option<nat> {
    match inner {
        Some(r) => Some(r + 1),
        None => None,
    }
}

/// The levels of a type that looks one level further than a type with
/// `inner` levels.
pub fn one_more_level(inner: Option<usize>) -> (n: Option<usize>)
    ensures
        forall|reach: Option<nat>|
            inner == levels_model(reach) ==> n == levels_model(one_more(reach)),
{
    match inner {
        Some(r) => Some(
            if r == usize::MAX {
                r
            } else {
                r + 1
            },
        ),
        None => None,
    }
}

/// How many levels of arrays and objects are read out of the engine for a
/// type with the given levels: as many as the type looks into, and for a
/// type that takes a value whole as many as the limit of depth allows.
pub fn depth_of(levels: Option<usize>) -> (depth: usize)
    ensures
        depth == match levels {
            Some(n) => n,
            None => DEPTH_LIMIT,
        },
{
    match levels {
        Some(n) => n,
        None => DEPTH_LIMIT,
    }
}

/// The error for a tree whose kind is not the kind named `expected`.
pub open spec fn type_error(expected: Seq<char>, found: Tree) -> ErrorModel {
    ErrorModel::TypeError { expected, got: found.kind().spec_name() }
}

impl IntoJs for Datum {
    open spec fn encoded(model: Tree) -> Result<Tree, ErrorModel> {
        Ok(model)
    }

    fn into_js(self) -> (r: Result<Datum, Error>) {
        Ok(self)
    }
}

impl FromJs for Datum {
    open spec fn decoded(tree: Tree) -> Result<Tree, ErrorModel> {
        Ok(tree)
    }

    open spec fn reach() -> Option<nat> {
        None
    }

    fn from_js(value: &Datum) -> (r: Result<Self, Error>) {
        Ok(value.duplicate())
    }

    fn levels() -> (n: Option<usize>) {
        None
    }

    proof fn lemma_reach(tree: Tree, levels: nat) {
    }
}

impl IntoJs for () {
    open spec fn encoded(model: ()) -> Result<Tree, ErrorModel> {
        Ok(Tree::Undefined)
    }

    fn into_js(self) -> (r: Result<Datum, Error>) {
        Ok(Datum::Undefined)
    }
}

impl IntoJs for bool {
    open spec fn encoded(model: bool) -> Result<Tree, ErrorModel> {
        Ok(Tree::Boolean(model))
    }

    fn into_js(self) -> (r: Result<Datum, Error>) {
        Ok(Datum::Boolean(self))
    }
}

impl FromJs for bool {
    open spec fn decoded(tree: Tree) -> Result<bool, ErrorModel> {
        match tree {
            Tree::Boolean(b) => Ok(b),
            _ => Err(type_error("boolean"@, tree)),
        }
    }

    open spec fn reach() -> Option<nat> {
        Some(0)
    }

    fn from_js(value: &Datum) -> (r: Result<Self, Error>) {
        match value {
            Datum::Boolean(b) => Ok(*b),
            _ => Err(Error::TypeError { expected: "boolean", got: value.kind().name() }),
        }
    }

    fn levels() -> (n: Option<usize>) {
        Some(0)
    }

    proof fn lemma_reach(tree: Tree, levels: nat) {
    }
}

impl DeepView for Number {
    type V = u64;

    open spec fn deep_view(&self) -> u64 {
        self@
    }
}

impl IntoJs for Number {
    open spec fn encoded(model: u64) -> Result<Tree, ErrorModel> {
        Ok(Tree::Number(model))
    }

    fn into_js(self) -> (r: Result<Datum, Error>) {
        Ok(Datum::Number(self))
    }
}

impl FromJs for Number {
    open spec fn decoded(tree: Tree) -> Result<u64, ErrorModel> {
        match tree {
            Tree::Number(n) => Ok(n),
            _ => Err(type_error("number"@, tree)),
        }
    }

    open spec fn reach() -> Option<nat> {
        Some(0)
    }

    fn from_js(value: &Datum) -> (r: Result<Self, Error>) {
        match value {
            Datum::Number(n) => Ok(*n),
            _ => Err(Error::TypeError { expected: "number", got: value.kind().name() }),
        }
    }

    fn levels() -> (n: Option<usize>) {
        Some(0)
    }

    proof fn lemma_reach(tree: Tree, levels: nat) {
    }
}

// Every integer type crosses as a double: widened on the way in, cut and
// clamped on the way back.
impl IntoJs for i8 {
    open spec fn encoded(model: i8) -> Result<Tree, ErrorModel> {
        Ok(Tree::Number(double_of_int(model as int) as u64))
    }

    fn into_js(self) -> (r: Result<Datum, Error>) {
        Ok(Datum::Number(Number::from_i8(self)))
    }
}

impl FromJs for i8 {
    open spec fn decoded(tree: Tree) -> Result<i8, ErrorModel> {
        match tree {
            Tree::Number(bits) => Ok(
                clamp(integer_part(bits), i8::MIN as int, i8::MAX as int) as i8,
            ),
            _ => Err(type_error("number"@, tree)),
        }
    }

    open spec fn reach() -> Option<nat> {
        Some(0)
    }

    fn from_js(value: &Datum) -> (r: Result<Self, Error>) {
        match value {
            Datum::Number(n) => Ok(n.to_i8()),
            _ => Err(Error::TypeError { expected: "number", got: value.kind().name() }),
        }
    }

    fn levels() -> (n: Option<usize>) {
        Some(0)
    }

    proof fn lemma_reach(tree: Tree, levels: nat) {
    }
}

impl IntoJs for u8 {
    open spec fn encoded(model: u8) -> Result<Tree, ErrorModel> {
        Ok(Tree::Number(double_of_int(model as int) as u64))
    }

    fn into_js(self) -> (r: Result<Datum, Error>) {
        Ok(Datum::Number(Number::from_u8(self)))
    }
}

impl FromJs for u8 {
    open spec fn decoded(tree: Tree) -> Result<u8, ErrorModel> {
        match tree {
            Tree::Number(bits) => Ok(
                clamp(integer_part(bits), u8::MIN as int, u8::MAX as int) as u8,
            ),
            _ => Err(type_error("number"@, tree)),
        }
    }

    open spec fn reach() -> Option<nat> {
        Some(0)
    }

    fn from_js(value: &Datum) -> (r: Result<Self, Error>) {
        match value {
            Datum::Number(n) => Ok(n.to_u8()),
            _ => Err(Error::TypeError { expected: "number", got: value.kind().name() }),
        }
    }

    fn levels() -> (n: Option<usize>) {
        Some(0)
    }

    proof fn lemma_reach(tree: Tree, levels: nat) {
    }
}

impl IntoJs for i16 {
    open spec fn encoded(model: i16) -> Result<Tree, ErrorModel> {
        Ok(Tree::Number(double_of_int(model as int) as u64))
    }

    fn into_js(self) -> (r: Result<Datum, Error>) {
        Ok(Datum::Number(Number::from_i16(self)))
    }
}

impl FromJs for i16 {
    open spec fn decoded(tree: Tree) -> Result<i16, ErrorModel> {
        match tree {
            Tree::Number(bits) => Ok(
                clamp(integer_part(bits), i16::MIN as int, i16::MAX as int) as i16,
            ),
            _ => Err(type_error("number"@, tree)),
        }
    }

    open spec fn reach() -> Option<nat> {
        Some(0)
    }

    fn from_js(value: &Datum) -> (r: Result<Self, Error>) {
        match value {
            Datum::Number(n) => Ok(n.to_i16()),
            _ => Err(Error::TypeError { expected: "number", got: value.kind().name() }),
        }
    }

    fn levels() -> (n: Option<usize>) {
        Some(0)
    }

    proof fn lemma_reach(tree: Tree, levels: nat) {
    }
}

impl IntoJs for u16 {
    open spec fn encoded(model: u16) -> Result<Tree, ErrorModel> {
        Ok(Tree::Number(double_of_int(model as int) as u64))
    }

    fn into_js(self) -> (r: Result<Datum, Error>) {
        Ok(Datum::Number(Number::from_u16(self)))
    }
}

impl FromJs for u16 {
    open spec fn decoded(tree: Tree) -> Result<u16, ErrorModel> {
        match tree {
            Tree::Number(bits) => Ok(
                clamp(integer_part(bits), u16::MIN as int, u16::MAX as int) as u16,
            ),
            _ => Err(type_error("number"@, tree)),
        }
    }

    open spec fn reach() -> Option<nat> {
        Some(0)
    }

    fn from_js(value: &Datum) -> (r: Result<Self, Error>) {
        match value {
            Datum::Number(n) => Ok(n.to_u16()),
            _ => Err(Error::TypeError { expected: "number", got: value.kind().name() }),
        }
    }

    fn levels() -> (n: Option<usize>) {
        Some(0)
    }

    proof fn lemma_reach(tree: Tree, levels: nat) {
    }
}

impl IntoJs for i32 {
    open spec fn encoded(model: i32) -> Result<Tree, ErrorModel> {
        Ok(Tree::Number(double_of_int(model as int) as u64))
    }

    fn into_js(self) -> (r: Result<Datum, Error>) {
        Ok(Datum::Number(Number::from_i32(self)))
    }
}

impl FromJs for i32 {
    open spec fn decoded(tree: Tree) -> Result<i32, ErrorModel> {
        match tree {
            Tree::Number(bits) => Ok(
                clamp(integer_part(bits), i32::MIN as int, i32::MAX as int) as i32,
            ),
            _ => Err(type_error("number"@, tree)),
        }
    }

    open spec fn reach() -> Option<nat> {
        Some(0)
    }

    fn from_js(value: &Datum) -> (r: Result<Self, Error>) {
        match value {
            Datum::Number(n) => Ok(n.to_i32()),
            _ => Err(Error::TypeError { expected: "number", got: value.kind().name() }),
        }
    }

    fn levels() -> (n: Option<usize>) {
        Some(0)
    }

    proof fn lemma_reach(tree: Tree, levels: nat) {
    }
}

impl IntoJs for u32 {
    open spec fn encoded(model: u32) -> Result<Tree, ErrorModel> {
        Ok(Tree::Number(double_of_int(model as int) as u64))
    }

    fn into_js(self) -> (r: Result<Datum, Error>) {
        Ok(Datum::Number(Number::from_u32(self)))
    }
}

impl FromJs for u32 {
    open spec fn decoded(tree: Tree) -> Result<u32, ErrorModel> {
        match tree {
            Tree::Number(bits) => Ok(
                clamp(integer_part(bits), u32::MIN as int, u32::MAX as int) as u32,
            ),
            _ => Err(type_error("number"@, tree)),
        }
    }

    open spec fn reach() -> Option<nat> {
        Some(0)
    }

    fn from_js(value: &Datum) -> (r: Result<Self, Error>) {
        match value {
            Datum::Number(n) => Ok(n.to_u32()),
            _ => Err(Error::TypeError { expected: "number", got: value.kind().name() }),
        }
    }

    fn levels() -> (n: Option<usize>) {
        Some(0)
    }

    proof fn lemma_reach(tree: Tree, levels: nat) {
    }
}

impl IntoJs for i64 {
    open spec fn encoded(model: i64) -> Result<Tree, ErrorModel> {
        Ok(Tree::Number(double_of_int(model as int) as u64))
    }

    fn into_js(self) -> (r: Result<Datum, Error>) {
        Ok(Datum::Number(Number::from_i64(self)))
    }
}

impl FromJs for i64 {
    open spec fn decoded(tree: Tree) -> Result<i64, ErrorModel> {
        match tree {
            Tree::Number(bits) => Ok(
                clamp(integer_part(bits), i64::MIN as int, i64::MAX as int) as i64,
            ),
            _ => Err(type_error("number"@, tree)),
        }
    }

    open spec fn reach() -> Option<nat> {
        Some(0)
    }

    fn from_js(value: &Datum) -> (r: Result<Self, Error>) {
        match value {
            Datum::Number(n) => Ok(n.to_i64()),
            _ => Err(Error::TypeError { expected: "number", got: value.kind().name() }),
        }
    }

    fn levels() -> (n: Option<usize>) {
        Some(0)
    }

    proof fn lemma_reach(tree: Tree, levels: nat) {
    }
}

impl IntoJs for u64 {
    open spec fn encoded(model: u64) -> Result<Tree, ErrorModel> {
        Ok(Tree::Number(double_of_int(model as int) as u64))
    }

    fn into_js(self) -> (r: Result<Datum, Error>) {
        Ok(Datum::Number(Number::from_u64(self)))
    }
}

impl FromJs for u64 {
    open spec fn decoded(tree: Tree) -> Result<u64, ErrorModel> {
        match tree {
            Tree::Number(bits) => Ok(
                clamp(integer_part(bits), u64::MIN as int, u64::MAX as int) as u64,
            ),
            _ => Err(type_error("number"@, tree)),
        }
    }

    open spec fn reach() -> Option<nat> {
        Some(0)
    }

    fn from_js(value: &Datum) -> (r: Result<Self, Error>) {
        match value {
            Datum::Number(n) => Ok(n.to_u64()),
            _ => Err(Error::TypeError { expected: "number", got: value.kind().name() }),
        }
    }

    fn levels() -> (n: Option<usize>) {
        Some(0)
    }

    proof fn lemma_reach(tree: Tree, levels: nat) {
    }
}

impl IntoJs for isize {
    open spec fn encoded(model: isize) -> Result<Tree, ErrorModel> {
        Ok(Tree::Number(double_of_int(model as int) as u64))
    }

    fn into_js(self) -> (r: Result<Datum, Error>) {
        Ok(Datum::Number(Number::from_isize(self)))
    }
}

impl FromJs for isize {
    open spec fn decoded(tree: Tree) -> Result<isize, ErrorModel> {
        match tree {
            Tree::Number(bits) => Ok(
                clamp(integer_part(bits), isize::MIN as int, isize::MAX as int) as isize,
            ),
            _ => Err(type_error("number"@, tree)),
        }
    }

    open spec fn reach() -> Option<nat> {
        Some(0)
    }

    fn from_js(value: &Datum) -> (r: Result<Self, Error>) {
        match value {
            Datum::Number(n) => Ok(n.to_isize()),
            _ => Err(Error::TypeError { expected: "number", got: value.kind().name() }),
        }
    }

    fn levels() -> (n: Option<usize>) {
        Some(0)
    }

    proof fn lemma_reach(tree: Tree, levels: nat) {
    }
}

impl IntoJs for usize {
    open spec fn encoded(model: usize) -> Result<Tree, ErrorModel> {
        Ok(Tree::Number(double_of_int(model as int) as u64))
    }

    fn into_js(self) -> (r: Result<Datum, Error>) {
        Ok(Datum::Number(Number::from_usize(self)))
    }
}

impl FromJs for usize {
    open spec fn decoded(tree: Tree) -> Result<usize, ErrorModel> {
        match tree {
            Tree::Number(bits) => Ok(
                clamp(integer_part(bits), usize::MIN as int, usize::MAX as int) as usize,
            ),
            _ => Err(type_error("number"@, tree)),
        }
    }

    open spec fn reach() -> Option<nat> {
        Some(0)
    }

    fn from_js(value: &Datum) -> (r: Result<Self, Error>) {
        match value {
            Datum::Number(n) => Ok(n.to_usize()),
            _ => Err(Error::TypeError { expected: "number", got: value.kind().name() }),
        }
    }

    fn levels() -> (n: Option<usize>) {
        Some(0)
    }

    proof fn lemma_reach(tree: Tree, levels: nat) {
    }
}

impl IntoJs for String {
    open spec fn encoded(model: Seq<char>) -> Result<Tree, ErrorModel> {
        Ok(Tree::String(model))
    }

    fn into_js(self) -> (r: Result<Datum, Error>) {
        Ok(Datum::String(self))
    }
}

impl<'a> IntoJs for &'a str {
    open spec fn encoded(model: Seq<char>) -> Result<Tree, ErrorModel> {
        Ok(Tree::String(model))
    }

    fn into_js(self) -> (r: Result<Datum, Error>) {
        Ok(Datum::String(String::from_str(self)))
    }
}

impl FromJs for String {
    open spec fn decoded(tree: Tree) -> Result<Seq<char>, ErrorModel> {
        match tree {
            Tree::String(s) => Ok(s),
            _ => Err(type_error("string"@, tree)),
        }
    }

    open spec fn reach() -> Option<nat> {
        Some(0)
    }

    fn from_js(value: &Datum) -> (r: Result<Self, Error>) {
        match value {
            Datum::String(s) => Ok(s.clone()),
            _ => Err(Error::TypeError { expected: "string", got: value.kind().name() }),
        }
    }

    fn levels() -> (n: Option<usize>) {
        Some(0)
    }

    proof fn lemma_reach(tree: Tree, levels: nat) {
    }
}

impl<T: IntoJs> IntoJs for Option<T> {
    open spec fn encoded(model: Option<T::V>) -> Result<Tree, ErrorModel> {
        match model {
            Some(m) => T::encoded(m),
            None => Ok(Tree::Null),
        }
    }

    fn into_js(self) -> (r: Result<Datum, Error>) {
        match self {
            Some(v) => v.into_js(),
            None => Ok(Datum::Null),
        }
    }
}

impl<T: FromJs> FromJs for Option<T> {
    open spec fn decoded(tree: Tree) -> Result<Option<T::V>, ErrorModel> {
        match tree {
            Tree::Null | Tree::Undefined => Ok(None),
            _ => match T::decoded(tree) {
                Ok(m) => Ok(Some(m)),
                Err(e) => Err(e),
            },
        }
    }

    open spec fn reach() -> Option<nat> {
        T::reach()
    }

    fn from_js(value: &Datum) -> (r: Result<Self, Error>) {
        match value {
            Datum::Null | Datum::Undefined => Ok(None),
            _ => match T::from_js(value) {
                Ok(v) => Ok(Some(v)),
                Err(e) => Err(e),
            },
        }
    }

    fn levels() -> (n: Option<usize>) {
        T::levels()
    }

    proof fn lemma_reach(tree: Tree, levels: nat) {
        T::lemma_reach(tree, levels);
    }
}

/// The trees of a sequence of native values, in order; or, where the
/// conversion of one of them fails, the error of the first that does.
pub open spec fn encode_each<T: IntoJs>(items: Seq<T::V>) -> Result<Seq<Tree>, ErrorModel>
    decreases items.len(),
{
    if items.len() == 0 {
        Ok(Seq::<Tree>::empty())
    } else {
        match encode_each::<T>(items.drop_last()) {
            Err(e) => Err(e),
            Ok(done) => match T::encoded(items.last()) {
                Err(e) => Err(e),
                Ok(t) => Ok(done.push(t)),
            },
        }
    }
}

/// The native values that a sequence of trees is read as, in order; or,
/// where the reading of one of them fails, the error of the first that does.
pub open spec fn decode_each<T: FromJs>(trees: Seq<Tree>) -> Result<Seq<T::V>, ErrorModel>
    decreases trees.len(),
{
    if trees.len() == 0 {
        Ok(Seq::<T::V>::empty())
    } else {
        match decode_each::<T>(trees.drop_last()) {
            Err(e) => Err(e),
            Ok(done) => match T::decoded(trees.last()) {
                Err(e) => Err(e),
                Ok(m) => Ok(done.push(m)),
            },
        }
    }
}

/// Once the conversion of a prefix has failed, the conversion of the whole
/// fails in the same way: what follows the first failure is not looked at.
pub proof fn lemma_encode_each_stops<T: IntoJs>(items: Seq<T::V>, k: int)
    requires
        0 <= k <= items.len(),
        encode_each::<T>(items.take(k)) is Err,
    ensures
        encode_each::<T>(items) == encode_each::<T>(items.take(k)),
    decreases items.len() - k,
{
    if k < items.len() {
        assert(items.take(k + 1).drop_last() =~= items.take(k));
        lemma_encode_each_stops::<T>(items, k + 1);
    } else {
        assert(items.take(k) =~= items);
    }
}

/// Once the reading of a prefix has failed, the reading of the whole fails
/// in the same way: what follows the first failure is not looked at.
pub proof fn lemma_decode_each_stops<T: FromJs>(trees: Seq<Tree>, k: int)
    requires
        0 <= k <= trees.len(),
        decode_each::<T>(trees.take(k)) is Err,
    ensures
        decode_each::<T>(trees) == decode_each::<T>(trees.take(k)),
    decreases trees.len() - k,
{
    if k < trees.len() {
        assert(trees.take(k + 1).drop_last() =~= trees.take(k));
        lemma_decode_each_stops::<T>(trees, k + 1);
    } else {
        assert(trees.take(k) =~= trees);
    }
}

/// A sequence of trees that were each read as far as `T` reaches, or
/// further, is read as the same values as the trees themselves.
pub proof fn lemma_decode_each_cut<T: FromJs>(trees: Seq<Tree>, levels: nat)
    requires
        T::reach() is Some,
        levels >= T::reach()->0,
    ensures
        decode_each::<T>(Seq::new(trees.len(), |i: int| trees[i].cut(levels))) == decode_each::<T>(
            trees,
        ),
    decreases trees.len(),
{
    let read = Seq::new(trees.len(), |i: int| trees[i].cut(levels));
    if trees.len() > 0 {
        let front = trees.drop_last();
        lemma_decode_each_cut::<T>(front, levels);
        assert(read.drop_last() =~= Seq::new(front.len(), |i: int| front[i].cut(levels)));
        assert(read.last() == trees.last().cut(levels));
        T::lemma_reach(trees.last(), levels);
    } else {
        assert(read =~= trees);
    }
}

impl<T: IntoJs> IntoJs for Vec<T> {
    open spec fn encoded(model: Seq<T::V>) -> Result<Tree, ErrorModel> {
        match encode_each::<T>(model) {
            Ok(trees) => Ok(Tree::Array(trees)),
            Err(e) => Err(e),
        }
    }

    fn into_js(self) -> (r: Result<Datum, Error>) {
        let ghost model = self.deep_view();
        let mut out: Vec<Datum> = Vec::new();
        assert(model.take(0) =~= Seq::<T::V>::empty());
        for item in iter: self.into_iter()
            invariant
                iter.seq() == self@,
                model == self.deep_view(),
                encode_each::<T>(model.take(iter.index() as int)) is Ok,
                out@.len() == iter.index(),
                forall|j: int|
                    0 <= j < out@.len() ==> out@[j]@ == encode_each::<T>(
                        model.take(iter.index() as int),
                    )->Ok_0[j],
                encode_each::<T>(model.take(iter.index() as int))->Ok_0.len() == iter.index(),
        {
            let ghost k = iter.index() as int;
            proof {
                assert(model.take(k + 1).drop_last() =~= model.take(k));
                assert(model.take(k + 1).last() == item.deep_view());
            }
            match item.into_js() {
                Ok(d) => {
                    out.push(d);
                },
                Err(e) => {
                    proof {
                        lemma_encode_each_stops::<T>(model, k + 1);
                    }
                    return Err(e);
                },
            }
        }
        let d = Datum::Array(out);
        proof {
            assert(model.take(model.len() as int) =~= model);
            assert(d@->Array_0 =~= encode_each::<T>(model)->Ok_0);
        }
        Ok(d)
    }
}

impl<T: FromJs> FromJs for Vec<T> {
    open spec fn decoded(tree: Tree) -> Result<Seq<T::V>, ErrorModel> {
        match tree {
            Tree::Array(trees) => decode_each::<T>(trees),
            _ => Err(type_error("array"@, tree)),
        }
    }

    open spec fn reach() -> Option<nat> {
        one_more(T::reach())
    }

    fn from_js(value: &Datum) -> (r: Result<Self, Error>) {
        match value {
            Datum::Array(items) => {
                let ghost trees = value@->Array_0;
                let mut out: Vec<T> = Vec::new();
                let mut i: usize = 0;
                proof {
                    assert(*value == Datum::Array(*items));
                    Datum::lemma_array_view(*items);
                    assert(trees.take(0) =~= Seq::<Tree>::empty());
                    assert(out.deep_view() =~= Seq::<T::V>::empty());
                }
                while i < items.len()
                    invariant
                        i <= items.len(),
                        *value == Datum::Array(*items),
                        trees == value@->Array_0,
                        trees.len() == items@.len(),
                        decode_each::<T>(trees.take(i as int)) == Ok::<Seq<T::V>, ErrorModel>(
                            out.deep_view(),
                        ),
                    decreases items.len() - i,
                {
                    proof {
                        assert(trees.take(i + 1).drop_last() =~= trees.take(i as int));
                        assert(trees.take(i + 1).last() == items@[i as int]@);
                    }
                    let ghost before = out.deep_view();
                    match T::from_js(&items[i]) {
                        Ok(v) => {
                            out.push(v);
                            assert(out.deep_view() =~= before.push(v.deep_view()));
                        },
                        Err(e) => {
                            proof {
                                lemma_decode_each_stops::<T>(trees, i + 1);
                            }
                            return Err(e);
                        },
                    }
                    i += 1;
                }
                proof {
                    assert(trees.take(trees.len() as int) =~= trees);
                }
                Ok(out)
            },
            _ => Err(Error::TypeError { expected: "array", got: value.kind().name() }),
        }
    }

    fn levels() -> (n: Option<usize>) {
        one_more_level(T::levels())
    }

    proof fn lemma_reach(tree: Tree, levels: nat) {
        if T::reach() is Some && levels >= T::reach()->0 + 1 {
            match tree {
                Tree::Array(items) => {
                    let below = (levels - 1) as nat;
                    lemma_decode_each_cut::<T>(items, below);
                    assert(tree.cut(levels)->Array_0 =~= Seq::new(
                        items.len(),
                        |i: int| items[i].cut(below),
                    ));
                },
                _ => {},
            }
        }
    }
}

/// Whether a native value, turned into engine data and read back, is the
/// value it was.
pub open spec fn round_trips<T: IntoJs + FromJs>(model: <T as DeepView>::V) -> bool {
    T::encoded(model) is Ok && T::decoded(T::encoded(model)->Ok_0) == Ok::<
        <T as DeepView>::V,
        ErrorModel,
    >(model)
}

/// Every boolean survives the round trip through engine data.
pub proof fn lemma_bool_round_trips(b: bool)
    ensures
        round_trips::<bool>(b),
{
}

/// Every number survives the round trip through engine data, bit for bit.
pub proof fn lemma_number_round_trips(bits: u64)
    ensures
        round_trips::<Number>(bits),
{
}

/// Every string survives the round trip through engine data.
pub proof fn lemma_string_round_trips(text: Seq<char>)
    ensures
        round_trips::<String>(text),
{
}

/// Engine data that is passed through as it is survives the round trip.
pub proof fn lemma_datum_round_trips(tree: Tree)
    ensures
        round_trips::<Datum>(tree),
{
}

/// Every integer of at most thirty-two bits survives the round trip through
/// a double, whatever its type: a double holds each of them exactly.
pub proof fn lemma_small_integers_round_trip()
    ensures
        forall|x: i8| round_trips::<i8>(x),
        forall|x: u8| round_trips::<u8>(x),
        forall|x: i16| round_trips::<i16>(x),
        forall|x: u16| round_trips::<u16>(x),
        forall|x: i32| round_trips::<i32>(x),
        forall|x: u32| round_trips::<u32>(x),
{
    assert forall|x: i8| round_trips::<i8>(x) by {
        lemma_integer_round_trips(x as int);
    }
    assert forall|x: u8| round_trips::<u8>(x) by {
        lemma_integer_round_trips(x as int);
    }
    assert forall|x: i16| round_trips::<i16>(x) by {
        lemma_integer_round_trips(x as int);
    }
    assert forall|x: u16| round_trips::<u16>(x) by {
        lemma_integer_round_trips(x as int);
    }
    assert forall|x: i32| round_trips::<i32>(x) by {
        lemma_integer_round_trips(x as int);
    }
    assert forall|x: u32| round_trips::<u32>(x) by {
        lemma_integer_round_trips(x as int);
    }
}

/// An integer of sixty-four bits or of pointer width survives the round
/// trip through a double if its absolute value is below two to the
/// fifty-third. Beyond that a double holds only some integers, and the
/// others come back as a neighbour.
pub proof fn lemma_wide_integers_round_trip()
    ensures
        forall|x: i64| -(TWO_53 as int) < x < TWO_53 ==> round_trips::<i64>(x),
        forall|x: u64| x < TWO_53 ==> round_trips::<u64>(x),
        forall|x: isize| -(TWO_53 as int) < x < TWO_53 ==> round_trips::<isize>(x),
        forall|x: usize| x < TWO_53 ==> round_trips::<usize>(x),
{
    assert forall|x: i64| -(TWO_53 as int) < x < TWO_53 implies round_trips::<i64>(x) by {
        lemma_integer_round_trips(x as int);
    }
    assert forall|x: u64| x < TWO_53 implies round_trips::<u64>(x) by {
        lemma_integer_round_trips(x as int);
    }
    assert forall|x: isize| -(TWO_53 as int) < x < TWO_53 implies round_trips::<isize>(x) by {
        lemma_integer_round_trips(x as int);
    }
    assert forall|x: usize| x < TWO_53 implies round_trips::<usize>(x) by {
        lemma_integer_round_trips(x as int);
    }
}

/// An integer that is read back as a narrower type than it was written as
/// is cut to the range of the narrower type, not wrapped around it: what
/// comes back is the nearest value that the type holds.
pub proof fn lemma_narrowing_clamps(x: i32)
    ensures
        <u8 as FromJs>::decoded(<i32 as IntoJs>::encoded(x)->Ok_0) == Ok::<u8, ErrorModel>(
            clamp(x as int, 0, 255) as u8,
        ),
        <i8 as FromJs>::decoded(<i32 as IntoJs>::encoded(x)->Ok_0) == Ok::<i8, ErrorModel>(
            clamp(x as int, -128, 127) as i8,
        ),
        <u16 as FromJs>::decoded(<i32 as IntoJs>::encoded(x)->Ok_0) == Ok::<u16, ErrorModel>(
            clamp(x as int, 0, 65535) as u16,
        ),
        <i16 as FromJs>::decoded(<i32 as IntoJs>::encoded(x)->Ok_0) == Ok::<i16, ErrorModel>(
            clamp(x as int, -32768, 32767) as i16,
        ),
{
    lemma_integer_round_trips(x as int);
}

/// An absent optional value becomes `null`, and `null` is read as absent. A
/// present one survives the round trip if the value in it does, unless that
/// value is itself laid out as `null` or `undefined`, which read as absent.
pub proof fn lemma_option_round_trips<T: IntoJs + FromJs>(model: Option<<T as DeepView>::V>)
    requires
        model is Some ==> round_trips::<T>(model->0),
        model is Some ==> !(T::encoded(model->0)->Ok_0 is Null) && !(T::encoded(
            model->0,
        )->Ok_0 is Undefined),
    ensures
        round_trips::<Option<T>>(model),
        model is None ==> <Option<T> as IntoJs>::encoded(model) == Ok::<Tree, ErrorModel>(
            Tree::Null,
        ),
{
}

/// A sequence survives the round trip through an engine array, element by
/// element and in order, if each of its elements survives it.
pub proof fn lemma_vec_round_trips<T: IntoJs + FromJs>(items: Seq<<T as DeepView>::V>)
    requires
        forall|i: int| 0 <= i < items.len() ==> round_trips::<T>(#[trigger] items[i]),
    ensures
        round_trips::<Vec<T>>(items),
        encode_each::<T>(items) is Ok,
        encode_each::<T>(items)->Ok_0.len() == items.len(),
        decode_each::<T>(encode_each::<T>(items)->Ok_0) == Ok::<Seq<<T as DeepView>::V>, ErrorModel>(
            items,
        ),
    decreases items.len(),
{
    if items.len() > 0 {
        let front = items.drop_last();
        assert forall|i: int| 0 <= i < front.len() implies round_trips::<T>(
            #[trigger] front[i],
        ) by {
            assert(front[i] == items[i]);
        }
        lemma_vec_round_trips::<T>(front);
        assert(round_trips::<T>(items[items.len() - 1]));
        let done = encode_each::<T>(front)->Ok_0;
        let t = T::encoded(items.last())->Ok_0;
        let whole = done.push(t);
        assert(encode_each::<T>(items) == Ok::<Seq<Tree>, ErrorModel>(whole));
        assert(whole.drop_last() =~= done);
        assert(whole.last() == t);
        assert(front.push(items.last()) =~= items);
        assert(decode_each::<T>(whole) == Ok::<Seq<<T as DeepView>::V>, ErrorModel>(items));
    } else {
        assert(items =~= Seq::<<T as DeepView>::V>::empty());
    }
}

} // verus!

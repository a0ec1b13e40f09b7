//! Tagged values: what crosses the engine boundary, and who owns it.

use vstd::prelude::*;
use std::marker::PhantomData;
use crate::error::{Error, ErrorModel};
use crate::array::Array;
use crate::array_buffer::ArrayBuffer;
use crate::bigint::BigInt;
use crate::function::Function;
use crate::number::{bits_are_nan, bits_equal, Number};
use crate::object::Object;
use crate::runtime::Runtime;
use crate::string::JsString;
use crate::symbol::Symbol;

verus! {

/// The code the engine writes for `undefined`.
pub const KIND_UNDEFINED: i32 = 0;

/// The code the engine writes for `null`.
pub const KIND_NULL: i32 = 1;

/// The code the engine writes for a boolean.
pub const KIND_BOOLEAN: i32 = 2;

/// The code the engine writes for a number.
pub const KIND_NUMBER: i32 = 3;

/// The code the engine writes for a symbol.
pub const KIND_SYMBOL: i32 = 4;

/// The code the engine writes for a big integer.
pub const KIND_BIGINT: i32 = 5;

/// The code the engine writes for a string.
pub const KIND_STRING: i32 = 6;

/// The code the engine writes for an object.
pub const KIND_OBJECT: i32 = 7;

/// The eight kinds of value that the engine hands across its boundary.
#[derive(Clone, Copy, Debug, PartialEq, Eq, Structural)]
pub enum ValueKind {
    Undefined,
    Null,
    Boolean,
    Number,
    Symbol,
    BigInt,
    String,
    Object,
}

impl ValueKind {
    /// The kind that a kind code stands for. A code that the engine never
    /// writes reads as `Undefined`.
    pub open spec fn spec_from_raw(kind: i32) -> ValueKind {
        if kind == KIND_NULL {
            ValueKind::Null
        } else if kind == KIND_BOOLEAN {
            ValueKind::Boolean
        } else if kind == KIND_NUMBER {
            ValueKind::Number
        } else if kind == KIND_SYMBOL {
            ValueKind::Symbol
        } else if kind == KIND_BIGINT {
            ValueKind::BigInt
        } else if kind == KIND_STRING {
            ValueKind::String
        } else if kind == KIND_OBJECT {
            ValueKind::Object
        } else {
            ValueKind::Undefined
        }
    }

    /// The code the engine writes for this kind.
    pub open spec fn spec_raw(self) -> i32 {
        match self {
            ValueKind::Undefined => KIND_UNDEFINED,
            ValueKind::Null => KIND_NULL,
            ValueKind::Boolean => KIND_BOOLEAN,
            ValueKind::Number => KIND_NUMBER,
            ValueKind::Symbol => KIND_SYMBOL,
            ValueKind::BigInt => KIND_BIGINT,
            ValueKind::String => KIND_STRING,
            ValueKind::Object => KIND_OBJECT,
        }
    }

    /// The name of the kind as scripts know it from `typeof`.
    pub open spec fn spec_name(self) -> Seq<char> {
        match self {
            ValueKind::Undefined => "undefined"@,
            ValueKind::Null => "null"@,
            ValueKind::Boolean => "boolean"@,
            ValueKind::Number => "number"@,
            ValueKind::Symbol => "symbol"@,
            ValueKind::BigInt => "bigint"@,
            ValueKind::String => "string"@,
            ValueKind::Object => "object"@,
        }
    }

    /// Whether a value of this kind holds a handle that the engine counts
    /// references to, rather than a payload of its own.
    pub open spec fn spec_is_pointer(self) -> bool {
        self == ValueKind::Symbol || self == ValueKind::BigInt || self == ValueKind::String
            || self == ValueKind::Object
    }

    /// Reads a kind code.
    pub fn from_raw(kind: i32) -> (k: ValueKind)
        ensures
            k == Self::spec_from_raw(kind),
    {
        if kind == KIND_NULL {
            ValueKind::Null
        } else if kind == KIND_BOOLEAN {
            ValueKind::Boolean
        } else if kind == KIND_NUMBER {
            ValueKind::Number
        } else if kind == KIND_SYMBOL {
            ValueKind::Symbol
        } else if kind == KIND_BIGINT {
            ValueKind::BigInt
        } else if kind == KIND_STRING {
            ValueKind::String
        } else if kind == KIND_OBJECT {
            ValueKind::Object
        } else {
            ValueKind::Undefined
        }
    }

    /// Writes the kind code.
    #[verifier::when_used_as_spec(spec_raw)]
    pub fn raw(self) -> (code: i32)
        ensures
            code == self.spec_raw(),
    {
        match self {
            ValueKind::Undefined => KIND_UNDEFINED,
            ValueKind::Null => KIND_NULL,
            ValueKind::Boolean => KIND_BOOLEAN,
            ValueKind::Number => KIND_NUMBER,
            ValueKind::Symbol => KIND_SYMBOL,
            ValueKind::BigInt => KIND_BIGINT,
            ValueKind::String => KIND_STRING,
            ValueKind::Object => KIND_OBJECT,
        }
    }

    /// The name of the kind, as it appears in type errors.
    pub fn name(self) -> (s: &'static str)
        ensures
            s@ == self.spec_name(),
    {
        match self {
            ValueKind::Undefined => "undefined",
            ValueKind::Null => "null",
            ValueKind::Boolean => "boolean",
            ValueKind::Number => "number",
            ValueKind::Symbol => "symbol",
            ValueKind::BigInt => "bigint",
            ValueKind::String => "string",
            ValueKind::Object => "object",
        }
    }

    /// Whether the kind is one of the four whose payload is a counted handle.
    #[verifier::when_used_as_spec(spec_is_pointer)]
    pub fn is_pointer(self) -> (b: bool)
        ensures
            b == self.spec_is_pointer(),
    {
        match self {
            ValueKind::Symbol | ValueKind::BigInt | ValueKind::String | ValueKind::Object => true,
            _ => false,
        }
    }

    /// Reading the code that was written for a kind gives the kind back.
    pub proof fn lemma_raw_round_trip(k: ValueKind)
        ensures
            Self::spec_from_raw(k.spec_raw()) == k,
    {
    }

    /// A code in the engine's range is what its kind writes back; any other
    /// code is rewritten to the code of `undefined`.
    pub proof fn lemma_code_round_trip(code: i32)
        ensures
            KIND_UNDEFINED <= code <= KIND_OBJECT ==> Self::spec_from_raw(code).spec_raw()
                == code,
            !(KIND_UNDEFINED <= code <= KIND_OBJECT) ==> Self::spec_from_raw(code).spec_raw()
                == KIND_UNDEFINED,
    {
    }
}

/// The payload that a value of kind `kind` keeps of the 64 bits `payload`:
/// nothing for `undefined` and `null`, one bit for a boolean, all of them for
/// a number (its IEEE 754 bits) and for a handle.
pub open spec fn canonical_payload(kind: ValueKind, payload: u64) -> u64 {
    match kind {
        ValueKind::Undefined | ValueKind::Null => 0,
        ValueKind::Boolean => if payload != 0 {
            1
        } else {
            0
        },
        _ => payload,
    }
}

/// A tagged value as it travels across the engine boundary: a kind code and
/// 64 bits of payload. It is plain data and owns nothing.
#[derive(Clone, Copy, Debug, PartialEq, Eq, Structural)]
pub struct RawValue {
    pub kind: i32,
    pub payload: u64,
}

impl RawValue {
    /// The kind the value has.
    pub open spec fn spec_value_kind(self) -> ValueKind {
        ValueKind::spec_from_raw(self.kind)
    }

    /// The same value with its kind code in range and no stray payload bits.
    pub open spec fn canonical(self) -> RawValue {
        RawValue {
            kind: self.spec_value_kind().spec_raw(),
            payload: canonical_payload(self.spec_value_kind(), self.payload),
        }
    }

    /// Whether the value is its own canonical form.
    pub open spec fn is_canonical(self) -> bool {
        self.canonical() == self
    }

    /// Whether the payload is a handle that the engine counts references to.
    pub open spec fn spec_is_pointer(self) -> bool {
        self.spec_value_kind().spec_is_pointer()
    }

    /// The kind the value has.
    #[verifier::when_used_as_spec(spec_value_kind)]
    pub fn value_kind(self) -> (k: ValueKind)
        ensures
            k == self.spec_value_kind(),
    {
        ValueKind::from_raw(self.kind)
    }

    /// Whether the payload is a counted handle.
    #[verifier::when_used_as_spec(spec_is_pointer)]
    pub fn is_pointer(self) -> (b: bool)
        ensures
            b == self.spec_is_pointer(),
    {
        ValueKind::from_raw(self.kind).is_pointer()
    }

    /// Brings the value into canonical form.
    pub fn normalize(self) -> (r: RawValue)
        ensures
            r == self.canonical(),
            r.is_canonical(),
    {
        let kind = ValueKind::from_raw(self.kind);
        let payload: u64 = match kind {
            ValueKind::Undefined | ValueKind::Null => 0,
            ValueKind::Boolean => if self.payload != 0 {
                1
            } else {
                0
            },
            _ => self.payload,
        };
        RawValue { kind: kind.raw(), payload }
    }

    /// Canonical form is a fixed point: normalising twice changes nothing.
    pub proof fn lemma_canonical_idempotent(self)
        ensures
            self.canonical().is_canonical(),
            self.canonical().spec_value_kind() == self.spec_value_kind(),
    {
    }
}

/// `undefined` in raw form: what a host function receives for an argument
/// that the caller did not pass, and what it returns when it fails.
pub fn undefined_value() -> (r: RawValue)
    ensures
        r == (RawValue { kind: KIND_UNDEFINED, payload: 0 }),
        r.is_canonical(),
{
    RawValue { kind: KIND_UNDEFINED, payload: 0 }
}

/// A tagged value that the host owns.
///
/// A value of one of the four pointer kinds holds one unit of the engine's
/// reference count for its handle. The type cannot be copied: a second owner
/// comes only from [`Value::duplicate`] or from the engine, and the unit goes
/// back to the engine through [`Value::release`], or on with the value into a
/// typed handle or into raw form.
#[derive(Debug)]
pub struct Value<'rt> {
    pub(crate) kind: ValueKind,
    pub(crate) payload: u64,
    pub(crate) owner: PhantomData<&'rt Runtime>,
}

impl<'rt> View for Value<'rt> {
    type V = RawValue;

    closed spec fn view(&self) -> RawValue {
        RawValue {
            kind: self.kind.spec_raw(),
            payload: canonical_payload(self.kind, self.payload),
        }
    }
}

/// A refused down-conversion: why it was refused, and the value that was
/// offered, which is handed back as it came.
#[derive(Debug)]
pub struct Mismatch<'rt> {
    pub error: Error,
    pub value: Value<'rt>,
}

/// What a down-conversion to the type named `expected` answers for the value
/// `offered`, where `refined` says whether the value passed the finer test
/// that the type asks of an object (`true` for a type that asks none).
pub open spec fn downcast_model(
    offered: RawValue,
    wanted: ValueKind,
    expected: Seq<char>,
    refined: bool,
) -> Result<u64, ErrorModel> {
    if offered.spec_value_kind() != wanted {
        Err(
            ErrorModel::TypeError {
                expected,
                got: offered.spec_value_kind().spec_name(),
            },
        )
    } else if !refined {
        Err(ErrorModel::TypeError { expected, got: wanted.spec_name() })
    } else {
        Ok(offered.payload)
    }
}

impl<'rt> Value<'rt> {
    /// The value `undefined`.
    pub fn undefined() -> (v: Self)
        ensures
            v@ == (RawValue { kind: KIND_UNDEFINED, payload: 0 }),
    {
        Value { kind: ValueKind::Undefined, payload: 0, owner: PhantomData }
    }

    /// The value `null`.
    pub fn null() -> (v: Self)
        ensures
            v@ == (RawValue { kind: KIND_NULL, payload: 0 }),
    {
        Value { kind: ValueKind::Null, payload: 0, owner: PhantomData }
    }

    /// A boolean value.
    pub fn from_bool(v: bool) -> (r: Self)
        ensures
            r@ == (RawValue { kind: KIND_BOOLEAN, payload: if v { 1u64 } else { 0u64 } }),
    {
        Value {
            kind: ValueKind::Boolean,
            payload: if v {
                1
            } else {
                0
            },
            owner: PhantomData,
        }
    }

    /// A number value.
    pub fn from_number(v: Number) -> (r: Self)
        ensures
            r@ == (RawValue { kind: KIND_NUMBER, payload: v@ }),
    {
        Value { kind: ValueKind::Number, payload: v.bits(), owner: PhantomData }
    }

    /// The value of pointer kind `kind` that owns `handle`.
    pub closed spec fn of_handle(kind: ValueKind, handle: u64) -> Value<'rt> {
        Value { kind, payload: handle, owner: PhantomData }
    }

    /// The raw form of a value made from a handle: the code of its kind, and
    /// the handle as payload.
    pub broadcast proof fn lemma_of_handle(kind: ValueKind, handle: u64)
        requires
            kind.spec_is_pointer(),
        ensures
            (#[trigger] Self::of_handle(kind, handle))@ == (RawValue {
                kind: kind.spec_raw(),
                payload: handle,
            }),
    {
    }

    /// Wraps a handle whose unit of the reference count the caller owns.
    pub(crate) fn from_handle(kind: ValueKind, handle: u64) -> (v: Self)
        requires
            kind.spec_is_pointer(),
        ensures
            v == Self::of_handle(kind, handle),
            v@ == (RawValue { kind: kind.spec_raw(), payload: handle }),
    {
        Value { kind, payload: handle, owner: PhantomData }
    }

    /// Takes ownership of a raw value that the engine `rt` returned. If it is
    /// of a pointer kind, the unit of the reference count that came with it
    /// now belongs to the result.
    pub fn from_raw(rt: &'rt Runtime, raw: RawValue) -> (v: Self)
        ensures
            v@ == raw.canonical(),
    {
        let r = raw.normalize();
        Value { kind: ValueKind::from_raw(r.kind), payload: r.payload, owner: PhantomData }
    }

    /// The result of an operation that returned `raw`, once the error
    /// latches have been drained with the outcome `drained`: an error that
    /// was pending is the result, and the returned value is trusted only
    /// where there was none.
    pub fn settle(rt: &'rt Runtime, raw: RawValue, drained: Result<(), Error>) -> (r: Result<
        Self,
        Error,
    >)
        ensures
            match r {
                Ok(v) => drained is Ok && v@ == raw.canonical(),
                Err(e) => drained is Err && e == drained->Err_0,
            },
    {
        match drained {
            Err(e) => Err(e),
            Ok(()) => Ok(Value::from_raw(rt, raw)),
        }
    }

    /// Makes an owned value from a raw value that stays with its owner, as
    /// far as that takes no call into the engine: a value of an inline kind
    /// is copied. For a pointer kind the answer is `None`, and the caller
    /// asks the engine for a second unit and wraps what it returns with
    /// [`Value::from_raw`].
    pub fn from_raw_clone(rt: &'rt Runtime, raw: &RawValue) -> (r: Option<Self>)
        ensures
            r is Some <==> !raw.spec_is_pointer(),
            r is Some ==> r->0@ == raw.canonical(),
    {
        if raw.is_pointer() {
            None
        } else {
            Some(Value::from_raw(rt, *raw))
        }
    }

    /// The kind of the value.
    pub fn kind(&self) -> (k: ValueKind)
        ensures
            k == self@.spec_value_kind(),
            k.spec_raw() == self@.kind,
    {
        self.kind
    }

    pub fn is_undefined(&self) -> (b: bool)
        ensures
            b == (self@.kind == KIND_UNDEFINED),
    {
        matches!(self.kind, ValueKind::Undefined)
    }

    pub fn is_null(&self) -> (b: bool)
        ensures
            b == (self@.kind == KIND_NULL),
    {
        matches!(self.kind, ValueKind::Null)
    }

    pub fn is_boolean(&self) -> (b: bool)
        ensures
            b == (self@.kind == KIND_BOOLEAN),
    {
        matches!(self.kind, ValueKind::Boolean)
    }

    pub fn is_number(&self) -> (b: bool)
        ensures
            b == (self@.kind == KIND_NUMBER),
    {
        matches!(self.kind, ValueKind::Number)
    }

    pub fn is_symbol(&self) -> (b: bool)
        ensures
            b == (self@.kind == KIND_SYMBOL),
    {
        matches!(self.kind, ValueKind::Symbol)
    }

    pub fn is_bigint(&self) -> (b: bool)
        ensures
            b == (self@.kind == KIND_BIGINT),
    {
        matches!(self.kind, ValueKind::BigInt)
    }

    pub fn is_string(&self) -> (b: bool)
        ensures
            b == (self@.kind == KIND_STRING),
    {
        matches!(self.kind, ValueKind::String)
    }

    pub fn is_object(&self) -> (b: bool)
        ensures
            b == (self@.kind == KIND_OBJECT),
    {
        matches!(self.kind, ValueKind::Object)
    }

    /// The boolean that the value holds, if it is a boolean.
    pub fn as_bool(&self) -> (r: Option<bool>)
        ensures
            r == if self@.kind == KIND_BOOLEAN {
                Some(self@.payload == 1)
            } else {
                None::<bool>
            },
    {
        if self.is_boolean() {
            Some(self.payload != 0)
        } else {
            None
        }
    }

    /// The number that the value holds, if it is a number.
    pub fn as_number(&self) -> (r: Option<Number>)
        ensures
            r is Some <==> self@.kind == KIND_NUMBER,
            r is Some ==> r->0@ == self@.payload,
    {
        if self.is_number() {
            Some(Number::from_bits(self.payload))
        } else {
            None
        }
    }

    /// The handle that the value holds, if it is of a pointer kind. The
    /// value keeps its unit of the reference count.
    pub fn handle(&self) -> (r: Option<u64>)
        ensures
            r == if self@.spec_is_pointer() {
                Some(self@.payload)
            } else {
                None::<u64>
            },
    {
        if self.kind.is_pointer() {
            Some(self.payload)
        } else {
            None
        }
    }

    /// Turns a string value into a string handle. A value of another kind is
    /// refused with a type error and handed back unchanged.
    pub fn into_string(self) -> (r: Result<JsString<'rt>, Mismatch<'rt>>)
        ensures
            match r {
                Ok(s) => downcast_model(self@, ValueKind::String, "string"@, true) == Ok::<
                    u64,
                    ErrorModel,
                >(s@),
                Err(m) => downcast_model(self@, ValueKind::String, "string"@, true) == Err::<
                    u64,
                    ErrorModel,
                >(m.error@) && m.value@ == self@,
            },
    {
        if !self.is_string() {
            return Err(
                Mismatch {
                    error: Error::TypeError { expected: "string", got: self.kind().name() },
                    value: self,
                },
            );
        }
        Ok(JsString::from_handle(self.payload))
    }

    /// Turns an object value into an object handle. A value of another kind
    /// is refused with a type error and handed back unchanged.
    pub fn into_object(self) -> (r: Result<Object<'rt>, Mismatch<'rt>>)
        ensures
            match r {
                Ok(s) => downcast_model(self@, ValueKind::Object, "object"@, true) == Ok::<
                    u64,
                    ErrorModel,
                >(s@),
                Err(m) => downcast_model(self@, ValueKind::Object, "object"@, true) == Err::<
                    u64,
                    ErrorModel,
                >(m.error@) && m.value@ == self@,
            },
    {
        if !self.is_object() {
            return Err(
                Mismatch {
                    error: Error::TypeError { expected: "object", got: self.kind().name() },
                    value: self,
                },
            );
        }
        Ok(Object::from_handle(self.payload))
    }

    /// Turns a symbol value into a symbol handle. A value of another kind is
    /// refused with a type error and handed back unchanged.
    pub fn into_symbol(self) -> (r: Result<Symbol<'rt>, Mismatch<'rt>>)
        ensures
            match r {
                Ok(s) => downcast_model(self@, ValueKind::Symbol, "symbol"@, true) == Ok::<
                    u64,
                    ErrorModel,
                >(s@),
                Err(m) => downcast_model(self@, ValueKind::Symbol, "symbol"@, true) == Err::<
                    u64,
                    ErrorModel,
                >(m.error@) && m.value@ == self@,
            },
    {
        if !self.is_symbol() {
            return Err(
                Mismatch {
                    error: Error::TypeError { expected: "symbol", got: self.kind().name() },
                    value: self,
                },
            );
        }
        Ok(Symbol::from_handle(self.payload))
    }

    /// Turns a big-integer value into a big-integer handle. A value of
    /// another kind is refused with a type error and handed back unchanged.
    pub fn into_bigint(self) -> (r: Result<BigInt<'rt>, Mismatch<'rt>>)
        ensures
            match r {
                Ok(s) => downcast_model(self@, ValueKind::BigInt, "bigint"@, true) == Ok::<
                    u64,
                    ErrorModel,
                >(s@),
                Err(m) => downcast_model(self@, ValueKind::BigInt, "bigint"@, true) == Err::<
                    u64,
                    ErrorModel,
                >(m.error@) && m.value@ == self@,
            },
    {
        if !self.is_bigint() {
            return Err(
                Mismatch {
                    error: Error::TypeError { expected: "bigint", got: self.kind().name() },
                    value: self,
                },
            );
        }
        Ok(BigInt::from_handle(self.payload))
    }

    /// Turns an object value into a function handle, where `callable` is the
    /// engine's answer to whether the object can be called. The answer is
    /// read only for an object. A value that is no object, or an object that
    /// cannot be called, is refused with a type error and handed back
    /// unchanged.
    pub fn into_function(self, callable: bool) -> (r: Result<Function<'rt>, Mismatch<'rt>>)
        ensures
            match r {
                Ok(s) => downcast_model(self@, ValueKind::Object, "function"@, callable) == Ok::<
                    u64,
                    ErrorModel,
                >(s@),
                Err(m) => downcast_model(self@, ValueKind::Object, "function"@, callable) == Err::<
                    u64,
                    ErrorModel,
                >(m.error@) && m.value@ == self@,
            },
    {
        if !self.is_object() {
            return Err(
                Mismatch {
                    error: Error::TypeError { expected: "function", got: self.kind().name() },
                    value: self,
                },
            );
        }
        if !callable {
            return Err(
                Mismatch {
                    error: Error::TypeError { expected: "function", got: "object" },
                    value: self,
                },
            );
        }
        Ok(Function::from_handle(self.payload))
    }

    /// Turns an object value into an array handle, where `is_array` is the
    /// engine's answer to whether the object is an array. The answer is read
    /// only for an object. A value that is no object, or an object that is no
    /// array, is refused with a type error and handed back unchanged.
    pub fn into_array(self, is_array: bool) -> (r: Result<Array<'rt>, Mismatch<'rt>>)
        ensures
            match r {
                Ok(s) => downcast_model(self@, ValueKind::Object, "array"@, is_array) == Ok::<
                    u64,
                    ErrorModel,
                >(s@),
                Err(m) => downcast_model(self@, ValueKind::Object, "array"@, is_array) == Err::<
                    u64,
                    ErrorModel,
                >(m.error@) && m.value@ == self@,
            },
    {
        if !self.is_object() {
            return Err(
                Mismatch {
                    error: Error::TypeError { expected: "array", got: self.kind().name() },
                    value: self,
                },
            );
        }
        if !is_array {
            return Err(
                Mismatch {
                    error: Error::TypeError { expected: "array", got: "object" },
                    value: self,
                },
            );
        }
        Ok(Array::from_handle(self.payload))
    }

    /// Turns an object value into a byte-buffer handle, where
    /// `is_array_buffer` is the engine's answer to whether the object is a
    /// byte buffer. The answer is read only for an object. A value that is no
    /// object, or an object that is no byte buffer, is refused with a type
    /// error and handed back unchanged.
    pub fn into_array_buffer(self, is_array_buffer: bool) -> (r: Result<
        ArrayBuffer<'rt>,
        Mismatch<'rt>,
    >)
        ensures
            match r {
                Ok(s) => downcast_model(self@, ValueKind::Object, "arraybuffer"@, is_array_buffer)
                    == Ok::<u64, ErrorModel>(s@),
                Err(m) => downcast_model(self@, ValueKind::Object, "arraybuffer"@, is_array_buffer)
                    == Err::<u64, ErrorModel>(m.error@) && m.value@ == self@,
            },
    {
        if !self.is_object() {
            return Err(
                Mismatch {
                    error: Error::TypeError { expected: "arraybuffer", got: self.kind().name() },
                    value: self,
                },
            );
        }
        if !is_array_buffer {
            return Err(
                Mismatch {
                    error: Error::TypeError { expected: "arraybuffer", got: "object" },
                    value: self,
                },
            );
        }
        Ok(ArrayBuffer::from_handle(self.payload))
    }

    /// A second, independently owned value equal to this one, as far as that
    /// takes no call into the engine: a value of an inline kind is copied.
    /// For a pointer kind the answer is `None`: a copy of the bits would be a
    /// second owner of one unit, so the caller asks the engine for a second
    /// unit and wraps what it returns with [`Value::from_raw`].
    pub fn duplicate(&self) -> (r: Option<Value<'rt>>)
        ensures
            r is Some <==> !self@.spec_is_pointer(),
            r is Some ==> r->0@ == self@,
    {
        if self.kind.is_pointer() {
            None
        } else {
            Some(Value { kind: self.kind, payload: self.payload, owner: PhantomData })
        }
    }

    /// The second owner of a value of a pointer kind, made of what the
    /// engine returned when it was asked to clone this value: `cloned` is
    /// taken over with the unit that came with it, if this value is of a
    /// pointer kind and the clone is of the same kind. This value is left as
    /// it is, and of its bits nothing goes into the result.
    ///
    /// For a value of an inline kind, and for a clone of another kind than
    /// the value, the answer is `None` and nothing is taken over.
    pub fn retained(&self, rt: &'rt Runtime, cloned: RawValue) -> (r: Option<Value<'rt>>)
        ensures
            r is Some <==> self@.spec_is_pointer() && cloned.spec_value_kind()
                == self@.spec_value_kind(),
            r is Some ==> r->0@ == cloned.canonical(),
    {
        if self.kind.is_pointer() && cloned.value_kind().raw() == self.kind.raw() {
            Some(Value::from_raw(rt, cloned))
        } else {
            None
        }
    }

    /// Gives the value up in raw form. The unit of the reference count that a
    /// pointer kind holds goes with the raw value to the caller.
    pub fn into_raw(self) -> (raw: RawValue)
        ensures
            raw == self@,
            raw.is_canonical(),
    {
        let payload: u64 = match self.kind {
            ValueKind::Undefined | ValueKind::Null => 0,
            ValueKind::Boolean => if self.payload != 0 {
                1
            } else {
                0
            },
            _ => self.payload,
        };
        RawValue { kind: self.kind.raw(), payload }
    }

    /// The raw form of the value, for a call that borrows it. The value
    /// keeps what it owns.
    pub fn as_raw(&self) -> (raw: RawValue)
        ensures
            raw == self@,
            raw.is_canonical(),
    {
        let payload: u64 = match self.kind {
            ValueKind::Undefined | ValueKind::Null => 0,
            ValueKind::Boolean => if self.payload != 0 {
                1
            } else {
                0
            },
            _ => self.payload,
        };
        RawValue { kind: self.kind.raw(), payload }
    }

    /// Ends the value's life. The answer is what the caller owes the engine:
    /// for a pointer kind the raw value whose unit must be released, exactly
    /// once; for an inline kind nothing.
    pub fn release(self) -> (owed: Option<RawValue>)
        ensures
            owed == if self@.spec_is_pointer() {
                Some(self@)
            } else {
                None::<RawValue>
            },
    {
        if self.kind.is_pointer() {
            Some(self.into_raw())
        } else {
            None
        }
    }

    /// Strict equality, as far as it is decided without the engine: values
    /// of different kinds are unequal, and values of one inline kind are
    /// equal when their payloads are (numbers as IEEE 754 compares them). For
    /// two values of one pointer kind the answer is `None`: the engine
    /// decides.
    pub fn strict_equals(&self, other: &Value<'rt>) -> (r: Option<bool>)
        ensures
            r == strict_equals_model(self@, other@),
    {
        if self.kind.raw() != other.kind.raw() {
            return Some(false);
        }
        match self.kind {
            ValueKind::Undefined | ValueKind::Null => Some(true),
            ValueKind::Boolean => Some((self.payload != 0) == (other.payload != 0)),
            ValueKind::Number => Some(
                Number::from_bits(self.payload).same(&Number::from_bits(other.payload)),
            ),
            _ => None,
        }
    }

    /// A handle that is turned into a value and then converted down again
    /// is accepted, and is the same handle.
    pub proof fn lemma_up_then_down(kind: ValueKind, handle: u64, expected: Seq<char>)
        requires
            kind.spec_is_pointer(),
        ensures
            downcast_model(Self::of_handle(kind, handle)@, kind, expected, true) == Ok::<
                u64,
                ErrorModel,
            >(handle),
    {
    }

    /// A value that a down-conversion accepts is the value that the
    /// resulting handle turns into: the conversion changes the type and
    /// nothing else.
    pub proof fn lemma_down_then_up(
        offered: RawValue,
        wanted: ValueKind,
        expected: Seq<char>,
        refined: bool,
    )
        requires
            offered.is_canonical(),
            wanted.spec_is_pointer(),
            downcast_model(offered, wanted, expected, refined) is Ok,
        ensures
            Self::of_handle(wanted, downcast_model(offered, wanted, expected, refined)->Ok_0)@
                == offered,
    {
    }

    /// A down-conversion that is refused names the kind that was asked for
    /// and the kind that was found.
    pub proof fn lemma_refusal_names_both(
        offered: RawValue,
        wanted: ValueKind,
        expected: Seq<char>,
        refined: bool,
    )
        requires
            downcast_model(offered, wanted, expected, refined) is Err,
        ensures
            downcast_model(offered, wanted, expected, refined)->Err_0 == (ErrorModel::TypeError {
                expected,
                got: offered.spec_value_kind().spec_name(),
            }),
    {
    }

    /// A value of an inline kind is strictly equal to a copy of itself,
    /// unless it is a NaN, which equals nothing. Whether a value of a pointer
    /// kind equals its duplicate is for the engine to say.
    pub proof fn lemma_copy_is_equal(a: RawValue)
        requires
            a.is_canonical(),
        ensures
            strict_equals_model(a, a) == if a.spec_is_pointer() {
                None::<bool>
            } else {
                Some(!(a.kind == KIND_NUMBER && bits_are_nan(a.payload)))
            },
    {
    }

    /// Every value is in canonical form.
    pub proof fn lemma_canonical(&self)
        ensures
            self@.is_canonical(),
    {
    }
}

/// What strict equality of two canonical raw values is, where the engine
/// need not be asked.
pub open spec fn strict_equals_model(a: RawValue, b: RawValue) -> Option<bool> {
    if a.kind != b.kind {
        Some(false)
    } else if a.spec_is_pointer() {
        None
    } else if a.kind == KIND_NUMBER {
        Some(bits_equal(a.payload, b.payload))
    } else {
        Some(a.payload == b.payload)
    }
}

} // verus!

//! The engine-independent core of a JavaScript engine binding.
//!
//! Every decision the binding takes lives here and is verified: how a value
//! that crosses the engine boundary is tagged and owned, when a typed handle
//! may be made from it, how the engine's two error latches are drained, and
//! how native data and engine data are converted into each other. The calls
//! into the engine itself are made by the embedding shell, which hands the
//! engine's answers to this crate as plain values.
//!
//! - [`value`] holds the tagged value and its kinds, [`number`] the doubles
//!   that numbers are, and the modules named after the typed handles
//!   ([`string`], [`object`], [`array`], [`function`], [`symbol`], [`bigint`],
//!   [`array_buffer`], [`weak_object`], [`propnameid`], [`scope`],
//!   [`prepared_js`]) the handles themselves.
//! - [`error`] holds the errors, and [`drain`] the procedure that empties
//!   the engine's error latches after an operation.
//! - [`datum`] holds engine data in materialised form, [`convert`] and
//!   [`collections`] the conversions of native types, and [`schema`] the
//!   layouts of structs and enums.
//! - [`function`] also holds the trampoline through which the engine calls
//!   native code.
//! - [`runtime`] holds the engine handle and its options, and [`text`] what
//!   is needed to read the engine's strings.

pub mod array;
pub mod array_buffer;
pub mod bigint;
pub mod collections;
pub mod convert;
pub mod datum;
pub mod drain;
pub mod error;
pub mod function;
pub mod number;
pub mod object;
pub mod prepared_js;
pub mod propnameid;
pub mod runtime;
pub mod schema;
pub mod scope;
pub mod string;
pub mod symbol;
pub mod text;
pub mod value;
pub mod weak_object;

pub use array::Array;
pub use array_buffer::ArrayBuffer;
pub use bigint::BigInt;
pub use collections::{Distinct, Record};
pub use convert::{FromJs, IntoJs};
pub use datum::{Datum, Parts, Reading};
pub use drain::{Drain, Reply, Request};
pub use error::{check_error, Error};
pub use function::{FromJsArg, Function, IntoJsRet};
pub use number::Number;
pub use object::Object;
pub use prepared_js::PreparedJavaScript;
pub use propnameid::PropNameId;
pub use runtime::{Runtime, RuntimeConfig, RuntimeConfigBuilder};
pub use scope::Scope;
pub use string::JsString;
pub use symbol::Symbol;
pub use value::{undefined_value, Mismatch, RawValue, Value, ValueKind};
pub use weak_object::WeakObject;

//! Draining the engine's two error latches.
//!
//! The engine keeps a pending error in two places: a latch for a message of
//! its own, and a latch for the value that a script threw. After an
//! operation that may have failed, both must be emptied, or the next
//! operation sees what this one left behind. [`Drain`] is the procedure as a
//! state machine: it says which request to make of the engine next, takes the
//! engine's reply, and ends with the operation's outcome. The embedder makes
//! the requests; every decision is taken here.

use vstd::prelude::*;
use crate::error::{check_error, check_error_model, option_text, Error, ErrorModel};
use crate::value::{RawValue, ValueKind, KIND_UNDEFINED};

verus! {

/// What the embedder is to ask of the engine.
#[derive(Clone, Copy, Debug, PartialEq, Eq, Structural)]
pub enum Request {
    /// Take the native message out of its latch, which empties the latch.
    TakeMessage,
    /// Take the thrown value out of its latch, which empties the latch.
    TakeThrown,
    /// Read the text of this string value.
    ReadText(RawValue),
    /// Read the property `message` of this object value.
    ReadMessage(RawValue),
    /// Hand this value's unit of the reference count back.
    Release(RawValue),
    /// Nothing: the drain has ended.
    Finished,
}

/// What the engine answered.
#[derive(Debug)]
pub enum Reply {
    /// The native message, if the latch held one.
    Message(Option<String>),
    /// The thrown value; `undefined` if the latch held none.
    Thrown(RawValue),
    /// The text of a string, decoded leniently.
    Text(String),
    /// The value of a property.
    Property(RawValue),
    /// A unit was released.
    Released,
}

/// The mathematical content of a [`Reply`].
pub enum ReplyModel {
    Message(Option<Seq<char>>),
    Thrown(RawValue),
    Text(Seq<char>),
    Property(RawValue),
    Released,
}

impl View for Reply {
    type V = ReplyModel;

    open spec fn view(&self) -> ReplyModel {
        match self {
            Reply::Message(m) => ReplyModel::Message(option_text(*m)),
            Reply::Thrown(v) => ReplyModel::Thrown(*v),
            Reply::Text(t) => ReplyModel::Text(t@),
            Reply::Property(v) => ReplyModel::Property(*v),
            Reply::Released => ReplyModel::Released,
        }
    }
}

/// Where a drain stands: the reply it waits for.
#[derive(Clone, Copy, Debug, PartialEq, Eq, Structural)]
pub enum Stage {
    /// Waiting for the native message.
    Message,
    /// Waiting for the thrown value.
    Thrown,
    /// Waiting for the text of the thrown string.
    ThrownText,
    /// Waiting for the `message` property of the thrown object.
    Property,
    /// Waiting for the text of that property.
    PropertyText,
    /// Waiting for the release of that property.
    ReleaseProperty,
    /// Waiting for the release of the thrown value.
    ReleaseThrown,
    /// Ended.
    Done,
}

/// `undefined` in raw form.
pub open spec fn raw_undefined() -> RawValue {
    RawValue { kind: KIND_UNDEFINED, payload: 0 }
}

/// The requests that a drain of a pending error makes from beginning to end,
/// given the value that was thrown and, where that is an object, its
/// `message` property.
pub open spec fn drain_script(thrown: RawValue, property: RawValue) -> Seq<Request> {
    seq![Request::TakeMessage, Request::TakeThrown] + extraction_script(thrown, property)
}

/// The part of [`drain_script`] that follows the two latches: reading the
/// message out of the thrown value, and releasing what was taken.
pub open spec fn extraction_script(thrown: RawValue, property: RawValue) -> Seq<Request> {
    match thrown.spec_value_kind() {
        ValueKind::String => seq![Request::ReadText(thrown), Request::Release(thrown)],
        ValueKind::Object => seq![Request::ReadMessage(thrown)] + property_script(property)
            + seq![Request::Release(thrown)],
        ValueKind::Symbol | ValueKind::BigInt => seq![Request::Release(thrown)],
        _ => Seq::<Request>::empty(),
    }
}

/// The part of [`extraction_script`] that deals with the `message` property
/// of a thrown object.
pub open spec fn property_script(property: RawValue) -> Seq<Request> {
    match property.spec_value_kind() {
        ValueKind::String => seq![Request::ReadText(property), Request::Release(property)],
        ValueKind::Object | ValueKind::Symbol | ValueKind::BigInt => seq![
            Request::Release(property),
        ],
        _ => Seq::<Request>::empty(),
    }
}

/// The values that a sequence of requests releases, in order.
pub open spec fn released(requests: Seq<Request>) -> Seq<RawValue>
    decreases requests.len(),
{
    if requests.len() == 0 {
        Seq::<RawValue>::empty()
    } else {
        match requests.last() {
            Request::Release(v) => released(requests.drop_last()).push(v),
            _ => released(requests.drop_last()),
        }
    }
}

/// The values that a drain took from the engine and must hand back: the
/// property, then the thrown value, each if it is of a pointer kind. A value
/// of an inline kind holds no unit and is never handed back.
pub open spec fn owed(thrown: RawValue, property: RawValue) -> Seq<RawValue> {
    let for_property = if thrown.spec_value_kind() == ValueKind::Object
        && property.spec_is_pointer() {
        seq![property]
    } else {
        Seq::<RawValue>::empty()
    };
    let for_thrown = if thrown.spec_is_pointer() {
        seq![thrown]
    } else {
        Seq::<RawValue>::empty()
    };
    for_property + for_thrown
}

/// The state of a drain.
pub struct DrainModel {
    /// The reply that is awaited.
    pub stage: Stage,
    /// Whether an error was pending when the drain began.
    pub pending: bool,
    /// The native message, once taken.
    pub native: Option<Seq<char>>,
    /// The thrown value, once taken; `undefined` before.
    pub thrown: RawValue,
    /// The `message` property of the thrown object, once read; `undefined`
    /// before, and where the thrown value is no object.
    pub property: RawValue,
    /// The text read out of the thrown value, once read: that of a thrown
    /// string, or that of the `message` property of a thrown object if the
    /// property is a string. Where there is no such text, none.
    pub text: Option<Seq<char>>,
    /// The requests that were answered so far, in order.
    pub history: Seq<Request>,
}

impl DrainModel {
    /// The state in which a drain begins.
    pub open spec fn begin(pending: bool) -> DrainModel {
        DrainModel {
            stage: if pending {
                Stage::Message
            } else {
                Stage::Done
            },
            pending,
            native: None,
            thrown: raw_undefined(),
            property: raw_undefined(),
            text: None,
            history: Seq::<Request>::empty(),
        }
    }

    /// The request that is outstanding.
    pub open spec fn request(self) -> Request {
        match self.stage {
            Stage::Message => Request::TakeMessage,
            Stage::Thrown => Request::TakeThrown,
            Stage::ThrownText => Request::ReadText(self.thrown),
            Stage::Property => Request::ReadMessage(self.thrown),
            Stage::PropertyText => Request::ReadText(self.property),
            Stage::ReleaseProperty => Request::Release(self.property),
            Stage::ReleaseThrown => Request::Release(self.thrown),
            Stage::Done => Request::Finished,
        }
    }

    /// Whether `reply` answers the outstanding request.
    pub open spec fn accepts(self, reply: ReplyModel) -> bool {
        match (self.stage, reply) {
            (Stage::Message, ReplyModel::Message(_)) => true,
            (Stage::Thrown, ReplyModel::Thrown(_)) => true,
            (Stage::ThrownText, ReplyModel::Text(_)) => true,
            (Stage::Property, ReplyModel::Property(_)) => true,
            (Stage::PropertyText, ReplyModel::Text(_)) => true,
            (Stage::ReleaseProperty, ReplyModel::Released) => true,
            (Stage::ReleaseThrown, ReplyModel::Released) => true,
            _ => false,
        }
    }

    /// The stage that follows the taking of the thrown value.
    pub open spec fn stage_after_thrown(thrown: RawValue) -> Stage {
        match thrown.spec_value_kind() {
            ValueKind::String => Stage::ThrownText,
            ValueKind::Object => Stage::Property,
            ValueKind::Symbol | ValueKind::BigInt => Stage::ReleaseThrown,
            _ => Stage::Done,
        }
    }

    /// The stage that follows the reading of the `message` property.
    pub open spec fn stage_after_property(property: RawValue) -> Stage {
        match property.spec_value_kind() {
            ValueKind::String => Stage::PropertyText,
            ValueKind::Object | ValueKind::Symbol | ValueKind::BigInt => Stage::ReleaseProperty,
            _ => Stage::ReleaseThrown,
        }
    }

    /// The state after `reply`. A reply that does not answer the outstanding
    /// request changes nothing.
    pub open spec fn after(self, reply: ReplyModel) -> DrainModel {
        let history = self.history.push(self.request());
        match (self.stage, reply) {
            (Stage::Message, ReplyModel::Message(m)) => DrainModel {
                stage: Stage::Thrown,
                native: m,
                history,
                ..self
            },
            (Stage::Thrown, ReplyModel::Thrown(v)) => DrainModel {
                stage: Self::stage_after_thrown(v.canonical()),
                thrown: v.canonical(),
                history,
                ..self
            },
            (Stage::ThrownText, ReplyModel::Text(t)) => DrainModel {
                stage: Stage::ReleaseThrown,
                text: Some(t),
                history,
                ..self
            },
            (Stage::Property, ReplyModel::Property(v)) => DrainModel {
                stage: Self::stage_after_property(v.canonical()),
                property: v.canonical(),
                history,
                ..self
            },
            (Stage::PropertyText, ReplyModel::Text(t)) => DrainModel {
                stage: Stage::ReleaseProperty,
                text: Some(t),
                history,
                ..self
            },
            (Stage::ReleaseProperty, ReplyModel::Released) => DrainModel {
                stage: Stage::ReleaseThrown,
                history,
                ..self
            },
            (Stage::ReleaseThrown, ReplyModel::Released) => DrainModel {
                stage: Stage::Done,
                history,
                ..self
            },
            _ => self,
        }
    }

    /// The outcome of the operation, once the drain has ended.
    pub open spec fn outcome(self) -> Option<Result<(), ErrorModel>> {
        if self.stage == Stage::Done {
            Some(check_error_model(self.pending, self.native, self.text))
        } else {
            None
        }
    }

    /// How many requests a drain at this stage can still make, at most.
    pub open spec fn remaining(self) -> nat {
        match self.stage {
            Stage::Message => 7,
            Stage::Thrown => 6,
            Stage::Property => 5,
            Stage::PropertyText => 3,
            Stage::ThrownText => 2,
            Stage::ReleaseProperty => 2,
            Stage::ReleaseThrown => 1,
            Stage::Done => 0,
        }
    }

    /// How many requests of [`drain_script`] have been answered when a drain
    /// stands at this stage.
    pub open spec fn answered(self) -> int {
        let whole = drain_script(self.thrown, self.property).len() as int;
        match self.stage {
            Stage::Message => 0,
            Stage::Thrown => 1,
            Stage::ThrownText => 2,
            Stage::Property => 2,
            Stage::PropertyText => 3,
            Stage::ReleaseProperty => whole - 2,
            Stage::ReleaseThrown => whole - 1,
            Stage::Done => whole,
        }
    }

    /// Whether the thrown value holds a text that can serve as the message:
    /// it is a string, or an object whose `message` property is a string.
    pub open spec fn has_text(self) -> bool {
        self.thrown.spec_value_kind() == ValueKind::String || (self.thrown.spec_value_kind()
            == ValueKind::Object && self.property.spec_value_kind() == ValueKind::String)
    }

    /// Whether the drain is past the reading of texts.
    pub open spec fn past_reading(self) -> bool {
        self.stage == Stage::ReleaseProperty || self.stage == Stage::ReleaseThrown || self.stage
            == Stage::Done
    }

    /// The states that a drain can be in.
    pub open spec fn wf(self) -> bool {
        &&& self.text is Some <==> self.pending && self.past_reading() && self.has_text()
        &&& self.thrown.is_canonical()
        &&& self.property.is_canonical()
        &&& self.thrown.spec_value_kind() != ValueKind::Object ==> self.property
            == raw_undefined()
        &&& if self.pending {
            &&& self.history =~= drain_script(self.thrown, self.property).take(self.answered())
            &&& match self.stage {
                Stage::Message | Stage::Thrown => self.thrown == raw_undefined(),
                Stage::ThrownText => self.thrown.spec_value_kind() == ValueKind::String,
                Stage::Property => self.thrown.spec_value_kind() == ValueKind::Object
                    && self.property == raw_undefined(),
                Stage::PropertyText => self.thrown.spec_value_kind() == ValueKind::Object
                    && self.property.spec_value_kind() == ValueKind::String,
                Stage::ReleaseProperty => self.thrown.spec_value_kind() == ValueKind::Object
                    && self.property.spec_is_pointer(),
                Stage::ReleaseThrown => self.thrown.spec_is_pointer(),
                Stage::Done => true,
            }
        } else {
            self == Self::begin(false)
        }
    }

    /// A drain begins in a state it can be in.
    pub proof fn lemma_begin_wf(pending: bool)
        ensures
            Self::begin(pending).wf(),
    {
    }

    /// A reply leads from a state that a drain can be in to another such
    /// state.
    pub proof fn lemma_after_wf(self, reply: ReplyModel)
        requires
            self.wf(),
        ensures
            self.after(reply).wf(),
    {
        if self.accepts(reply) {
            let next = self.after(reply);
            match reply {
                ReplyModel::Thrown(v) => {
                    v.lemma_canonical_idempotent();
                },
                ReplyModel::Property(v) => {
                    v.lemma_canonical_idempotent();
                },
                _ => {},
            }
            assert(next.history =~= drain_script(next.thrown, next.property).take(
                next.answered(),
            ));
        }
    }

    /// A drain that has ended after a pending error has made exactly the
    /// requests of [`drain_script`]: both latches were emptied, whatever they
    /// held.
    pub proof fn lemma_done_followed_script(self)
        requires
            self.wf(),
            self.pending,
            self.stage == Stage::Done,
        ensures
            self.history == drain_script(self.thrown, self.property),
            self.history.len() >= 2,
            self.history[0] == Request::TakeMessage,
            self.history[1] == Request::TakeThrown,
    {
    }

    /// The message of a drained error is the native message if the engine
    /// had one; else the text of the thrown string, or of the `message`
    /// property of the thrown object, as it was read, empty or not; and the
    /// fallback only where the thrown value holds no such text.
    pub proof fn lemma_done_message(self)
        requires
            self.wf(),
            self.pending,
            self.stage == Stage::Done,
        ensures
            self.outcome() == Some(
                Err::<(), ErrorModel>(
                    ErrorModel::JsException(
                        match self.native {
                            Some(m) => m,
                            None => if self.has_text() {
                                self.text->0
                            } else {
                                "unknown error"@
                            },
                        },
                    ),
                ),
            ),
            self.has_text() <==> self.text is Some,
    {
    }

    /// A drain that found no error pending made no request at all.
    pub proof fn lemma_clean_is_silent(self)
        requires
            self.wf(),
            !self.pending,
        ensures
            self.stage == Stage::Done,
            self.history == Seq::<Request>::empty(),
            self.outcome() == Some(Ok::<(), ErrorModel>(())),
    {
    }

    /// Each accepted reply brings the end nearer, and any other reply is
    /// ignored: a drain ends after seven replies at most.
    pub proof fn lemma_progress(self, reply: ReplyModel)
        requires
            self.wf(),
        ensures
            self.accepts(reply) ==> self.after(reply).remaining() < self.remaining(),
            !self.accepts(reply) ==> self.after(reply) == self,
            self.stage != Stage::Done ==> exists|r: ReplyModel| self.accepts(r),
            self.stage == Stage::Done <==> self.remaining() == 0,
    {
        if self.stage != Stage::Done {
            let r = match self.stage {
                Stage::Message => ReplyModel::Message(None),
                Stage::Thrown => ReplyModel::Thrown(raw_undefined()),
                Stage::ThrownText => ReplyModel::Text(Seq::<char>::empty()),
                Stage::Property => ReplyModel::Property(raw_undefined()),
                Stage::PropertyText => ReplyModel::Text(Seq::<char>::empty()),
                _ => ReplyModel::Released,
            };
            assert(self.accepts(r));
        }
    }
}

/// Every value of a pointer kind that a drain takes from the engine is
/// handed back exactly once, the property before the thrown value; a value of
/// an inline kind is never handed back.
pub proof fn lemma_script_releases_once(thrown: RawValue, property: RawValue)
    ensures
        released(drain_script(thrown, property)) == owed(thrown, property),
{
    reveal_with_fuel(released, 8);
    let s = drain_script(thrown, property);
    assert(released(s) =~= owed(thrown, property));
}

/// A drain in progress.
///
/// The embedder begins one with the engine's answer to whether an error is
/// pending, and then, until [`Drain::request`] is [`Request::Finished`],
/// makes the request and hands the engine's answer to [`Drain::supply`].
/// [`Drain::finish`] then gives the outcome of the operation.
pub struct Drain {
    stage: Stage,
    pending: bool,
    native: Option<String>,
    thrown: RawValue,
    property: RawValue,
    text: Option<String>,
    history: Ghost<Seq<Request>>,
}

impl View for Drain {
    type V = DrainModel;

    closed spec fn view(&self) -> DrainModel {
        DrainModel {
            stage: self.stage,
            pending: self.pending,
            native: option_text(self.native),
            thrown: self.thrown,
            property: self.property,
            text: option_text(self.text),
            history: self.history@,
        }
    }
}

impl Drain {
    #[verifier::type_invariant]
    spec fn inv(&self) -> bool {
        self@.wf()
    }

    /// Begins a drain. `pending` is the engine's answer to whether an error
    /// is pending.
    pub fn begin(pending: bool) -> (d: Drain)
        ensures
            d@ == DrainModel::begin(pending),
            d@.wf(),
    {
        Drain {
            stage: if pending {
                Stage::Message
            } else {
                Stage::Done
            },
            pending,
            native: None,
            thrown: RawValue { kind: KIND_UNDEFINED, payload: 0 },
            property: RawValue { kind: KIND_UNDEFINED, payload: 0 },
            text: None,
            history: Ghost(Seq::empty()),
        }
    }

    /// The request that the embedder is to make next.
    pub fn request(&self) -> (r: Request)
        ensures
            r == self@.request(),
            self@.wf(),
    {
        proof {
            use_type_invariant(self);
        }
        match self.stage {
            Stage::Message => Request::TakeMessage,
            Stage::Thrown => Request::TakeThrown,
            Stage::ThrownText => Request::ReadText(self.thrown),
            Stage::Property => Request::ReadMessage(self.thrown),
            Stage::PropertyText => Request::ReadText(self.property),
            Stage::ReleaseProperty => Request::Release(self.property),
            Stage::ReleaseThrown => Request::Release(self.thrown),
            Stage::Done => Request::Finished,
        }
    }

    /// Whether the drain has ended.
    pub fn is_finished(&self) -> (b: bool)
        ensures
            b == (self@.stage == Stage::Done),
            b == (self@.request() == Request::Finished),
    {
        matches!(self.stage, Stage::Done)
    }

    /// Takes the engine's answer to the outstanding request. An answer to
    /// another request is ignored.
    pub fn supply(self, reply: Reply) -> (d: Drain)
        ensures
            d@ == self@.after(reply@),
            d@.wf(),
    {
        proof {
            use_type_invariant(&self);
            self@.lemma_after_wf(reply@);
        }
        let ghost history = self.history@.push(self@.request());
        let Drain { stage, pending, native, thrown, property, text, history: _ } = self;
        match (stage, reply) {
            (Stage::Message, Reply::Message(m)) => Drain {
                stage: Stage::Thrown,
                pending,
                native: m,
                thrown,
                property,
                text,
                history: Ghost(history),
            },
            (Stage::Thrown, Reply::Thrown(v)) => {
                let v = v.normalize();
                let next = match v.value_kind() {
                    ValueKind::String => Stage::ThrownText,
                    ValueKind::Object => Stage::Property,
                    ValueKind::Symbol | ValueKind::BigInt => Stage::ReleaseThrown,
                    _ => Stage::Done,
                };
                Drain {
                    stage: next,
                    pending,
                    native,
                    thrown: v,
                    property,
                    text,
                    history: Ghost(history),
                }
            },
            (Stage::ThrownText, Reply::Text(t)) => Drain {
                stage: Stage::ReleaseThrown,
                pending,
                native,
                thrown,
                property,
                text: Some(t),
                history: Ghost(history),
            },
            (Stage::Property, Reply::Property(v)) => {
                let v = v.normalize();
                let next = match v.value_kind() {
                    ValueKind::String => Stage::PropertyText,
                    ValueKind::Object | ValueKind::Symbol | ValueKind::BigInt => {
                        Stage::ReleaseProperty
                    },
                    _ => Stage::ReleaseThrown,
                };
                Drain {
                    stage: next,
                    pending,
                    native,
                    thrown,
                    property: v,
                    text,
                    history: Ghost(history),
                }
            },
            (Stage::PropertyText, Reply::Text(t)) => Drain {
                stage: Stage::ReleaseProperty,
                pending,
                native,
                thrown,
                property,
                text: Some(t),
                history: Ghost(history),
            },
            (Stage::ReleaseProperty, Reply::Released) => Drain {
                stage: Stage::ReleaseThrown,
                pending,
                native,
                thrown,
                property,
                text,
                history: Ghost(history),
            },
            (Stage::ReleaseThrown, Reply::Released) => Drain {
                stage: Stage::Done,
                pending,
                native,
                thrown,
                property,
                text,
                history: Ghost(history),
            },
            (stage, _) => Drain {
                stage,
                pending,
                native,
                thrown,
                property,
                text,
                history: Ghost(self.history@),
            },
        }
    }

    /// The outcome of the operation: `None` while the drain has not ended;
    /// after that, success if no error was pending, else the exception, with
    /// the message that [`exception_message`](crate::error::exception_message)
    /// chooses.
    ///
    /// By then the drain has made exactly the requests of [`drain_script`],
    /// so both latches are empty and nothing that was taken is still owed.
    pub fn finish(self) -> (r: Option<Result<(), Error>>)
        ensures
            match r {
                None => self@.outcome() is None,
                Some(Ok(())) => self@.outcome() == Some(Ok::<(), ErrorModel>(())),
                Some(Err(e)) => self@.outcome() == Some(Err::<(), ErrorModel>(e@)),
            },
            r is Some && self@.pending ==> self@.history == drain_script(
                self@.thrown,
                self@.property,
            ) && released(self@.history) == owed(self@.thrown, self@.property),
            r is Some && !self@.pending ==> self@.history == Seq::<Request>::empty(),
    {
        proof {
            use_type_invariant(&self);
            lemma_script_releases_once(self@.thrown, self@.property);
            if self@.pending && self@.stage == Stage::Done {
                self@.lemma_done_followed_script();
            }
        }
        if !self.is_finished() {
            return None;
        }
        Some(check_error(self.pending, self.native, self.text))
    }
}

} // verus!

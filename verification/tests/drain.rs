use rusty_hermes::value::{KIND_BIGINT, KIND_NUMBER, KIND_OBJECT, KIND_STRING, KIND_SYMBOL};
use rusty_hermes::{check_error, undefined_value, Drain, Error, RawValue, Reply, Request};

/// Plays the engine's part in a drain: what its latches hold, and what it
/// is asked to do.
struct Engine {
    pending: bool,
    native: Option<String>,
    thrown: RawValue,
    property: RawValue,
    texts: Vec<(RawValue, Vec<u8>)>,
    asked: Vec<Request>,
    released: Vec<RawValue>,
}

impl Engine {
    fn clean() -> Engine {
        Engine {
            pending: false,
            native: None,
            thrown: undefined_value(),
            property: undefined_value(),
            texts: Vec::new(),
            asked: Vec::new(),
            released: Vec::new(),
        }
    }

    fn throwing(thrown: RawValue) -> Engine {
        Engine { pending: true, thrown, ..Engine::clean() }
    }

    fn text_of(&self, value: RawValue) -> String {
        let bytes = self
            .texts
            .iter()
            .find(|(v, _)| *v == value)
            .map(|(_, b)| b.clone())
            .unwrap_or_default();
        rusty_hermes::text::read_lossy(&bytes)
    }

    /// Runs one drain to its end, as the embedding shell does.
    fn check(&mut self) -> Result<(), Error> {
        let mut drain = Drain::begin(self.pending);
        self.pending = false;
        let mut steps = 0;
        while !drain.is_finished() {
            steps += 1;
            assert!(steps <= 7, "a drain ends after seven requests at most");
            let request = drain.request();
            self.asked.push(request);
            let reply = match request {
                Request::TakeMessage => Reply::Message(self.native.take()),
                Request::TakeThrown => {
                    let thrown = self.thrown;
                    self.thrown = undefined_value();
                    Reply::Thrown(thrown)
                }
                Request::ReadText(value) => Reply::Text(self.text_of(value)),
                Request::ReadMessage(_) => Reply::Property(self.property),
                Request::Release(value) => {
                    self.released.push(value);
                    Reply::Released
                }
                Request::Finished => unreachable!(),
            };
            drain = drain.supply(reply);
        }
        assert_eq!(drain.request(), Request::Finished);
        drain.finish().expect("the drain has ended")
    }

    fn latches_are_empty(&self) -> bool {
        !self.pending && self.native.is_none() && self.thrown == undefined_value()
    }
}

fn string(handle: u64) -> RawValue {
    RawValue { kind: KIND_STRING, payload: handle }
}

fn object(handle: u64) -> RawValue {
    RawValue { kind: KIND_OBJECT, payload: handle }
}

fn message(result: Result<(), Error>) -> String {
    match result {
        Err(Error::JsException(m)) => m,
        other => panic!("expected JsException, got: {other:?}"),
    }
}

#[test]
fn eval_error() {
    // throw new Error('oops')
    let thrown = object(0x100);
    let mut engine = Engine::throwing(thrown);
    engine.property = string(0x108);
    engine.texts.push((string(0x108), b"oops".to_vec()));
    let result = engine.check();
    assert!(result.is_err());
    let err = result.unwrap_err();
    match err {
        Error::JsException(msg) => {
            assert!(msg.contains("oops"), "error message was: {msg}");
        }
        other => panic!("expected JsException, got: {other:?}"),
    }
    assert_eq!(
        engine.asked,
        vec![
            Request::TakeMessage,
            Request::TakeThrown,
            Request::ReadMessage(thrown),
            Request::ReadText(string(0x108)),
            Request::Release(string(0x108)),
            Request::Release(thrown),
        ]
    );
}

#[test]
fn eval_syntax_error() {
    // function(
    let mut engine = Engine::throwing(undefined_value());
    engine.native = Some("1:10:'identifier' expected".to_string());
    let result = engine.check();
    assert!(result.is_err());
    assert_eq!(engine.asked, vec![Request::TakeMessage, Request::TakeThrown]);
    assert!(engine.released.is_empty());
}

#[test]
fn a_failed_evaluation_leaves_nothing_behind() {
    // throw new Error('x'), then 1+1 on the same engine.
    let mut engine = Engine::throwing(object(0x200));
    engine.native = Some("Error: x".to_string());
    engine.property = string(0x208);
    engine.texts.push((string(0x208), b"x".to_vec()));
    assert!(message(engine.check()).contains("x"));
    assert!(engine.latches_are_empty());
    assert_eq!(engine.released, vec![string(0x208), object(0x200)]);

    // The next operation finds no error pending and asks nothing.
    engine.asked.clear();
    assert!(engine.check().is_ok());
    assert!(engine.asked.is_empty());
}

#[test]
fn no_pending_error_is_success_without_a_request() {
    let drain = Drain::begin(false);
    assert!(drain.is_finished());
    assert_eq!(drain.request(), Request::Finished);
    assert!(matches!(drain.finish(), Some(Ok(()))));
}

#[test]
fn both_latches_are_emptied_even_when_the_first_has_a_message() {
    let mut engine = Engine::throwing(string(0x300));
    engine.native = Some("native".to_string());
    engine.texts.push((string(0x300), b"thrown".to_vec()));
    assert_eq!(message(engine.check()), "native");
    assert_eq!(
        engine.asked,
        vec![
            Request::TakeMessage,
            Request::TakeThrown,
            Request::ReadText(string(0x300)),
            Request::Release(string(0x300)),
        ]
    );
    assert!(engine.latches_are_empty());
}

#[test]
fn a_thrown_string_is_the_message() {
    let mut engine = Engine::throwing(string(0x400));
    engine.texts.push((string(0x400), b"plain".to_vec()));
    assert_eq!(message(engine.check()), "plain");
    assert_eq!(engine.released, vec![string(0x400)]);
}

#[test]
fn an_object_without_a_text_message_falls_back() {
    // { message: 42 }
    let mut engine = Engine::throwing(object(0x500));
    engine.property = RawValue { kind: KIND_NUMBER, payload: 42f64.to_bits() };
    assert_eq!(message(engine.check()), "unknown error");
    assert_eq!(engine.released, vec![object(0x500)]);

    // { message: {} }: the property holds a unit, which goes back first.
    let mut engine = Engine::throwing(object(0x510));
    engine.property = object(0x518);
    assert_eq!(message(engine.check()), "unknown error");
    assert_eq!(engine.released, vec![object(0x518), object(0x510)]);

}

#[test]
fn an_empty_text_is_used_as_it_is() {
    // throw ''
    let mut engine = Engine::throwing(string(0x530));
    assert_eq!(message(engine.check()), "");
    assert_eq!(engine.released, vec![string(0x530)]);

    // throw { message: '' }
    let mut engine = Engine::throwing(object(0x520));
    engine.property = string(0x528);
    assert_eq!(message(engine.check()), "");
    assert_eq!(engine.released, vec![string(0x528), object(0x520)]);

    // An empty native message too.
    let mut engine = Engine::throwing(string(0x540));
    engine.native = Some(String::new());
    engine.texts.push((string(0x540), b"thrown".to_vec()));
    assert_eq!(message(engine.check()), "");
}

#[test]
fn thrown_values_of_every_kind_are_released_exactly_once() {
    for kind in [KIND_SYMBOL, KIND_BIGINT] {
        let thrown = RawValue { kind, payload: 0x600 };
        let mut engine = Engine::throwing(thrown);
        assert_eq!(message(engine.check()), "unknown error");
        assert_eq!(engine.released, vec![thrown]);
        assert_eq!(
            engine.asked,
            vec![Request::TakeMessage, Request::TakeThrown, Request::Release(thrown)]
        );
    }
    for thrown in [
        undefined_value(),
        RawValue { kind: 1, payload: 0 },
        RawValue { kind: 2, payload: 1 },
        RawValue { kind: KIND_NUMBER, payload: 7f64.to_bits() },
    ] {
        let mut engine = Engine::throwing(thrown);
        assert_eq!(message(engine.check()), "unknown error");
        assert!(engine.released.is_empty());
    }
}

#[test]
fn a_reply_to_another_request_is_ignored() {
    let drain = Drain::begin(true);
    let drain = drain.supply(Reply::Released);
    assert_eq!(drain.request(), Request::TakeMessage);
    let drain = drain.supply(Reply::Thrown(object(1)));
    assert_eq!(drain.request(), Request::TakeMessage);
    let drain = drain.supply(Reply::Text("x".to_string()));
    assert_eq!(drain.request(), Request::TakeMessage);
    assert!(drain.finish().is_none());

    let done = Drain::begin(false).supply(Reply::Message(Some("late".to_string())));
    assert!(matches!(done.finish(), Some(Ok(()))));
}

#[test]
fn finish_answers_only_at_the_end() {
    let drain = Drain::begin(true);
    assert!(!drain.is_finished());
    let drain = drain.supply(Reply::Message(None));
    assert_eq!(drain.request(), Request::TakeThrown);
    assert!(drain.finish().is_none());
}

#[test]
fn malformed_text_in_a_thrown_string_is_replaced_not_refused() {
    let mut engine = Engine::throwing(string(0x700));
    engine.texts.push((string(0x700), vec![b'a', 0xff, b'b']));
    assert_eq!(message(engine.check()), "a\u{fffd}b");
}

#[test]
fn check_error_chooses_the_message() {
    let some = |s: &str| Some(s.to_string());
    assert!(check_error(false, None, None).is_ok());
    assert!(check_error(false, some("ignored"), some("ignored")).is_ok());
    assert_eq!(message(check_error(true, some("native"), some("thrown"))), "native");
    assert_eq!(message(check_error(true, some("native"), None)), "native");
    assert_eq!(message(check_error(true, some(""), some("thrown"))), "");
    assert_eq!(message(check_error(true, None, some("thrown"))), "thrown");
    assert_eq!(message(check_error(true, None, some(""))), "");
    assert_eq!(message(check_error(true, None, None)), "unknown error");
}

#[test]
fn errors_render_as_one_line() {
    assert_eq!(Error::JsException("x".into()).to_string(), "JavaScript exception: x");
    assert_eq!(
        Error::TypeError { expected: "string", got: "number" }.to_string(),
        "type error: expected string, got number"
    );
    assert_eq!(Error::RuntimeError("boom".into()).to_string(), "runtime error: boom");
    assert_eq!(Error::ConversionError("bad".into()).to_string(), "conversion error: bad");
    let e = Error::TypeError { expected: "array", got: "object" };
    assert_eq!(e.clone().to_string(), e.to_string());
}

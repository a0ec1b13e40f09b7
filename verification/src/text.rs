//! Text: decimal numerals, and bytes that are read as UTF-8.

use vstd::prelude::*;
use vstd::string::StringExecFns;
use vstd::utf8::{decode_utf8, valid_utf8};
use crate::error::{Error, ErrorModel};

verus! {

/// The character of a decimal digit.
pub open spec fn digit_char(d: nat) -> char {
    if d == 0 {
        '0'
    } else if d == 1 {
        '1'
    } else if d == 2 {
        '2'
    } else if d == 3 {
        '3'
    } else if d == 4 {
        '4'
    } else if d == 5 {
        '5'
    } else if d == 6 {
        '6'
    } else if d == 7 {
        '7'
    } else if d == 8 {
        '8'
    } else {
        '9'
    }
}

/// The decimal numeral of a number: most significant digit first, no sign,
/// and no leading zero but for zero itself.
pub open spec fn decimal_text(n: nat) -> Seq<char>
    decreases n,
{
    if n < 10 {
        seq![digit_char(n)]
    } else {
        decimal_text(n / 10).push(digit_char(n % 10))
    }
}

/// The numeral of one digit.
fn digit(d: usize) -> (s: &'static str)
    requires
        d < 10,
    ensures
        s@ == seq![digit_char(d as nat)],
{
    proof {
        reveal_strlit("0");
        reveal_strlit("1");
        reveal_strlit("2");
        reveal_strlit("3");
        reveal_strlit("4");
        reveal_strlit("5");
        reveal_strlit("6");
        reveal_strlit("7");
        reveal_strlit("8");
        reveal_strlit("9");
    }
    let s = if d == 0 {
        "0"
    } else if d == 1 {
        "1"
    } else if d == 2 {
        "2"
    } else if d == 3 {
        "3"
    } else if d == 4 {
        "4"
    } else if d == 5 {
        "5"
    } else if d == 6 {
        "6"
    } else if d == 7 {
        "7"
    } else if d == 8 {
        "8"
    } else {
        "9"
    };
    assert(s@ =~= seq![digit_char(d as nat)]);
    s
}

/// Writes a number as a decimal numeral.
pub fn decimal(n: usize) -> (s: String)
    ensures
        s@ == decimal_text(n as nat),
    decreases n,
{
    if n < 10 {
        String::from_str(digit(n))
    } else {
        let mut s = decimal(n / 10);
        s.append(digit(n % 10));
        assert(s@ =~= decimal_text((n / 10) as nat).push(digit_char((n % 10) as nat)));
        s
    }
}

/// The text that bytes are read as when every malformed sequence is
/// replaced by U+FFFD instead of being refused.
pub uninterp spec fn lossy_text(bytes: Seq<u8>) -> Seq<char>;

/// `String::from_utf8` of the standard library: the bytes as a string if
/// they are well-formed UTF-8, and nothing if they are not.
#[verifier::external_body]
fn string_from_utf8(bytes: Vec<u8>) -> (r: Option<String>)
    ensures
        r is Some <==> valid_utf8(bytes@),
        r is Some ==> r->0@ == decode_utf8(bytes@),
{
    String::from_utf8(bytes).ok()
}

/// `String::from_utf8_lossy` of the standard library: the bytes as a
/// string, with U+FFFD in place of what is malformed. Well-formed bytes are
/// read as they are.
#[verifier::external_body]
fn string_from_utf8_lossy(bytes: &Vec<u8>) -> (r: String)
    ensures
        r@ == lossy_text(bytes@),
        valid_utf8(bytes@) ==> r@ == decode_utf8(bytes@),
{
    String::from_utf8_lossy(bytes).into_owned()
}

/// The message of the error for bytes that are not UTF-8.
pub open spec fn malformed_text() -> Seq<char> {
    "string is not valid UTF-8"@
}

/// What reading bytes strictly ends in.
pub open spec fn strict_model(bytes: Seq<u8>) -> Result<Seq<char>, ErrorModel> {
    if valid_utf8(bytes) {
        Ok(decode_utf8(bytes))
    } else {
        Err(ErrorModel::ConversionError(malformed_text()))
    }
}

/// Reads the bytes that the engine wrote for a string. Bytes that are not
/// well-formed UTF-8 are refused with a conversion error.
pub fn read_strict(bytes: Vec<u8>) -> (r: Result<String, Error>)
    ensures
        match r {
            Ok(s) => strict_model(bytes@) == Ok::<Seq<char>, ErrorModel>(s@),
            Err(e) => strict_model(bytes@) == Err::<Seq<char>, ErrorModel>(e@),
        },
{
    match string_from_utf8(bytes) {
        Some(s) => Ok(s),
        None => Err(Error::ConversionError(String::from_str("string is not valid UTF-8"))),
    }
}

/// Reads the bytes that the engine wrote for a string, leniently: what is
/// malformed is replaced, nothing is refused.
pub fn read_lossy(bytes: &Vec<u8>) -> (s: String)
    ensures
        s@ == lossy_text(bytes@),
        valid_utf8(bytes@) ==> s@ == decode_utf8(bytes@),
{
    string_from_utf8_lossy(bytes)
}

/// Reads the first `written` bytes of a buffer leniently: the text that the
/// engine wrote into a buffer of which it filled only the beginning.
pub fn read_prefix_lossy(buffer: Vec<u8>, written: usize) -> (s: String)
    ensures
        s@ == lossy_text(
            if written <= buffer@.len() {
                buffer@.take(written as int)
            } else {
                buffer@
            },
        ),
{
    let ghost whole = buffer@;
    let mut buffer = buffer;
    buffer.truncate(written);
    assert(written <= whole.len() ==> buffer@ =~= whole.take(written as int));
    string_from_utf8_lossy(&buffer)
}

} // verus!

//! The frames of the ingestion protocol: one handshake frame that names the
//! sensor, then one frame per reading, each ended by a line feed.

use crate::decimal::{
    decimal_digits, decimal_u32, is_digit, lemma_decimal_round_trip, lemma_digits_no_c0_controls,
    parse_decimal, render_decimal,
};
use crate::json::{json_quoted, parse_object, parsed_text_members, quote, text_member};
use crate::model::{IdentityView, SensorIdentity};
use crate::text::{
    frame_text, is_one_line, is_terminated, is_whole_frame, lemma_one_line_is_terminated, is_white_space, lemma_no_c0_controls_concat, lenient_text,
    no_c0_controls, trimmed, trimmed_end, trimmed_start,
};
use crate::token::{
    hyphenated, hyphenated_text, lemma_hyphenated_no_c0_controls, parse_uuid, uuid_of_text,
};
use vstd::prelude::*;
use vstd::string::StringExecFns;
use vstd::utf8::{encode_utf8, encode_utf8_decode_utf8, encode_utf8_valid_utf8};

verus! {

/// The value stored for a reading frame that writes no number.
pub const SENTINEL_READING: u32 = 99999;

/// Why a handshake frame names no sensor.
#[derive(Clone, Copy, Debug, PartialEq, Eq, Structural)]
pub enum HandshakeError {
    /// The frame never got its line feed: the stream ended in the middle of
    /// it, or before it began.
    Unterminated,
    /// The frame is not the text of one JSON object.
    NotAnObject,
    /// The object has no member `id` that holds a string.
    MissingId,
    /// The member `id` does not write a 128-bit id.
    InvalidId,
    /// The object has no member `name` that holds a string.
    MissingName,
}

/// The identity that the string members of a handshake object give.
pub open spec fn identity_of_members(members: Map<Seq<char>, Seq<char>>) -> Result<
    IdentityView,
    HandshakeError,
> {
    if !members.contains_key("id"@) {
        Err(HandshakeError::MissingId)
    } else {
        match uuid_of_text(members["id"@]) {
            None => Err(HandshakeError::InvalidId),
            Some(id) => if !members.contains_key("name"@) {
                Err(HandshakeError::MissingName)
            } else {
                Ok(IdentityView { id, name: members["name"@] })
            },
        }
    }
}

/// The identity that a handshake frame announces. The frame must be whole,
/// that is, end with its line feed: bytes without it announce nothing, whatever
/// they spell. A whole frame is read as text, white space around it is dropped,
/// and what is left must be a JSON object with the members `id` and `name`.
/// Other members are passed over.
pub open spec fn handshake_of(frame: Seq<u8>) -> Result<IdentityView, HandshakeError> {
    if !is_terminated(frame) {
        Err(HandshakeError::Unterminated)
    } else {
        match parsed_text_members(trimmed(lenient_text(frame))) {
            None => Err(HandshakeError::NotAnObject),
            Some(members) => identity_of_members(members),
        }
    }
}

/// `Ok` of an identity's value, an error as it is.
pub open spec fn identity_result_view(r: Result<SensorIdentity, HandshakeError>) -> Result<
    IdentityView,
    HandshakeError,
> {
    match r {
        Ok(identity) => Ok(identity@),
        Err(e) => Err(e),
    }
}

/// Puts an identity together from the id that the member `id` wrote, if it
/// wrote one, and from the member `name`, if there is one.
pub fn checked_identity(id: Option<u128>, name: Option<String>) -> (r: Result<
    SensorIdentity,
    HandshakeError,
>)
    ensures
        id is None ==> r == Err::<SensorIdentity, HandshakeError>(HandshakeError::InvalidId),
        id is Some && name is None ==> r == Err::<SensorIdentity, HandshakeError>(
            HandshakeError::MissingName,
        ),
        id is Some && name is Some ==> r == Ok::<SensorIdentity, HandshakeError>(
            SensorIdentity { id: id->0, name: name->0 },
        ),
{
    match id {
        None => Err(HandshakeError::InvalidId),
        Some(id) => match name {
            None => Err(HandshakeError::MissingName),
            Some(name) => Ok(SensorIdentity { id, name }),
        },
    }
}

/// Reads a handshake frame. Bytes that do not end with the line feed are
/// refused before anything is read in them.
pub fn decode_handshake(frame: &[u8]) -> (r: Result<SensorIdentity, HandshakeError>)
    ensures
        identity_result_view(r) == handshake_of(frame@),
        !is_terminated(frame@) ==> r == Err::<SensorIdentity, HandshakeError>(
            HandshakeError::Unterminated,
        ),
{
    if !is_whole_frame(frame) {
        return Err(HandshakeError::Unterminated);
    }
    let text = frame_text(frame).trim();
    let object = match parse_object(text) {
        Ok(object) => object,
        Err(_) => {
            return Err(HandshakeError::NotAnObject);
        },
    };
    let id_text = match text_member(&object, "id") {
        Some(id_text) => id_text,
        None => {
            return Err(HandshakeError::MissingId);
        },
    };
    let id = match parse_uuid(id_text.as_str()) {
        Ok(id) => Some(id),
        Err(_) => None,
    };
    checked_identity(id, text_member(&object, "name"))
}

/// The text of the handshake frame that announces `identity`.
pub open spec fn handshake_frame_text(identity: IdentityView) -> Seq<char> {
    "{\"id\":\""@ + hyphenated(identity.id) + "\",\"name\":"@ + json_quoted(identity.name)
        + "}\n"@
}

/// Puts a handshake frame together from the id in its hyphenated form and the
/// name as JSON quotes it. Where neither holds a control character, the frame
/// is one line.
pub fn handshake_frame_of(id_text: &str, quoted_name: &str) -> (frame: String)
    ensures
        frame@ == "{\"id\":\""@ + id_text@ + "\",\"name\":"@ + quoted_name@ + "}\n"@,
        no_c0_controls(id_text@) && no_c0_controls(quoted_name@) ==> is_one_line(frame@),
{
    let mut frame = String::from_str("{\"id\":\"");
    frame.append(id_text);
    frame.append("\",\"name\":");
    frame.append(quoted_name);
    frame.append("}\n");
    proof {
        reveal_strlit("{\"id\":\"");
        reveal_strlit("\",\"name\":");
        reveal_strlit("}\n");
        let a = "{\"id\":\""@;
        let b = "\",\"name\":"@;
        let c = "}\n"@;
        let head = a + id_text@ + b + quoted_name@;
        assert(no_c0_controls(a));
        assert(no_c0_controls(b));
        assert(no_c0_controls(seq!['}']));
        lemma_no_c0_controls_concat(a, id_text@);
        lemma_no_c0_controls_concat(a + id_text@, b);
        lemma_no_c0_controls_concat(a + id_text@ + b, quoted_name@);
        lemma_no_c0_controls_concat(head, seq!['}']);
        assert(c =~= seq!['}', '\n']);
        assert(frame@.drop_last() =~= head + seq!['}']);
    }
    frame
}

/// Writes the handshake frame that a sensor sends first. The frame is one
/// line, whatever the name holds.
pub fn handshake_frame(identity: &SensorIdentity) -> (frame: String)
    ensures
        frame@ == handshake_frame_text(identity@),
        is_one_line(frame@),
        is_terminated(encode_utf8(frame@)),
{
    let id_text = hyphenated_text(identity.id);
    let quoted_name = quote(identity.name.as_str());
    proof {
        lemma_hyphenated_no_c0_controls(identity.id);
    }
    let frame = handshake_frame_of(id_text.as_str(), quoted_name.as_str());
    proof {
        lemma_one_line_is_terminated(frame@);
    }
    frame
}

/// The value that a reading frame stores: the number it writes once the frame
/// is read as text and white space around it is dropped, and the sentinel
/// where it writes none.
pub open spec fn reading_of(frame: Seq<u8>) -> u32 {
    match decimal_u32(trimmed(lenient_text(frame))) {
        Some(value) => value,
        None => SENTINEL_READING,
    }
}

/// Reads a reading frame. A frame that is no number is not an error: it
/// stores the sentinel.
pub fn decode_reading(frame: &[u8]) -> (value: u32)
    ensures
        value == reading_of(frame@),
{
    match parse_decimal(frame_text(frame).trim()) {
        Some(value) => value,
        None => SENTINEL_READING,
    }
}

/// The text of the frame that carries `value`.
pub open spec fn reading_frame_text(value: u32) -> Seq<char> {
    decimal_digits(value as nat).push('\n')
}

/// Writes the frame that carries one reading: one line.
pub fn reading_frame(value: u32) -> (frame: String)
    ensures
        frame@ == reading_frame_text(value),
        is_one_line(frame@),
        is_terminated(encode_utf8(frame@)),
{
    let mut frame = render_decimal(value);
    proof {
        reveal_strlit("\n");
        lemma_decimal_round_trip(value as nat);
        lemma_digits_no_c0_controls(decimal_digits(value as nat));
    }
    frame.append("\n");
    assert(frame@ =~= reading_frame_text(value));
    assert(frame@.drop_last() =~= decimal_digits(value as nat));
    proof {
        lemma_one_line_is_terminated(frame@);
    }
    frame
}

/// What a sensor sends, the controller reads: the frame written for a
/// reading stores that reading.
pub proof fn lemma_reading_frame_round_trip(value: u32)
    ensures
        reading_of(encode_utf8(reading_frame_text(value))) == value,
{
    let digits = decimal_digits(value as nat);
    let text = reading_frame_text(value);
    encode_utf8_valid_utf8(text);
    encode_utf8_decode_utf8(text);
    assert(lenient_text(encode_utf8(text)) == text);
    lemma_decimal_round_trip(value as nat);
    assert(is_digit(digits[0]));
    assert(is_digit(digits.last()));
    assert(text[0] == digits[0]);
    assert(!is_white_space(text[0]));
    assert(trimmed_start(text) == text);
    assert(text.drop_last() =~= digits);
    assert(is_white_space(text.last()));
    assert(trimmed_end(text) == trimmed_end(digits));
    assert(!is_white_space(digits.last()));
    assert(trimmed_end(digits) == digits);
}

} // verus!

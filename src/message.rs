use vstd::prelude::*;
use vstd::string::StrSliceExecFns;
use vstd::string::StringExecFns;
use vstd::utf8::decode_utf8;
use vstd::utf8::encode_utf8;
use vstd::utf8::valid_utf8;

verus! {

/// Quality-of-service level of a broker publish or subscribe.
#[derive(Clone, Copy, Debug, PartialEq, Eq, Structural)]
pub enum Qos {
    AtMostOnce,
    AtLeastOnce,
    ExactlyOnce,
}

/// Maps a numeric level to a QoS: 2 and 1 select their level, anything else is at-most-once.
pub fn qos_from_level(level: u8) -> (r: Qos)
    ensures
        r == qos_from_level_spec(level),
{
    match level {
        2 => Qos::ExactlyOnce,
        1 => Qos::AtLeastOnce,
        _ => Qos::AtMostOnce,
    }
}


/// A message for the broker: topic, payload bytes, QoS and the retain flag.
pub struct PublishMessage {
    pub topic: String,
    pub value: Vec<u8>,
    pub qos: Qos,
    pub retain: bool,
}

impl PublishMessage {
    pub fn new(topic: String, value: Vec<u8>, qos: Qos, retain: bool) -> (r: PublishMessage)
        ensures
            r.topic == topic,
            r.value == value,
            r.qos == qos,
            r.retain == retain,
    {
        PublishMessage { topic, value, qos, retain }
    }
}

/// The publish message for a web request: the text value as its UTF-8 bytes and the numeric
/// QoS level mapped as `qos_from_level` does.
pub fn publish_request(topic: String, value: &str, qos: u8, retain: bool) -> (r: PublishMessage)
    ensures
        r.topic == topic,
        r.value@ == encode_utf8(value@),
        r.qos == qos_from_level_spec(qos),
        r.retain == retain,
{
    let bytes = value.as_bytes_vec();
    PublishMessage::new(topic, bytes, qos_from_level(qos), retain)
}

/// The QoS for a numeric level.
pub open spec fn qos_from_level_spec(level: u8) -> Qos {
    if level == 2 {
        Qos::ExactlyOnce
    } else if level == 1 {
        Qos::AtLeastOnce
    } else {
        Qos::AtMostOnce
    }
}

/// The answer to a publish: "OK" when the broker client took the message, "Error" otherwise.
pub fn publish_reply(accepted: bool) -> (r: String)
    ensures
        r@ == (if accepted {
            "OK"@
        } else {
            "Error"@
        }),
{
    if accepted {
        String::from_str("OK")
    } else {
        String::from_str("Error")
    }
}

/// What a web caller answers: the actor's reply, or "No response" when none came (the actor
/// stopped or dropped the request).
pub fn answer_or_no_response(reply: Option<String>) -> (r: String)
    ensures
        r@ == (match reply {
            Some(t) => t@,
            None => "No response"@,
        }),
{
    match reply {
        Some(t) => t,
        None => String::from_str("No response"),
    }
}

/// The text of a payload: its UTF-8 decoding, or the empty text when the bytes are not UTF-8.
pub open spec fn payload_text_of(payload: Seq<u8>) -> Seq<char> {
    if valid_utf8(payload) {
        decode_utf8(payload)
    } else {
        Seq::empty()
    }
}

/// Relies on `String::from_utf8`: it succeeds exactly on valid UTF-8 and then holds the
/// decoded characters.
#[verifier::external_body]
fn string_from_utf8(bytes: Vec<u8>) -> (r: Option<String>)
    ensures
        r is Some <==> valid_utf8(bytes@),
        r matches Some(t) ==> t@ == decode_utf8(bytes@),
{
    String::from_utf8(bytes).ok()
}

/// Decodes a broker payload as text; bytes that are not UTF-8 give the empty text.
pub fn payload_text(payload: Vec<u8>) -> (r: String)
    ensures
        r@ == payload_text_of(payload@),
{
    match string_from_utf8(payload) {
        Some(t) => t,
        None => String::new(),
    }
}

} // verus!

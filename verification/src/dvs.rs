use vstd::prelude::*;

verus! {

use vstd::slice::slice_to_vec;
use vstd::utf8::{valid_utf8, decode_utf8, encode_utf8, encode_utf8_decode_utf8};
use crate::text::{split_on, split_str, lemma_split_on_len};
use crate::num::{is_float_literal, float_ok};

/// A measurement extracted from one transport message: the group and metric
/// keys from the topic, and the metric value kept as its validated numeric
/// text.
#[derive(Debug)]
pub struct DvsMessage {
    pub metric_group_key: String,
    pub metric_key: String,
    pub metric_value: String,
}

/// Why a whole (topic, payload) pair was rejected.
#[derive(Debug)]
pub enum DvsError {
    InvalidMeasurementTopic(String),
    InvalidMeasurementPayload(String, DvsPayloadError),
}

/// The group and metric keys read from a well-formed topic.
#[derive(Debug)]
pub struct DvsTopic {
    pub metric_group_key: String,
    pub metric_key: String,
}

/// The error of the topic grammar: not exactly four `/`-separated segments.
#[derive(Debug)]
pub struct InvalidDvsTopicName;

/// The validated numeric value text carried by a well-formed payload.
#[derive(Debug)]
pub struct DvsPayload {
    pub metric_value: String,
}

/// Why a payload was rejected, carrying the offending text for diagnostics.
#[derive(Debug)]
pub enum DvsPayloadError {
    NonUTF8MeasurementPayload(Vec<u8>),
    InvalidMeasurementPayloadFormat(String),
    InvalidMeasurementTimestamp(String),
    InvalidMeasurementValue(String),
}

/// The `/`-separated segments of a topic.
pub open spec fn topic_segments(t: Seq<char>) -> Seq<Seq<char>> {
    split_on(t, '/')
}

/// A topic is well formed exactly when it has four `/`-separated segments.
pub open spec fn topic_ok(t: Seq<char>) -> bool {
    topic_segments(t).len() == 4
}

/// The `:`-separated fields of a payload's decoded text.
pub open spec fn payload_fields(p: Seq<u8>) -> Seq<Seq<char>> {
    split_on(decode_utf8(p), ':')
}

/// A payload is well formed exactly when it is valid UTF-8 and splits into
/// two `:`-separated fields, both floating-point literals: the discarded
/// timestamp and the retained value.
pub open spec fn payload_ok(p: Seq<u8>) -> bool {
    valid_utf8(p) && payload_fields(p).len() == 2 && is_float_literal(payload_fields(p)[0])
        && is_float_literal(payload_fields(p)[1])
}

/// The value field of a well-formed payload.
pub open spec fn payload_value(p: Seq<u8>) -> Seq<char> {
    payload_fields(p)[1]
}

/// The exact diagnosis owed for a rejected payload, and the text each
/// variant carries.
pub open spec fn payload_error_matches(p: Seq<u8>, e: DvsPayloadError) -> bool {
    match e {
        DvsPayloadError::NonUTF8MeasurementPayload(b) => !valid_utf8(p) && b@ == p,
        DvsPayloadError::InvalidMeasurementTimestamp(t) => valid_utf8(p) && !is_float_literal(
            payload_fields(p)[0],
        ) && t@ == payload_fields(p)[0],
        DvsPayloadError::InvalidMeasurementPayloadFormat(s) => valid_utf8(p) && is_float_literal(
            payload_fields(p)[0],
        ) && (payload_fields(p).len() == 1 || (payload_fields(p).len() > 2 && is_float_literal(
            payload_fields(p)[1],
        ))) && s@ == decode_utf8(p),
        DvsPayloadError::InvalidMeasurementValue(v) => valid_utf8(p) && payload_fields(p).len() >= 2
            && is_float_literal(payload_fields(p)[0]) && !is_float_literal(payload_fields(p)[1])
            && v@ == payload_fields(p)[1],
    }
}

/// What a decoded measurement owes to its topic and payload.
pub open spec fn message_matches(t: Seq<char>, p: Seq<u8>, m: DvsMessage) -> bool {
    topic_ok(t) && payload_ok(p) && m.metric_group_key@ == topic_segments(t)[2] && m.metric_key@
        == topic_segments(t)[3] && m.metric_value@ == payload_value(p)
}

/// The exact diagnosis owed for a rejected (topic, payload) pair.
pub open spec fn decode_error_matches(t: Seq<char>, p: Seq<u8>, e: DvsError) -> bool {
    match e {
        DvsError::InvalidMeasurementTopic(raw) => !topic_ok(t) && raw@ == t,
        DvsError::InvalidMeasurementPayload(raw, pe) => topic_ok(t) && raw@ == t
            && payload_error_matches(p, pe),
    }
}

/// Relies on `std::str::from_utf8`: it returns `Ok` exactly when the bytes
/// are valid UTF-8, and the returned string is a view of those same bytes.
#[verifier::external_body]
fn payload_as_str(payload: &[u8]) -> (r: Option<&str>)
    ensures
        r is Some <==> valid_utf8(payload@),
        r matches Some(s) ==> encode_utf8(s@) == payload@,
{
    std::str::from_utf8(payload).ok()
}

impl DvsTopic {
    /// Parses a topic of the form `<prefix>/<host>/<group-key>/<metric-key>`:
    /// exactly four `/`-separated segments, of which the third and fourth are
    /// kept verbatim.
    pub fn from_str(topic_name: &str) -> (r: Result<DvsTopic, InvalidDvsTopicName>)
        ensures
            r is Ok <==> topic_ok(topic_name@),
            r matches Ok(t) ==> t.metric_group_key@ == topic_segments(topic_name@)[2]
                && t.metric_key@ == topic_segments(topic_name@)[3],
    {
        let parts = split_str(topic_name, '/');
        proof {
            assert(parts.deep_view().len() == parts@.len());
        }
        if parts.len() == 4 {
            let metric_group_key = parts[2].clone();
            let metric_key = parts[3].clone();
            proof {
                assert(parts.deep_view()[2] == parts@[2]@);
                assert(parts.deep_view()[3] == parts@[3]@);
            }
            Ok(DvsTopic { metric_group_key, metric_key })
        } else {
            Err(InvalidDvsTopicName)
        }
    }
}

impl DvsPayload {
    /// Parses a payload of the form `<timestamp>:<value>`: UTF-8 text with
    /// exactly two `:`-separated floating-point fields. The timestamp field
    /// is validated and then discarded; the value field is kept verbatim.
    pub fn parse_from(payload: &[u8]) -> (r: Result<DvsPayload, DvsPayloadError>)
        ensures
            r is Ok <==> payload_ok(payload@),
            r matches Ok(v) ==> v.metric_value@ == payload_value(payload@),
            r matches Err(e) ==> payload_error_matches(payload@, e),
    {
        let text = match payload_as_str(payload) {
            Some(t) => t,
            None => {
                return Err(DvsPayloadError::NonUTF8MeasurementPayload(slice_to_vec(payload)));
            },
        };
        proof {
            encode_utf8_decode_utf8(text@);
            assert(decode_utf8(payload@) == text@);
            lemma_split_on_len(text@, ':');
        }
        let parts = split_str(text, ':');
        proof {
            assert(parts.deep_view().len() == parts@.len());
            assert(parts.deep_view()[0] == parts@[0]@);
        }
        if !float_ok(parts[0].as_str()) {
            return Err(DvsPayloadError::InvalidMeasurementTimestamp(parts[0].clone()));
        }
        if parts.len() < 2 {
            return Err(DvsPayloadError::InvalidMeasurementPayloadFormat(text.to_owned()));
        }
        proof {
            assert(parts.deep_view()[1] == parts@[1]@);
        }
        if !float_ok(parts[1].as_str()) {
            return Err(DvsPayloadError::InvalidMeasurementValue(parts[1].clone()));
        }
        if parts.len() > 2 {
            return Err(DvsPayloadError::InvalidMeasurementPayloadFormat(text.to_owned()));
        }
        Ok(DvsPayload { metric_value: parts[1].clone() })
    }
}

impl DvsMessage {
    /// Builds a decoded measurement directly from its parts.
    pub fn new(metric_group_key: &str, metric_key: &str, metric_value: &str) -> (r: DvsMessage)
        ensures
            r.metric_group_key@ == metric_group_key@,
            r.metric_key@ == metric_key@,
            r.metric_value@ == metric_value@,
    {
        DvsMessage {
            metric_group_key: metric_group_key.to_owned(),
            metric_key: metric_key.to_owned(),
            metric_value: metric_value.to_owned(),
        }
    }

    /// Decodes one transport message: the topic is parsed first, then the
    /// payload; either failure is wrapped with the raw topic for diagnostic
    /// context.
    pub fn parse_from(topic: &str, payload: &[u8]) -> (r: Result<DvsMessage, DvsError>)
        ensures
            r is Ok <==> topic_ok(topic@) && payload_ok(payload@),
            r matches Ok(m) ==> message_matches(topic@, payload@, m),
            r matches Err(e) ==> decode_error_matches(topic@, payload@, e),
    {
        let dvs_topic = match DvsTopic::from_str(topic) {
            Ok(dvs_topic) => dvs_topic,
            Err(_) => {
                return Err(DvsError::InvalidMeasurementTopic(topic.to_owned()));
            },
        };
        let dvs_payload = match DvsPayload::parse_from(payload) {
            Ok(dvs_payload) => dvs_payload,
            Err(err) => {
                return Err(DvsError::InvalidMeasurementPayload(topic.to_owned(), err));
            },
        };
        Ok(DvsMessage {
            metric_group_key: dvs_topic.metric_group_key,
            metric_key: dvs_topic.metric_key,
            metric_value: dvs_payload.metric_value,
        })
    }
}

/// Decoding is a function of the topic and payload alone: any two decoded
/// measurements for the same (topic, payload) pair are identical.
pub proof fn lemma_decode_idempotent(t: Seq<char>, p: Seq<u8>, m1: DvsMessage, m2: DvsMessage)
    requires
        message_matches(t, p, m1),
        message_matches(t, p, m2),
    ensures
        m1.metric_group_key@ == m2.metric_group_key@,
        m1.metric_key@ == m2.metric_key@,
        m1.metric_value@ == m2.metric_value@,
{
}

/// Strips the single trailing NUL terminator a transport may append, as the
/// transport collaborator is expected to do before the payload is parsed.
pub fn payload_trimmed(payload: &[u8]) -> (r: Vec<u8>)
    ensures
        payload@.len() > 0 && payload@[payload@.len() - 1] == 0 ==> r@ == payload@.drop_last(),
        !(payload@.len() > 0 && payload@[payload@.len() - 1] == 0) ==> r@ == payload@,
{
    let mut v = slice_to_vec(payload);
    if v.len() > 0 && v[v.len() - 1] == 0 {
        v.pop();
        proof {
            assert(v@ =~= payload@.drop_last());
        }
    }
    v
}

} // verus!

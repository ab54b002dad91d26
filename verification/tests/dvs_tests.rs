use thin_edge_json::dvs::{
    payload_trimmed, DvsError, DvsMessage, DvsPayload, DvsPayloadError, DvsTopic,
    InvalidDvsTopicName,
};

#[test]
fn dvs_message_parsing() {
    let dvs_message =
        DvsMessage::parse_from("dvs/localhost/temperature/value", b"123456789:32.5").unwrap();

    let DvsMessage {
        metric_group_key,
        metric_key,
        metric_value,
    } = dvs_message;

    assert_eq!(metric_group_key, "temperature");
    assert_eq!(metric_key, "value");
    assert_eq!(metric_value.parse::<f64>().unwrap(), 32.5);
}

#[test]
fn dvs_null_terminated_message_parsing() {
    let payload = payload_trimmed("123456789:32.5\u{0}".as_bytes());
    let dvs_message =
        DvsMessage::parse_from("dvs/localhost/temperature/value", &payload).unwrap();

    let DvsMessage {
        metric_group_key,
        metric_key,
        metric_value,
    } = dvs_message;

    assert_eq!(metric_group_key, "temperature");
    assert_eq!(metric_key, "value");
    assert_eq!(metric_value.parse::<f64>().unwrap(), 32.5);
}

#[test]
fn invalid_dvs_message_topic() {
    let result = DvsMessage::parse_from("dvs/less/level", b"123456789:32.5");

    assert!(matches!(result, Err(DvsError::InvalidMeasurementTopic(_))));
}

#[test]
fn invalid_dvs_message_payload() {
    let result = DvsMessage::parse_from("dvs/host/group/key", b"123456789");

    assert!(matches!(
        result,
        Err(DvsError::InvalidMeasurementPayload(_, _))
    ));
}

#[test]
fn invalid_dvs_topic_less_levels() {
    let result = DvsTopic::from_str("dvs/less/levels");

    assert!(matches!(result, Err(InvalidDvsTopicName)));
}

#[test]
fn invalid_dvs_topic_more_levels() {
    let result = DvsTopic::from_str("dvs/more/levels/than/needed");

    assert!(matches!(result, Err(InvalidDvsTopicName)));
}

#[test]
fn invalid_dvs_payload_no_seperator() {
    let payload = b"123456789";
    let result = DvsPayload::parse_from(payload);

    assert!(matches!(
        result,
        Err(DvsPayloadError::InvalidMeasurementPayloadFormat(_))
    ));
}

#[test]
fn invalid_dvs_payload_more_seperators() {
    let payload = b"123456789:98.6:abc";
    let result = DvsPayload::parse_from(payload);

    assert!(matches!(
        result,
        Err(DvsPayloadError::InvalidMeasurementPayloadFormat(_))
    ));
}

#[test]
fn invalid_dvs_metric_value() {
    let payload = b"123456789:abc";
    let result = DvsPayload::parse_from(payload);

    assert!(matches!(
        result,
        Err(DvsPayloadError::InvalidMeasurementValue(_))
    ));
}

#[test]
fn invalid_dvs_metric_timestamp() {
    let payload = b"abc:98.6";
    let result = DvsPayload::parse_from(payload);

    assert!(matches!(
        result,
        Err(DvsPayloadError::InvalidMeasurementTimestamp(_))
    ));
}

#[test]
fn very_large_metric_value() {
    let payload: Vec<u8> = format!("123456789:{}", u128::MAX).into();
    let dvs_payload = DvsPayload::parse_from(&payload).unwrap();

    assert_eq!(dvs_payload.metric_value.parse::<f64>().unwrap(), u128::MAX as f64);
}

#[test]
fn very_small_metric_value() {
    let payload: Vec<u8> = format!("123456789:{}", i128::MIN).into();
    let dvs_payload = DvsPayload::parse_from(&payload).unwrap();

    assert_eq!(dvs_payload.metric_value.parse::<f64>().unwrap(), i128::MIN as f64);
}

#[test]
fn non_utf8_payload_rejected() {
    let payload: &[u8] = &[0x31, 0x32, 0xff, 0x3a, 0x35];
    let result = DvsPayload::parse_from(payload);

    match result {
        Err(DvsPayloadError::NonUTF8MeasurementPayload(bytes)) => assert_eq!(bytes, payload),
        other => panic!("expected a non-UTF-8 diagnosis, got {:?}", other),
    }
}

#[test]
fn empty_topic_rejected() {
    assert!(matches!(DvsTopic::from_str(""), Err(InvalidDvsTopicName)));
    assert!(matches!(
        DvsTopic::from_str("dvs/host/group/key/"),
        Err(InvalidDvsTopicName)
    ));
}

#[test]
fn empty_topic_segments_accepted() {
    // any segment content is accepted verbatim; only the count matters
    let topic = DvsTopic::from_str("///").unwrap();
    assert_eq!(topic.metric_group_key, "");
    assert_eq!(topic.metric_key, "");
}

#[test]
fn scientific_and_signed_literals_accepted() {
    assert!(DvsPayload::parse_from(b"1e3:+.5").is_ok());
    assert!(DvsPayload::parse_from(b"-12.5E-2:7.").is_ok());
    assert!(DvsPayload::parse_from(b"1e:2").is_err());
    assert!(DvsPayload::parse_from(b".:2").is_err());
    assert!(DvsPayload::parse_from(b"1:2.5e+").is_err());
}

#[test]
fn nonfinite_literals_accepted() {
    // documented edge case: the numeric grammar admits the textual special
    // values, so they pass both payload fields
    let dvs_payload = DvsPayload::parse_from(b"nan:INF").unwrap();
    assert_eq!(dvs_payload.metric_value, "INF");
    assert!(DvsPayload::parse_from(b"123:-Infinity").is_ok());
}

#[test]
fn decode_is_idempotent() {
    let first = DvsMessage::parse_from("dvs/localhost/temperature/value", b"123456789:32.5")
        .unwrap();
    let second = DvsMessage::parse_from("dvs/localhost/temperature/value", b"123456789:32.5")
        .unwrap();

    assert_eq!(first.metric_group_key, second.metric_group_key);
    assert_eq!(first.metric_key, second.metric_key);
    assert_eq!(first.metric_value, second.metric_value);
}

#[test]
fn payload_trimming_strips_one_nul() {
    assert_eq!(payload_trimmed(b"a\0\0"), b"a\0");
    assert_eq!(payload_trimmed(b"a"), b"a");
    assert_eq!(payload_trimmed(b""), b"");
}

#[test]
fn message_built_from_parts() {
    let message = DvsMessage::new("temperature", "value", "32.5");
    assert_eq!(message.metric_group_key, "temperature");
    assert_eq!(message.metric_key, "value");
    assert_eq!(message.metric_value, "32.5");
}

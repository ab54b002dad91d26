use chrono::offset::FixedOffset;
use thin_edge_json::serialize::MeasurementStreamError;
use chrono::{DateTime, Local};
use thin_edge_json::serialize::ThinEdgeJsonSerializer;

fn test_timestamp() -> DateTime<FixedOffset> {
    let local_time_now: DateTime<Local> = Local::now();
    local_time_now.with_timezone(local_time_now.offset())
}

#[test]
fn serialize_single_value_message() {
    let mut serializer = ThinEdgeJsonSerializer::new();
    let timestamp = test_timestamp();

    serializer.timestamp(&timestamp.to_rfc3339()).unwrap();
    serializer.measurement("temperature", "25.5").unwrap();

    let body = r#""temperature":25.5"#;
    let expected_output = format!(r#"{{"time":"{}",{}}}"#, timestamp.to_rfc3339(), body);
    let output = serializer.into_string().unwrap();
    assert_eq!(output, expected_output);
}

#[test]
fn serialize_single_value_no_timestamp_message() {
    let mut serializer = ThinEdgeJsonSerializer::new();
    serializer.measurement("temperature", "25.5").unwrap();
    let expected_output = r#"{"temperature":25.5}"#;
    let output = serializer.into_string().unwrap();
    assert_eq!(output, expected_output);
}

#[test]
fn serialize_multi_value_message() {
    let mut serializer = ThinEdgeJsonSerializer::new();
    let timestamp = test_timestamp();
    serializer.timestamp(&timestamp.to_rfc3339()).unwrap();
    serializer.measurement("temperature", "25.5").unwrap();
    serializer.start_group("location").unwrap();
    serializer.measurement("alti", "2100.4").unwrap();
    serializer.measurement("longi", "2200.4").unwrap();
    serializer.measurement("lati", "2300.4").unwrap();
    serializer.end_group().unwrap();
    serializer.measurement("pressure", "255.0").unwrap();
    let body = r#""temperature":25.5,"location":{"alti":2100.4,"longi":2200.4,"lati":2300.4},"pressure":255.0}"#;
    let expected_output = format!(r#"{{"time":"{}",{}"#, timestamp.to_rfc3339(), body);
    let output = serializer.into_string().unwrap();
    assert_eq!(expected_output, output);
}

#[test]
fn serialize_empty_message() {
    let serializer = ThinEdgeJsonSerializer::new();
    let expected_output = "{}";
    let output = serializer.into_string().unwrap();
    assert_eq!(expected_output, output);
}

#[test]
fn serialize_timestamp_message() {
    let mut serializer = ThinEdgeJsonSerializer::new();
    let timestamp = test_timestamp();
    serializer.timestamp(&timestamp.to_rfc3339()).unwrap();
    let expected_output = format!(r#"{{"time":"{}"{}"#, timestamp.to_rfc3339(), "}");
    let output = serializer.into_string().unwrap();
    assert_eq!(expected_output, output);
}

#[test]
fn serialize_timestamp_within_group() {
    let mut serializer = ThinEdgeJsonSerializer::new();
    let timestamp = test_timestamp();
    serializer.start_group("location").unwrap();
    let result = serializer.timestamp(&timestamp.to_rfc3339());
    let expected_error = "Unexpected time stamp within a group";
    assert_eq!(expected_error, result.unwrap_err().message());
}

#[test]
fn serialize_unexpected_end_of_group() {
    let mut serializer = ThinEdgeJsonSerializer::new();
    serializer.measurement("alti", "2100.4").unwrap();
    serializer.measurement("longi", "2200.4").unwrap();
    let result = serializer.end_group();
    let expected_error = "Unexpected end of group";
    assert_eq!(expected_error, result.unwrap_err().message());
}

#[test]
fn serialize_unexpected_start_of_group() {
    let mut serializer = ThinEdgeJsonSerializer::new();
    serializer.start_group("location").unwrap();
    serializer.measurement("alti", "2100.4").unwrap();
    serializer.measurement("longi", "2200.4").unwrap();
    let result = serializer.start_group("location");
    let expected_error = "Unexpected start of group";
    assert_eq!(expected_error, result.unwrap_err().message());
}

#[test]
fn serialize_unexpected_end_of_message() {
    let mut serializer = ThinEdgeJsonSerializer::new();
    serializer.start_group("location").unwrap();
    serializer.measurement("alti", "2100.4").unwrap();
    serializer.measurement("longi", "2200.4").unwrap();
    let expected_error = "Unexpected end of data";
    let result = serializer.into_string();
    assert_eq!(expected_error, result.unwrap_err().message());
}

#[test]
fn serialize_default_timestamp_synthesized() {
    let serializer =
        ThinEdgeJsonSerializer::new_with_timestamp(Some("2021-04-08T00:00:00+05:00".to_owned()));
    let output = serializer.into_string().unwrap();
    assert_eq!(output, r#"{"time":"2021-04-08T00:00:00+05:00"}"#);
}

#[test]
fn serialize_default_timestamp_overridden() {
    let mut serializer =
        ThinEdgeJsonSerializer::new_with_timestamp(Some("2021-04-08T00:00:00+05:00".to_owned()));
    serializer.timestamp("2022-01-01T00:00:00+00:00").unwrap();
    let output = serializer.into_string().unwrap();
    assert_eq!(output, r#"{"time":"2022-01-01T00:00:00+00:00"}"#);
}

#[test]
fn serialize_escapes_keys() {
    let mut serializer = ThinEdgeJsonSerializer::new();
    serializer.measurement("a\"b\\c\nd", "1.5").unwrap();
    let output = serializer.into_string().unwrap();
    assert_eq!(output, "{\"a\\\"b\\\\c\\nd\":1.5}");
}

#[test]
fn serialize_group_then_scalar() {
    let mut serializer = ThinEdgeJsonSerializer::new();
    serializer.start_group("location").unwrap();
    serializer.measurement("alti", "2100.4").unwrap();
    serializer.end_group().unwrap();
    serializer.measurement("pressure", "255.0").unwrap();
    let output = serializer.into_string().unwrap();
    assert_eq!(output, r#"{"location":{"alti":2100.4},"pressure":255.0}"#);
}

#[test]
fn serialize_bytes_matches_string() {
    let mut serializer = ThinEdgeJsonSerializer::new();
    serializer.measurement("temperature", "25.5").unwrap();
    let bytes = serializer.bytes().unwrap();
    assert_eq!(bytes, br#"{"temperature":25.5}"#.to_vec());
}

#[test]
fn error_messages_are_exact() {
    assert_eq!(
        MeasurementStreamError::UnexpectedTimestamp.message(),
        "Unexpected time stamp within a group"
    );
    assert_eq!(
        MeasurementStreamError::UnexpectedEndOfData.message(),
        "Unexpected end of data"
    );
    assert_eq!(
        MeasurementStreamError::UnexpectedEndOfGroup.message(),
        "Unexpected end of group"
    );
    assert_eq!(
        MeasurementStreamError::UnexpectedStartOfGroup.message(),
        "Unexpected start of group"
    );
}

#[test]
fn default_serializer_is_fresh() {
    let serializer = ThinEdgeJsonSerializer::default();
    assert_eq!(serializer.into_string().unwrap(), "{}");
}

use media_pipeline::json::JsonValue;
use media_pipeline::probe::{
    arguments, interpret, kind_of, read_output, read_stream, ProbeError, StreamInfo, StreamKind,
};

fn text(s: &str) -> JsonValue {
    JsonValue::Text(s.to_string())
}

fn object(entries: Vec<(&str, JsonValue)>) -> JsonValue {
    JsonValue::Object(entries.into_iter().map(|(k, v)| (k.to_string(), v)).collect())
}

#[test]
fn arguments_ask_for_json_with_duration_and_streams() {
    assert_eq!(
        arguments("/tmp/in.mp4"),
        vec![
            "-v",
            "quiet",
            "-print_format",
            "json",
            "-show_entries",
            "format=duration,bit_rate",
            "-show_streams",
            "-of",
            "json",
            "/tmp/in.mp4",
        ]
    );
}

#[test]
fn kind_of_knows_audio_and_video() {
    assert_eq!(kind_of("audio"), StreamKind::Audio);
    assert_eq!(kind_of("video"), StreamKind::Video);
    assert_eq!(kind_of("subtitle"), StreamKind::Other);
    assert_eq!(kind_of("data"), StreamKind::Other);
    assert_eq!(kind_of("AUDIO"), StreamKind::Other);
    assert_eq!(kind_of(""), StreamKind::Other);
}

#[test]
fn read_output_of_a_typical_file() {
    let output = r#"{
        "streams": [
            {"index": 0, "codec_name": "h264", "codec_type": "video", "bit_rate": "2500000",
             "disposition": {"default": 1}, "tags": {"language": "und"}},
            {"index": 1, "codec_name": "aac", "codec_type": "audio", "bit_rate": "160000"},
            {"index": 2, "codec_name": "bin_data", "codec_type": "data"}
        ],
        "format": {"duration": "60.024000", "bit_rate": "2667000"}
    }"#;
    let info = read_output(true, output).unwrap();
    assert_eq!(info.duration_seconds, 60);
    assert_eq!(
        info.streams,
        vec![
            StreamInfo { kind: StreamKind::Video, bitrate: Some(2_500_000) },
            StreamInfo { kind: StreamKind::Audio, bitrate: Some(160_000) },
            StreamInfo { kind: StreamKind::Other, bitrate: None },
        ]
    );
}

#[test]
fn read_output_of_a_failed_run() {
    let output = r#"{"streams": [{"codec_type": "video"}], "format": {"duration": "1.0"}}"#;
    assert_eq!(read_output(false, output).unwrap_err(), ProbeError::ToolFailed);
    assert_eq!(read_output(false, "").unwrap_err(), ProbeError::ToolFailed);
}

#[test]
fn read_output_that_is_not_json() {
    assert_eq!(read_output(true, "").unwrap_err(), ProbeError::Malformed);
    assert_eq!(read_output(true, "duration=60").unwrap_err(), ProbeError::Malformed);
    assert_eq!(read_output(true, "{\"format\": ").unwrap_err(), ProbeError::Malformed);
}

#[test]
fn read_output_that_is_json_of_another_shape() {
    assert_eq!(read_output(true, "[]").unwrap_err(), ProbeError::MissingField);
    assert_eq!(read_output(true, "{}").unwrap_err(), ProbeError::MissingField);
    assert_eq!(read_output(true, "\"format\"").unwrap_err(), ProbeError::MissingField);
}

#[test]
fn read_output_without_audio_or_video() {
    let none = r#"{"streams": [], "format": {"duration": "60.0"}}"#;
    assert_eq!(read_output(true, none).unwrap_err(), ProbeError::NoStreams);
    let other = r#"{"streams": [{"codec_type": "data"}, {"codec_type": "subtitle"}],
                    "format": {"duration": "60.0"}}"#;
    assert_eq!(read_output(true, other).unwrap_err(), ProbeError::NoStreams);
}

#[test]
fn read_output_reads_nested_documents() {
    let output = r#"{"programs": [[{"a": [1, 2.5, null, true, "x", {"b": []}]}]],
                     "streams": [{"codec_type": "audio", "bit_rate": "1",
                                  "tags": {"a": {"b": {"c": ["d"]}}}}],
                     "format": {"duration": "3", "tags": {"title": "t"}, "nb_streams": 1}}"#;
    let info = read_output(true, output).unwrap();
    assert_eq!(info.duration_seconds, 3);
    assert_eq!(info.streams, vec![StreamInfo { kind: StreamKind::Audio, bitrate: Some(1) }]);
}

#[test]
fn read_output_wants_strings_where_it_reads_numbers() {
    let number = r#"{"streams": [{"codec_type": "audio"}], "format": {"duration": 60}}"#;
    assert_eq!(read_output(true, number).unwrap_err(), ProbeError::Malformed);
    let null = r#"{"streams": [{"codec_type": "audio"}], "format": {"duration": null}}"#;
    assert_eq!(read_output(true, null).unwrap_err(), ProbeError::Malformed);
    let bitrate = r#"{"streams": [{"codec_type": "audio", "bit_rate": 160000}],
                      "format": {"duration": "60"}}"#;
    assert_eq!(read_output(true, bitrate).unwrap_err(), ProbeError::Malformed);
    let list = r#"{"streams": {"codec_type": "audio"}, "format": {"duration": "60"}}"#;
    assert_eq!(read_output(true, list).unwrap_err(), ProbeError::Malformed);
    let kind = r#"{"streams": [{"codec_type": ["audio"]}], "format": {"duration": "60"}}"#;
    assert_eq!(read_output(true, kind).unwrap_err(), ProbeError::Malformed);
    let entry = r#"{"streams": ["audio"], "format": {"duration": "60"}}"#;
    assert_eq!(read_output(true, entry).unwrap_err(), ProbeError::MissingField);
}

#[test]
fn read_output_takes_the_last_of_a_repeated_key() {
    let output = r#"{"streams": [{"codec_type": "data", "codec_type": "audio"}],
                     "format": {"duration": "1", "duration": "2"}}"#;
    let info = read_output(true, output).unwrap();
    assert_eq!(info.duration_seconds, 2);
    assert_eq!(info.streams, vec![StreamInfo { kind: StreamKind::Audio, bitrate: None }]);
}

#[test]
fn interpret_needs_the_duration() {
    let streams = JsonValue::Array(vec![object(vec![("codec_type", text("video"))])]);
    let no_format = object(vec![("streams", streams)]);
    assert_eq!(interpret(&no_format).unwrap_err(), ProbeError::MissingField);

    let streams = JsonValue::Array(vec![object(vec![("codec_type", text("video"))])]);
    let no_duration = object(vec![("format", object(vec![])), ("streams", streams)]);
    assert_eq!(interpret(&no_duration).unwrap_err(), ProbeError::MissingField);

    let streams = JsonValue::Array(vec![object(vec![("codec_type", text("video"))])]);
    let number = object(vec![
        ("format", object(vec![("duration", JsonValue::Other)])),
        ("streams", streams),
    ]);
    assert_eq!(interpret(&number).unwrap_err(), ProbeError::Malformed);

    let streams = JsonValue::Array(vec![object(vec![("codec_type", text("video"))])]);
    let words = object(vec![
        ("format", object(vec![("duration", text("N/A"))])),
        ("streams", streams),
    ]);
    assert_eq!(interpret(&words).unwrap_err(), ProbeError::Malformed);
}

#[test]
fn interpret_needs_the_stream_list() {
    let format = object(vec![("duration", text("60.0"))]);
    let no_streams = object(vec![("format", format)]);
    assert_eq!(interpret(&no_streams).unwrap_err(), ProbeError::MissingField);

    let format = object(vec![("duration", text("60.0"))]);
    let not_a_list = object(vec![("format", format), ("streams", text("none"))]);
    assert_eq!(interpret(&not_a_list).unwrap_err(), ProbeError::Malformed);
}

#[test]
fn interpret_reports_the_duration_before_the_streams() {
    let document = object(vec![("streams", text("none"))]);
    assert_eq!(interpret(&document).unwrap_err(), ProbeError::MissingField);
    let document = object(vec![
        ("format", object(vec![("duration", text("soon"))])),
        ("streams", JsonValue::Other),
    ]);
    assert_eq!(interpret(&document).unwrap_err(), ProbeError::Malformed);
}

#[test]
fn interpret_reports_the_first_stream_that_cannot_be_read() {
    let format = object(vec![("duration", text("60.0"))]);
    let streams = JsonValue::Array(vec![
        object(vec![("codec_type", text("video"))]),
        object(vec![("codec_type", text("audio")), ("bit_rate", text("fast"))]),
        object(vec![("index", JsonValue::Other)]),
    ]);
    let document = object(vec![("format", format), ("streams", streams)]);
    assert_eq!(interpret(&document).unwrap_err(), ProbeError::Malformed);

    let format = object(vec![("duration", text("60.0"))]);
    let streams = JsonValue::Array(vec![
        object(vec![("index", JsonValue::Other)]),
        object(vec![("codec_type", text("audio")), ("bit_rate", text("fast"))]),
    ]);
    let document = object(vec![("format", format), ("streams", streams)]);
    assert_eq!(interpret(&document).unwrap_err(), ProbeError::MissingField);
}

#[test]
fn interpret_keeps_streams_of_other_kinds() {
    let format = object(vec![("duration", text("5"))]);
    let streams = JsonValue::Array(vec![
        object(vec![("codec_type", text("subtitle"))]),
        object(vec![("codec_type", text("video")), ("bit_rate", text("900000"))]),
    ]);
    let document = object(vec![("format", format), ("streams", streams)]);
    let info = interpret(&document).unwrap();
    assert_eq!(info.duration_seconds, 5);
    assert_eq!(
        info.streams,
        vec![
            StreamInfo { kind: StreamKind::Other, bitrate: None },
            StreamInfo { kind: StreamKind::Video, bitrate: Some(900_000) },
        ]
    );
}

#[test]
fn read_stream_reads_kind_and_bitrate() {
    let entry = object(vec![("codec_type", text("audio")), ("bit_rate", text("160000"))]);
    assert_eq!(
        read_stream(&entry),
        Ok(StreamInfo { kind: StreamKind::Audio, bitrate: Some(160_000) })
    );
    let entry = object(vec![("codec_type", text("video"))]);
    assert_eq!(read_stream(&entry), Ok(StreamInfo { kind: StreamKind::Video, bitrate: None }));
}

#[test]
fn read_stream_rejects_entries_of_another_shape() {
    assert_eq!(read_stream(&JsonValue::Other), Err(ProbeError::MissingField));
    assert_eq!(read_stream(&object(vec![])), Err(ProbeError::MissingField));
    let entry = object(vec![("codec_type", JsonValue::Other)]);
    assert_eq!(read_stream(&entry), Err(ProbeError::Malformed));
    let entry = object(vec![
        ("codec_type", text("audio")),
        ("bit_rate", JsonValue::Other),
    ]);
    assert_eq!(read_stream(&entry), Err(ProbeError::Malformed));
    let entry = object(vec![("codec_type", text("audio")), ("bit_rate", text("N/A"))]);
    assert_eq!(read_stream(&entry), Err(ProbeError::Malformed));
}

#[test]
fn member_finds_the_first_entry_under_a_key() {
    let value = object(vec![("a", text("1")), ("b", text("2")), ("a", text("3"))]);
    assert_eq!(value.member("a").and_then(|v| v.as_text()), Some("1"));
    assert_eq!(value.member("b").and_then(|v| v.as_text()), Some("2"));
    assert!(value.member("c").is_none());
    assert!(text("a").member("a").is_none());
    assert!(JsonValue::Array(vec![text("a")]).member("a").is_none());
}

#[test]
fn as_text_and_as_items_tell_the_variants_apart() {
    assert_eq!(text("x").as_text(), Some("x"));
    assert!(JsonValue::Other.as_text().is_none());
    assert_eq!(JsonValue::Array(vec![text("x")]).as_items().map(|v| v.len()), Some(1));
    assert!(text("x").as_items().is_none());
    assert!(object(vec![]).as_items().is_none());
}

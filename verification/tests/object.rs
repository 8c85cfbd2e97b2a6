use media_pipeline::object::{
    listing, retention_expiry, temp_suffix, to_displayed_size, to_stored_size, NewObject, Object,
    User, UserChange, RETENTION_SECONDS,
};
use media_pipeline::bitrate::BitrateError;
use media_pipeline::pp::{PassIdentity, PipelineError};
use media_pipeline::encoder::EncodePass;
use media_pipeline::probe::ProbeError;
use media_pipeline::sharex::{Arguments, ReturnedData, XBackboneShareXData};

fn artifact(id: i32, name: &str) -> Object {
    Object {
        id,
        path: "/tmp/in.mp4".to_string(),
        name: name.to_string(),
        size: 1,
        expiry_unix: 0,
        user: 42,
    }
}

#[test]
fn clone_keeps_every_field() {
    let object = artifact(3, "clip");
    let copy = object.clone();
    assert_eq!(copy.id, 3);
    assert_eq!(copy.path, "/tmp/in.mp4");
    assert_eq!(copy.name, "clip");
    assert_eq!(copy.size, 1);
    assert_eq!(copy.expiry_unix, 0);
    assert_eq!(copy.user, 42);
    let user = User { snowflake: 7, name_cached: Some("someone".to_string()) };
    let copy = user.clone();
    assert_eq!(copy.snowflake, 7);
    assert_eq!(copy.name_cached.as_deref(), Some("someone"));
    let nameless = User { snowflake: 8, name_cached: None }.clone();
    assert_eq!(nameless.snowflake, 8);
    assert_eq!(nameless.name_cached, None);
}

#[test]
fn sizes_are_stored_bit_for_bit() {
    assert_eq!(to_stored_size(0), 0);
    assert_eq!(to_stored_size(9_000_000), 9_000_000);
    assert_eq!(to_stored_size(i64::MAX as u64), i64::MAX);
    assert_eq!(to_stored_size(i64::MAX as u64 + 1), i64::MIN);
    assert_eq!(to_stored_size(u64::MAX), -1);
    assert_eq!(to_displayed_size(-1), u64::MAX);
    assert_eq!(to_displayed_size(i64::MIN), i64::MAX as u64 + 1);
    assert_eq!(to_displayed_size(5), 5);
    for size in [0, 1, 9_500_000, i64::MAX as u64, i64::MAX as u64 + 1, u64::MAX] {
        assert_eq!(to_displayed_size(to_stored_size(size)), size);
    }
}

#[test]
fn temp_suffix_puts_a_point_in_front() {
    assert_eq!(temp_suffix("mp4"), ".mp4");
    assert_eq!(temp_suffix(""), ".");
}

#[test]
fn at_path_fills_in_nothing_else() {
    let object = NewObject::at_path("/tmp/out.mp4".to_string());
    assert_eq!(object.path, "/tmp/out.mp4");
    assert_eq!(object.name, "");
    assert_eq!(object.size, 0);
    assert_eq!(object.expiry_unix, 0);
    assert_eq!(object.user, 0);
}

#[test]
fn downloads_are_kept_for_seven_days() {
    assert_eq!(RETENTION_SECONDS, 7 * 24 * 60 * 60);
    assert_eq!(retention_expiry(1_700_000_000), Some(1_700_604_800));
    assert_eq!(retention_expiry(0), Some(604_800));
    assert_eq!(retention_expiry(i64::MAX as u64 - 604_800), Some(i64::MAX));
    assert_eq!(retention_expiry(i64::MAX as u64 - 604_799), None);
    assert_eq!(retention_expiry(u64::MAX), None);
}

#[test]
fn downloaded_fills_in_the_record() {
    let object = NewObject::downloaded(
        "/tmp/x.mp4".to_string(),
        "A day out".to_string(),
        20_000_000,
        1_700_000_000,
        42,
    )
    .unwrap();
    assert_eq!(object.path, "/tmp/x.mp4");
    assert_eq!(object.name, "A day out");
    assert_eq!(object.size, 20_000_000);
    assert_eq!(object.expiry_unix, 1_700_604_800);
    assert_eq!(object.user, 42);
    assert!(NewObject::downloaded(String::new(), String::new(), 0, u64::MAX, 0).is_none());
}

#[test]
fn get_or_create_returns_a_stored_user_as_stored() {
    let stored = User { snowflake: 7, name_cached: Some("old".to_string()) };
    let (user, change) = User::get_or_create(7, "old", Some(stored));
    assert_eq!(user.snowflake, 7);
    assert_eq!(user.name_cached.as_deref(), Some("old"));
    assert_eq!(change, UserChange::Unchanged);

    let stored = User { snowflake: 7, name_cached: Some("old".to_string()) };
    let (user, change) = User::get_or_create(7, "new", Some(stored));
    assert_eq!(user.name_cached.as_deref(), Some("old"));
    assert_eq!(change, UserChange::UpdateName);

    let stored = User { snowflake: 7, name_cached: None };
    let (user, change) = User::get_or_create(7, "new", Some(stored));
    assert_eq!(user.name_cached, None);
    assert_eq!(change, UserChange::UpdateName);
}

#[test]
fn get_or_create_makes_a_user_where_none_is_stored() {
    let (user, change) = User::get_or_create(7, "new", None);
    assert_eq!(user.snowflake, 7);
    assert_eq!(user.name_cached.as_deref(), Some("new"));
    assert_eq!(change, UserChange::Insert);
}

#[test]
fn listing_has_one_line_per_artifact() {
    assert_eq!(listing(&vec![]), "You own the following objects: ");
    assert_eq!(
        listing(&vec![artifact(3, "clip"), artifact(-4, ""), artifact(12, "a (compressed)")]),
        "You own the following objects: ([3]-clip)\n([-4]-)\n([12]-a (compressed))\n"
    );
}

#[test]
fn upload_request_posts_token_and_file() {
    let config = XBackboneShareXData {
        request_url: "https://files.example.org/upload".to_string(),
        file_form_name: "upload".to_string(),
        arguments: Arguments { token: "SECRET".to_string() },
    };
    let request = config.upload_request();
    assert_eq!(request.url, "https://files.example.org/upload");
    assert_eq!(request.text_fields, vec![("token".to_string(), "SECRET".to_string())]);
    assert_eq!(request.file_field, "file");
}

#[test]
fn configurations_compare_field_by_field() {
    let config = XBackboneShareXData {
        request_url: "https://files.example.org/upload".to_string(),
        file_form_name: "upload".to_string(),
        arguments: Arguments { token: "one".to_string() },
    };
    let mut other = config.clone();
    assert_eq!(config, other);
    other.arguments.token = "two".to_string();
    assert_ne!(config, other);
    assert_eq!(XBackboneShareXData::default().request_url, "");
    assert_eq!(Arguments::default(), Arguments { token: String::new() });
    assert_eq!(ReturnedData::default(), ReturnedData { url: String::new() });
    let answer = ReturnedData { url: "https://files.example.org/abc".to_string() };
    assert_eq!(answer.clone(), answer);
}

#[test]
fn errors_describe_themselves() {
    assert_eq!(PipelineError::RetryBudgetExhausted.describe(), "Failed to shrink after 3 passes");
    assert_eq!(PipelineError::ProbeError(ProbeError::ToolFailed).describe(), "ffprobe failed");
    assert_eq!(
        PipelineError::ProbeError(ProbeError::NoStreams).describe(),
        "No streams found in ffprobe output"
    );
    assert_eq!(PipelineError::EncodeError(EncodePass::Analysis).describe(), "ffmpeg pass 1 failed");
    assert_eq!(PipelineError::EncodeError(EncodePass::Final).describe(), "ffmpeg pass 2 failed");
    assert_eq!(
        PipelineError::ProbeError(ProbeError::Malformed).describe(),
        "ffprobe output could not be read"
    );
    assert_eq!(
        PipelineError::ProbeError(ProbeError::MissingField).describe(),
        "ffprobe output is incomplete"
    );
    assert_eq!(
        PipelineError::BitrateComputationError(BitrateError::ZeroDuration).describe(),
        "The media has no duration"
    );
    assert_eq!(
        PipelineError::BitrateComputationError(BitrateError::AudioExceedsBudget).describe(),
        "The audio alone exceeds the target size"
    );
    assert_eq!(
        PipelineError::BitrateComputationError(BitrateError::OutOfRange).describe(),
        "The video bitrate is out of range"
    );
    assert_eq!(
        PipelineError::UnknownPassIdentity(PassIdentity::Custom(4)).describe(),
        "A pass was queued that is not registered"
    );
    assert_eq!(PipelineError::OutOfTurn.describe(), "An event arrived out of turn");
}

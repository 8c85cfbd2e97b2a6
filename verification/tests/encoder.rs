use media_pipeline::bitrate::BitrateError;
use media_pipeline::encoder::{
    analysis_arguments, audio_target, encode_target, final_arguments, EncodeTarget,
};
use media_pipeline::probe::{MediaInfo, StreamInfo, StreamKind};

fn audio(bitrate: Option<u64>) -> StreamInfo {
    StreamInfo { kind: StreamKind::Audio, bitrate }
}

fn video(bitrate: Option<u64>) -> StreamInfo {
    StreamInfo { kind: StreamKind::Video, bitrate }
}

#[test]
fn audio_target_clamps_the_measured_bitrate() {
    assert_eq!(audio_target(&vec![video(Some(2_000_000)), audio(Some(160_000))]), 128_000);
    assert_eq!(audio_target(&vec![audio(Some(96_000)), video(Some(2_000_000))]), 96_000);
}

#[test]
fn audio_target_follows_the_last_audio_stream_with_a_bitrate() {
    assert_eq!(audio_target(&vec![audio(Some(64_000)), audio(Some(96_000))]), 96_000);
    assert_eq!(audio_target(&vec![audio(Some(64_000)), audio(None)]), 64_000);
    assert_eq!(audio_target(&vec![audio(Some(320_000)), audio(Some(64_000))]), 64_000);
}

#[test]
fn audio_target_is_zero_without_a_measured_audio_bitrate() {
    assert_eq!(audio_target(&vec![]), 0);
    assert_eq!(audio_target(&vec![video(Some(2_000_000))]), 0);
    assert_eq!(audio_target(&vec![audio(None)]), 0);
    assert_eq!(
        audio_target(&vec![StreamInfo { kind: StreamKind::Other, bitrate: Some(5) }]),
        0
    );
}

#[test]
fn encode_target_of_a_one_minute_clip() {
    let media = MediaInfo {
        duration_seconds: 60,
        streams: vec![video(Some(2_500_000)), audio(Some(160_000))],
    };
    assert_eq!(
        encode_target(8_550_000, &media),
        Ok(EncodeTarget { target_video_bitrate: 1_012_000, target_audio_bitrate: 128_000 })
    );
}

#[test]
fn encode_target_without_audio() {
    let media = MediaInfo { duration_seconds: 10, streams: vec![video(None)] };
    assert_eq!(
        encode_target(1_000_000, &media),
        Ok(EncodeTarget { target_video_bitrate: 800_000, target_audio_bitrate: 0 })
    );
}

#[test]
fn encode_target_passes_bitrate_errors_on() {
    let still = MediaInfo { duration_seconds: 0, streams: vec![video(None)] };
    assert_eq!(encode_target(1_000_000, &still), Err(BitrateError::ZeroDuration));
    let long = MediaInfo { duration_seconds: 3_600, streams: vec![audio(Some(128_000))] };
    assert_eq!(encode_target(1_000_000, &long), Err(BitrateError::AudioExceedsBudget));
}

#[test]
fn analysis_pass_is_video_only_and_discarded() {
    let target = EncodeTarget { target_video_bitrate: 1_012_000, target_audio_bitrate: 128_000 };
    assert_eq!(
        analysis_arguments("/tmp/in.mp4", &target, "/dev/null"),
        vec![
            "-y", "-nostdin", "-i", "/tmp/in.mp4", "-preset", "veryfast", "-c:v", "libx264",
            "-b:v", "1012000", "-pass", "1", "-an", "-f", "null", "/dev/null",
        ]
    );
}

#[test]
fn final_pass_encodes_audio_and_writes_the_output() {
    let target = EncodeTarget { target_video_bitrate: 1_012_000, target_audio_bitrate: 128_000 };
    assert_eq!(
        final_arguments("/tmp/in.mp4", &target, "/tmp/out.mp4"),
        vec![
            "-y", "-nostdin", "-i", "/tmp/in.mp4", "-preset", "veryfast", "-c:v", "libx264",
            "-b:v", "1012000", "-pass", "2", "-c:a", "aac", "-b:a", "128000", "/tmp/out.mp4",
        ]
    );
}

#[test]
fn both_passes_share_input_preset_and_video_bitrate() {
    let target = EncodeTarget { target_video_bitrate: 5, target_audio_bitrate: 0 };
    let first = analysis_arguments("a b.mkv", &target, "NUL");
    let second = final_arguments("a b.mkv", &target, "out.mp4");
    assert_eq!(first[..11], second[..11]);
    assert_eq!(first[9], "5");
    assert_eq!(second[15], "0");
}

//! The two-pass encode: what bitrates to aim for and how to invoke the
//! encoder for the analysis pass and for the final pass.

use vstd::prelude::*;
use crate::bitrate::{clamp_audio, clamp_audio_spec, compute, compute_spec, BitrateError};
use crate::probe::{MediaInfo, MediaSummary, StreamInfo, StreamKind};
use crate::text::{decimal_text, decimal_text_spec, push_text, texts};

verus! {

/// Bitrates, in bits per second, for one encode.
#[derive(Clone, Copy, Debug, PartialEq, Eq, Structural)]
pub struct EncodeTarget {
    pub target_video_bitrate: u64,
    pub target_audio_bitrate: u64,
}

/// Which of the two encoder invocations is meant.
#[derive(Clone, Copy, Debug, PartialEq, Eq, Structural)]
pub enum EncodePass {
    /// Video only, output discarded.
    Analysis,
    /// Video and audio, output kept.
    Final,
}

/// The audio bitrate to aim for: the clamped bitrate of the last audio
/// stream that reports one, or zero where no audio stream does.
pub open spec fn audio_target_spec(streams: Seq<StreamInfo>) -> u64
    decreases streams.len(),
{
    if streams.len() == 0 {
        0
    } else {
        let last = streams.last();
        if last.kind == StreamKind::Audio && last.bitrate is Some {
            clamp_audio_spec(last.bitrate->0)
        } else {
            audio_target_spec(streams.drop_last())
        }
    }
}

/// The bitrates that bring `media` to `target_size` bytes.
pub open spec fn encode_target_spec(target_size: u64, media: MediaSummary) -> Result<
    EncodeTarget,
    BitrateError,
> {
    let audio = audio_target_spec(media.streams);
    match compute_spec(target_size as nat, media.duration_seconds as nat, audio as nat) {
        Err(e) => Err(e),
        Ok(video) => Ok(EncodeTarget { target_video_bitrate: video, target_audio_bitrate: audio }),
    }
}

/// What both invocations have in common.
pub open spec fn common_arguments(input: Seq<char>, video_bitrate: u64) -> Seq<Seq<char>> {
    seq![
        "-y"@,
        "-nostdin"@,
        "-i"@,
        input,
        "-preset"@,
        "veryfast"@,
        "-c:v"@,
        "libx264"@,
        "-b:v"@,
        decimal_text_spec(video_bitrate as nat),
        "-pass"@,
    ]
}

/// The analysis pass: video only, written to `discard`.
pub open spec fn analysis_arguments_spec(
    input: Seq<char>,
    target: EncodeTarget,
    discard: Seq<char>,
) -> Seq<Seq<char>> {
    common_arguments(input, target.target_video_bitrate) + seq![
        "1"@,
        "-an"@,
        "-f"@,
        "null"@,
        discard,
    ]
}

/// The final pass: video and audio, written to `output`.
pub open spec fn final_arguments_spec(
    input: Seq<char>,
    target: EncodeTarget,
    output: Seq<char>,
) -> Seq<Seq<char>> {
    common_arguments(input, target.target_video_bitrate) + seq![
        "2"@,
        "-c:a"@,
        "aac"@,
        "-b:a"@,
        decimal_text_spec(target.target_audio_bitrate as nat),
        output,
    ]
}

/// The audio bitrate to aim for, given the streams of the file.
pub fn audio_target(streams: &Vec<StreamInfo>) -> (r: u64)
    ensures
        r == audio_target_spec(streams@),
{
    let mut r: u64 = 0;
    let mut i: usize = 0;
    assert(streams@.take(0) == Seq::<StreamInfo>::empty());
    while i < streams.len()
        invariant
            i <= streams.len(),
            r == audio_target_spec(streams@.take(i as int)),
        decreases streams.len() - i,
    {
        let ghost longer = streams@.take(i as int + 1);
        assert(longer.drop_last() == streams@.take(i as int));
        assert(longer.last() == streams@[i as int]);
        let stream = streams[i];
        if matches!(stream.kind, StreamKind::Audio) {
            if let Some(bitrate) = stream.bitrate {
                r = clamp_audio(bitrate);
            }
        }
        i += 1;
    }
    assert(streams@.take(streams@.len() as int) == streams@);
    r
}

/// Derives the bitrates for one encode from fresh measurements.
pub fn encode_target(target_size: u64, media: &MediaInfo) -> (r: Result<EncodeTarget, BitrateError>)
    ensures
        r == encode_target_spec(target_size, media@),
{
    let audio = audio_target(&media.streams);
    match compute(target_size, media.duration_seconds, audio) {
        Err(e) => Err(e),
        Ok(video) => Ok(EncodeTarget { target_video_bitrate: video, target_audio_bitrate: audio }),
    }
}

fn common(input: &str, video_bitrate: u64) -> (r: Vec<String>)
    ensures
        texts(r@) == common_arguments(input@, video_bitrate),
{
    let mut r: Vec<String> = Vec::new();
    assert(texts(r@) =~= Seq::<Seq<char>>::empty());
    push_text(&mut r, "-y");
    push_text(&mut r, "-nostdin");
    push_text(&mut r, "-i");
    push_text(&mut r, input);
    push_text(&mut r, "-preset");
    push_text(&mut r, "veryfast");
    push_text(&mut r, "-c:v");
    push_text(&mut r, "libx264");
    push_text(&mut r, "-b:v");
    let video = decimal_text(video_bitrate);
    push_text(&mut r, video.as_str());
    push_text(&mut r, "-pass");
    assert(texts(r@) =~= common_arguments(input@, video_bitrate));
    r
}

/// Builds the encoder's command line for the analysis pass.
pub fn analysis_arguments(input: &str, target: &EncodeTarget, discard: &str) -> (r: Vec<String>)
    ensures
        texts(r@) == analysis_arguments_spec(input@, *target, discard@),
{
    let mut r = common(input, target.target_video_bitrate);
    push_text(&mut r, "1");
    push_text(&mut r, "-an");
    push_text(&mut r, "-f");
    push_text(&mut r, "null");
    push_text(&mut r, discard);
    assert(texts(r@) =~= analysis_arguments_spec(input@, *target, discard@));
    r
}

/// Builds the encoder's command line for the final pass.
pub fn final_arguments(input: &str, target: &EncodeTarget, output: &str) -> (r: Vec<String>)
    ensures
        texts(r@) == final_arguments_spec(input@, *target, output@),
{
    let mut r = common(input, target.target_video_bitrate);
    push_text(&mut r, "2");
    push_text(&mut r, "-c:a");
    push_text(&mut r, "aac");
    push_text(&mut r, "-b:a");
    let audio = decimal_text(target.target_audio_bitrate);
    push_text(&mut r, audio.as_str());
    push_text(&mut r, output);
    assert(texts(r@) =~= final_arguments_spec(input@, *target, output@));
    r
}

/// Both invocations work on the same input with the same preset, codec
/// and video bitrate; they part ways only after `-pass`.
pub proof fn lemma_passes_share_their_start(
    input: Seq<char>,
    target: EncodeTarget,
    discard: Seq<char>,
    output: Seq<char>,
)
    ensures
        common_arguments(input, target.target_video_bitrate).len() == 11,
        analysis_arguments_spec(input, target, discard).take(11) == common_arguments(
            input,
            target.target_video_bitrate,
        ),
        final_arguments_spec(input, target, output).take(11) == common_arguments(
            input,
            target.target_video_bitrate,
        ),
        analysis_arguments_spec(input, target, discard)[11] == "1"@,
        final_arguments_spec(input, target, output)[11] == "2"@,
        analysis_arguments_spec(input, target, discard).last() == discard,
        final_arguments_spec(input, target, output).last() == output,
{
}

} // verus!

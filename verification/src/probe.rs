//! Reading what the media prober reports: the duration of a file and the
//! kind and bitrate of each of its streams.

use vstd::prelude::*;
use crate::json::{json_reading, lemma_models_of, models_of, read_json, JsonModel, JsonValue};
use crate::text::{
    parse_seconds, parse_seconds_spec, parse_u64, parse_u64_spec, push_text, same_text, texts,
};

verus! {

/// What a stream carries.
#[derive(Clone, Copy, Debug, PartialEq, Eq, Structural)]
pub enum StreamKind {
    Audio,
    Video,
    Other,
}

/// One stream of a media file.
#[derive(Clone, Copy, Debug, PartialEq, Eq, Structural)]
pub struct StreamInfo {
    pub kind: StreamKind,
    /// Bits per second, where the prober reports it.
    pub bitrate: Option<u64>,
}

/// Duration and streams of a media file.
#[derive(Debug)]
pub struct MediaInfo {
    pub duration_seconds: u64,
    pub streams: Vec<StreamInfo>,
}

/// `MediaInfo` as a mathematical value.
pub struct MediaSummary {
    pub duration_seconds: u64,
    pub streams: Seq<StreamInfo>,
}

impl View for MediaInfo {
    type V = MediaSummary;

    open spec fn view(&self) -> MediaSummary {
        MediaSummary { duration_seconds: self.duration_seconds, streams: self.streams@ }
    }
}

/// Why a file could not be probed.
#[derive(Clone, Copy, Debug, PartialEq, Eq, Structural)]
pub enum ProbeError {
    /// The prober exited with a failure status.
    ToolFailed,
    /// The output is not JSON, or a field does not have the expected form.
    Malformed,
    /// A required field is absent.
    MissingField,
    /// The file has neither an audio nor a video stream.
    NoStreams,
}

/// The kind that a `codec_type` names.
pub open spec fn kind_of_spec(codec_type: Seq<char>) -> StreamKind {
    if codec_type == "audio"@ {
        StreamKind::Audio
    } else if codec_type == "video"@ {
        StreamKind::Video
    } else {
        StreamKind::Other
    }
}

/// The optional `bit_rate` of a stream entry: absent, or a string-encoded
/// unsigned integer.
pub open spec fn bitrate_reading(entry: JsonModel) -> Result<Option<u64>, ProbeError> {
    match entry.member("bit_rate"@) {
        None => Ok(None),
        Some(value) => match value.text() {
            None => Err(ProbeError::Malformed),
            Some(text) => match parse_u64_spec(text) {
                None => Err(ProbeError::Malformed),
                Some(bitrate) => Ok(Some(bitrate)),
            },
        },
    }
}

/// One entry of the stream list.
pub open spec fn stream_reading(entry: JsonModel) -> Result<StreamInfo, ProbeError> {
    match entry.member("codec_type"@) {
        None => Err(ProbeError::MissingField),
        Some(value) => match value.text() {
            None => Err(ProbeError::Malformed),
            Some(codec_type) => match bitrate_reading(entry) {
                Err(e) => Err(e),
                Ok(bitrate) => Ok(StreamInfo { kind: kind_of_spec(codec_type), bitrate }),
            },
        },
    }
}

/// The stream list, entry by entry; the first entry that cannot be read
/// decides the error.
pub open spec fn streams_reading(entries: Seq<JsonModel>) -> Result<Seq<StreamInfo>, ProbeError>
    decreases entries.len(),
{
    if entries.len() == 0 {
        Ok(Seq::empty())
    } else {
        match streams_reading(entries.drop_last()) {
            Err(e) => Err(e),
            Ok(front) => match stream_reading(entries.last()) {
                Err(e) => Err(e),
                Ok(stream) => Ok(front.push(stream)),
            },
        }
    }
}

/// Whether some stream is audio or video.
pub open spec fn has_media(streams: Seq<StreamInfo>) -> bool {
    exists|i: int| 0 <= i < streams.len() && (#[trigger] streams[i]).kind != StreamKind::Other
}

/// The container-level duration, in whole seconds.
pub open spec fn duration_reading(document: JsonModel) -> Result<u64, ProbeError> {
    match document.member("format"@) {
        None => Err(ProbeError::MissingField),
        Some(format) => match format.member("duration"@) {
            None => Err(ProbeError::MissingField),
            Some(value) => match value.text() {
                None => Err(ProbeError::Malformed),
                Some(text) => match parse_seconds_spec(text) {
                    None => Err(ProbeError::Malformed),
                    Some(seconds) => Ok(seconds),
                },
            },
        },
    }
}

/// What a prober document says about the file.
pub open spec fn document_reading(document: JsonModel) -> Result<MediaSummary, ProbeError> {
    match duration_reading(document) {
        Err(e) => Err(e),
        Ok(duration_seconds) => match document.member("streams"@) {
            None => Err(ProbeError::MissingField),
            Some(list) => match list.items() {
                None => Err(ProbeError::Malformed),
                Some(entries) => match streams_reading(entries) {
                    Err(e) => Err(e),
                    Ok(streams) => if has_media(streams) {
                        Ok(MediaSummary { duration_seconds, streams })
                    } else {
                        Err(ProbeError::NoStreams)
                    },
                },
            },
        },
    }
}

/// What a finished prober run says about the file.
pub open spec fn output_reading(success: bool, output: Seq<char>) -> Result<
    MediaSummary,
    ProbeError,
> {
    if !success {
        Err(ProbeError::ToolFailed)
    } else {
        match json_reading(output) {
            None => Err(ProbeError::Malformed),
            Some(document) => document_reading(document),
        }
    }
}

/// The command line, after the program name, that makes the prober describe
/// `path` as JSON.
pub open spec fn arguments_spec(path: Seq<char>) -> Seq<Seq<char>> {
    seq![
        "-v"@,
        "quiet"@,
        "-print_format"@,
        "json"@,
        "-show_entries"@,
        "format=duration,bit_rate"@,
        "-show_streams"@,
        "-of"@,
        "json"@,
        path,
    ]
}

/// Builds the prober's command line for `path`.
pub fn arguments(path: &str) -> (r: Vec<String>)
    ensures
        texts(r@) == arguments_spec(path@),
{
    let mut r: Vec<String> = Vec::new();
    assert(texts(r@) =~= Seq::<Seq<char>>::empty());
    push_text(&mut r, "-v");
    push_text(&mut r, "quiet");
    push_text(&mut r, "-print_format");
    push_text(&mut r, "json");
    push_text(&mut r, "-show_entries");
    push_text(&mut r, "format=duration,bit_rate");
    push_text(&mut r, "-show_streams");
    push_text(&mut r, "-of");
    push_text(&mut r, "json");
    push_text(&mut r, path);
    assert(texts(r@) =~= arguments_spec(path@));
    r
}

/// The kind that a `codec_type` names.
pub fn kind_of(codec_type: &str) -> (r: StreamKind)
    ensures
        r == kind_of_spec(codec_type@),
{
    if same_text(codec_type, "audio") {
        StreamKind::Audio
    } else if same_text(codec_type, "video") {
        StreamKind::Video
    } else {
        StreamKind::Other
    }
}

fn read_bitrate(entry: &JsonValue) -> (r: Result<Option<u64>, ProbeError>)
    ensures
        r == bitrate_reading(entry@),
{
    match entry.member("bit_rate") {
        None => Ok(None),
        Some(value) => match value.as_text() {
            None => Err(ProbeError::Malformed),
            Some(text) => match parse_u64(text) {
                None => Err(ProbeError::Malformed),
                Some(bitrate) => Ok(Some(bitrate)),
            },
        },
    }
}

/// Reads one entry of the stream list.
pub fn read_stream(entry: &JsonValue) -> (r: Result<StreamInfo, ProbeError>)
    ensures
        r == stream_reading(entry@),
{
    match entry.member("codec_type") {
        None => Err(ProbeError::MissingField),
        Some(value) => match value.as_text() {
            None => Err(ProbeError::Malformed),
            Some(codec_type) => match read_bitrate(entry) {
                Err(e) => Err(e),
                Ok(bitrate) => Ok(StreamInfo { kind: kind_of(codec_type), bitrate }),
            },
        },
    }
}

fn read_duration(document: &JsonValue) -> (r: Result<u64, ProbeError>)
    ensures
        r == duration_reading(document@),
{
    match document.member("format") {
        None => Err(ProbeError::MissingField),
        Some(format) => match format.member("duration") {
            None => Err(ProbeError::MissingField),
            Some(value) => match value.as_text() {
                None => Err(ProbeError::Malformed),
                Some(text) => match parse_seconds(text) {
                    None => Err(ProbeError::Malformed),
                    Some(seconds) => Ok(seconds),
                },
            },
        },
    }
}

/// Reads duration and streams out of a prober document.
pub fn interpret(document: &JsonValue) -> (r: Result<MediaInfo, ProbeError>)
    ensures
        match r {
            Ok(info) => document_reading(document@) == Ok::<MediaSummary, ProbeError>(info@),
            Err(e) => document_reading(document@) == Err::<MediaSummary, ProbeError>(e),
        },
{
    let duration_seconds = match read_duration(document) {
        Err(e) => {
            return Err(e);
        },
        Ok(seconds) => seconds,
    };
    let entries = match document.member("streams") {
        None => {
            return Err(ProbeError::MissingField);
        },
        Some(list) => match list.as_items() {
            None => {
                return Err(ProbeError::Malformed);
            },
            Some(entries) => entries,
        },
    };
    let ghost models = models_of(entries@);
    let mut streams: Vec<StreamInfo> = Vec::new();
    let mut media: bool = false;
    let mut i: usize = 0;
    proof {
        lemma_models_of(entries@);
        assert(models.take(0) == Seq::<JsonModel>::empty());
    }
    while i < entries.len()
        invariant
            i <= entries.len(),
            models == models_of(entries@),
            models.len() == entries.len(),
            forall|j: int| 0 <= j < entries.len() ==> (#[trigger] models[j]) == entries@[j]@,
            duration_reading(document@) == Ok::<u64, ProbeError>(duration_seconds),
            document@.member("streams"@) matches Some(list) && list.items() == Some(models),
            streams_reading(models.take(i as int)) == Ok::<Seq<StreamInfo>, ProbeError>(streams@),
            media == has_media(streams@),
        decreases entries.len() - i,
    {
        let ghost longer = models.take(i as int + 1);
        assert(longer.drop_last() == models.take(i as int));
        assert(longer.last() == models[i as int]);
        match read_stream(&entries[i]) {
            Err(e) => {
                proof {
                    lemma_streams_reading_fails(models, i as int + 1);
                }
                return Err(e);
            },
            Ok(stream) => {
                let ghost before = streams@;
                streams.push(stream);
                proof {
                    if has_media(before) {
                        let k = choose|k: int|
                            0 <= k < before.len() && (#[trigger] before[k]).kind
                                != StreamKind::Other;
                        assert(streams@[k] == before[k]);
                    }
                    if stream.kind != StreamKind::Other {
                        assert(streams@[before.len() as int] == stream);
                    }
                    if has_media(streams@) {
                        let k = choose|k: int|
                            0 <= k < streams@.len() && (#[trigger] streams@[k]).kind
                                != StreamKind::Other;
                        if k < before.len() {
                            assert(before[k] == streams@[k]);
                        }
                    }
                }
                media = media || !matches!(stream.kind, StreamKind::Other);
            },
        }
        i += 1;
    }
    assert(models.take(models.len() as int) == models);
    if !media {
        return Err(ProbeError::NoStreams);
    }
    Ok(MediaInfo { duration_seconds, streams })
}

/// Once a prefix of the stream list cannot be read, neither can the list.
pub proof fn lemma_streams_reading_fails(entries: Seq<JsonModel>, k: int)
    requires
        0 <= k <= entries.len(),
        streams_reading(entries.take(k)) is Err,
    ensures
        streams_reading(entries) == streams_reading(entries.take(k)),
    decreases entries.len() - k,
{
    if k == entries.len() {
        assert(entries.take(k) == entries);
    } else {
        let longer = entries.take(k + 1);
        assert(longer.drop_last() == entries.take(k));
        lemma_streams_reading_fails(entries, k + 1);
    }
}

/// Reads the outcome of a prober run: its exit status and what it printed.
pub fn read_output(success: bool, output: &str) -> (r: Result<MediaInfo, ProbeError>)
    ensures
        match r {
            Ok(info) => output_reading(success, output@) == Ok::<MediaSummary, ProbeError>(info@),
            Err(e) => output_reading(success, output@) == Err::<MediaSummary, ProbeError>(e),
        },
{
    if !success {
        return Err(ProbeError::ToolFailed);
    }
    match read_json(output) {
        Err(_) => Err(ProbeError::Malformed),
        Ok(document) => interpret(&document),
    }
}

} // verus!

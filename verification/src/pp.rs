//! Passes: the unit of work the orchestrator schedules, and the
//! size-shrinking re-encode pass.
//!
//! A pass that needs outside work does not perform it. `process` and
//! `advance` say what has to happen next; the caller does it and reports
//! back with an event.

use vstd::prelude::*;
use vstd::string::*;
use crate::bitrate::{shrink_target, shrink_target_spec, BitrateError};
use crate::encoder::{
    analysis_arguments, analysis_arguments_spec, encode_target, encode_target_spec,
    final_arguments, final_arguments_spec, EncodePass, EncodeTarget,
};
use crate::object::{
    stored_size, to_stored_size, NewObject, NewObjectView, Object, ObjectView, User,
};
use crate::probe::{arguments, arguments_spec, output_reading, read_output, ProbeError};
use crate::text::{extension, extension_spec, same_text, texts};

verus! {

/// How often one pass may run within a pipeline before running it again is
/// an error.
pub const RETRY_BUDGET: usize = 3;

/// Names a pass implementation. Two passes with the same identity are the
/// same implementation.
#[derive(Clone, Copy, Debug, PartialEq, Eq, Hash, Structural)]
pub enum PassIdentity {
    /// The size-shrinking re-encode pass of this library.
    FfmpegResize,
    /// A pass supplied by the caller, under a number of the caller's choice.
    Custom(u32),
}

/// Why a pipeline stopped.
#[derive(Clone, Copy, Debug, PartialEq, Eq, Structural)]
pub enum PipelineError {
    /// The prober failed or its output could not be used.
    ProbeError(ProbeError),
    /// No sensible video bitrate exists for the target size.
    BitrateComputationError(BitrateError),
    /// The given encoder invocation exited with a failure status.
    EncodeError(EncodePass),
    /// The pass has already run `RETRY_BUDGET` times in this pipeline.
    RetryBudgetExhausted,
    /// The queue names a pass that was never registered.
    UnknownPassIdentity(PassIdentity),
    /// The event does not answer what was asked for last.
    OutOfTurn,
}

/// What to tell a person about an error.
pub open spec fn describe_spec(error: PipelineError) -> Seq<char> {
    match error {
        PipelineError::ProbeError(e) => match e {
            ProbeError::ToolFailed => "ffprobe failed"@,
            ProbeError::Malformed => "ffprobe output could not be read"@,
            ProbeError::MissingField => "ffprobe output is incomplete"@,
            ProbeError::NoStreams => "No streams found in ffprobe output"@,
        },
        PipelineError::BitrateComputationError(e) => match e {
            BitrateError::ZeroDuration => "The media has no duration"@,
            BitrateError::AudioExceedsBudget => "The audio alone exceeds the target size"@,
            BitrateError::OutOfRange => "The video bitrate is out of range"@,
        },
        PipelineError::EncodeError(EncodePass::Analysis) => "ffmpeg pass 1 failed"@,
        PipelineError::EncodeError(EncodePass::Final) => "ffmpeg pass 2 failed"@,
        PipelineError::RetryBudgetExhausted => "Failed to shrink after 3 passes"@,
        PipelineError::UnknownPassIdentity(_) => "A pass was queued that is not registered"@,
        PipelineError::OutOfTurn => "An event arrived out of turn"@,
    }
}

impl PipelineError {
    /// A sentence for people; the kind of error stays with the value.
    pub fn describe(&self) -> (r: &'static str)
        ensures
            r@ == describe_spec(*self),
    {
        match self {
            PipelineError::ProbeError(e) => match e {
                ProbeError::ToolFailed => "ffprobe failed",
                ProbeError::Malformed => "ffprobe output could not be read",
                ProbeError::MissingField => "ffprobe output is incomplete",
                ProbeError::NoStreams => "No streams found in ffprobe output",
            },
            PipelineError::BitrateComputationError(e) => match e {
                BitrateError::ZeroDuration => "The media has no duration",
                BitrateError::AudioExceedsBudget => "The audio alone exceeds the target size",
                BitrateError::OutOfRange => "The video bitrate is out of range",
            },
            PipelineError::EncodeError(EncodePass::Analysis) => "ffmpeg pass 1 failed",
            PipelineError::EncodeError(EncodePass::Final) => "ffmpeg pass 2 failed",
            PipelineError::RetryBudgetExhausted => "Failed to shrink after 3 passes",
            PipelineError::UnknownPassIdentity(_) => "A pass was queued that is not registered",
            PipelineError::OutOfTurn => "An event arrived out of turn",
        }
    }
}

/// What a pass is given: the current artifact, its owner, and the passes
/// that have run so far, oldest first.
pub struct PostProcessInput {
    pub file: Object,
    pub user: User,
    pub previous_passes: Vec<PassIdentity>,
}

/// What a pass hands back: the new artifact and the passes to queue.
pub struct PostProcessOutput {
    pub file: Object,
    pub additional_passes: Vec<PassIdentity>,
}

/// `PostProcessOutput` as a mathematical value.
pub struct PostProcessOutputView {
    pub file: ObjectView,
    pub additional_passes: Seq<PassIdentity>,
}

impl View for PostProcessOutput {
    type V = PostProcessOutputView;

    open spec fn view(&self) -> PostProcessOutputView {
        PostProcessOutputView { file: self.file@, additional_passes: self.additional_passes@ }
    }
}

/// Re-encodes media that is larger than `max_size` bytes.
pub struct FFMpegResizeProcessor {
    pub max_size: u64,
}

/// How many times `identity` occurs in `history`.
pub open spec fn occurrences(history: Seq<PassIdentity>, identity: PassIdentity) -> nat
    decreases history.len(),
{
    if history.len() == 0 {
        0
    } else {
        occurrences(history.drop_last(), identity) + if history.last() == identity {
            1nat
        } else {
            0nat
        }
    }
}

/// The file kinds the encoder can re-encode.
pub open spec fn is_reencodable_spec(kind: Seq<char>) -> bool {
    kind == "mp4"@ || kind == "mkv"@ || kind == "webm"@ || kind == "avi"@ || kind == "mov"@
        || kind == "gif"@
}

/// Whether the re-encode pass with limit `max_size` has anything to do for
/// `file`: the file is larger than the limit and of a re-encodable kind.
pub open spec fn applies(max_size: u64, file: ObjectView) -> bool {
    file.size > max_size && match extension_spec(file.path) {
        Some(kind) => is_reencodable_spec(kind),
        None => false,
    }
}

/// Counts how many times `identity` occurs in `history`.
pub fn count_occurrences(history: &Vec<PassIdentity>, identity: PassIdentity) -> (r: usize)
    ensures
        r == occurrences(history@, identity),
{
    let mut r: usize = 0;
    let mut i: usize = 0;
    assert(history@.take(0) == Seq::<PassIdentity>::empty());
    while i < history.len()
        invariant
            i <= history.len(),
            r <= i,
            r == occurrences(history@.take(i as int), identity),
        decreases history.len() - i,
    {
        let ghost longer = history@.take(i as int + 1);
        assert(longer.drop_last() == history@.take(i as int));
        assert(longer.last() == history@[i as int]);
        if history[i] == identity {
            r += 1;
        }
        i += 1;
    }
    assert(history@.take(history@.len() as int) == history@);
    r
}

/// Whether the encoder can re-encode files of this kind.
pub fn is_reencodable(kind: &str) -> (r: bool)
    ensures
        r == is_reencodable_spec(kind@),
{
    same_text(kind, "mp4") || same_text(kind, "mkv") || same_text(kind, "webm") || same_text(
        kind,
        "avi",
    ) || same_text(kind, "mov") || same_text(kind, "gif")
}

/// Where a run of the re-encode pass stands: what it is waiting for.
#[derive(Clone, Copy, Debug, PartialEq, Eq, Structural)]
pub enum ResizeStage {
    /// The prober's output.
    Probing,
    /// A fresh path for the encoded file.
    Allocating,
    /// The exit status of the analysis pass.
    Analysing,
    /// The exit status of the final pass.
    Encoding,
    /// The size of the encoded file.
    Measuring,
    /// The stored record of the encoded file.
    Storing,
    /// Nothing: the run is over.
    Finished,
}

/// One run of the re-encode pass over one artifact.
pub struct ResizeRun {
    pub max_size: u64,
    /// The artifact being re-encoded.
    pub source: Object,
    /// The owner the new artifact is stored for.
    pub owner: i64,
    /// Where the analysis pass writes what nobody reads.
    pub discard: String,
    /// The size this attempt aims for.
    pub target_size: u64,
    /// The bitrates this attempt aims for, once the file has been probed.
    pub target: EncodeTarget,
    /// The path of the encoded file, once allocated.
    pub output: String,
    /// The size of the encoded file, once measured.
    pub measured: u64,
    pub stage: ResizeStage,
}

/// What the caller reports back to a run.
pub enum ResizeEvent {
    /// The prober exited; `output` is what it printed.
    Probed { success: bool, output: String },
    /// `path` is free for the encoded file.
    Allocated { path: String },
    /// The encoder exited.
    Encoded { success: bool },
    /// The encoded file has `size` bytes.
    Measured { size: u64 },
    /// The encoded file is stored as `object`.
    Stored { object: Object },
}

/// What a run asks the caller to do next.
pub enum ResizeAction {
    /// Run the prober with these arguments.
    Probe { arguments: Vec<String> },
    /// Reserve a fresh file with this extension.
    Allocate { extension: String },
    /// Run the encoder with these arguments.
    Encode { arguments: Vec<String> },
    /// Look up the size of this file.
    Measure { path: String },
    /// Store this record.
    Store { object: NewObject },
    /// Nothing more: this is the result of the pass.
    Finish { output: PostProcessOutput },
}

/// `ResizeRun` as a mathematical value.
pub struct ResizeRunView {
    pub max_size: u64,
    pub source: ObjectView,
    pub owner: i64,
    pub discard: Seq<char>,
    pub target_size: u64,
    pub target: EncodeTarget,
    pub output: Seq<char>,
    pub measured: u64,
    pub stage: ResizeStage,
}

/// `ResizeEvent` as a mathematical value.
pub enum ResizeEventView {
    Probed { success: bool, output: Seq<char> },
    Allocated { path: Seq<char> },
    Encoded { success: bool },
    Measured { size: u64 },
    Stored { object: ObjectView },
}

/// `ResizeAction` as a mathematical value.
pub enum ResizeActionView {
    Probe { arguments: Seq<Seq<char>> },
    Allocate { extension: Seq<char> },
    Encode { arguments: Seq<Seq<char>> },
    Measure { path: Seq<char> },
    Store { object: NewObjectView },
    Finish { output: PostProcessOutputView },
}

impl View for ResizeRun {
    type V = ResizeRunView;

    open spec fn view(&self) -> ResizeRunView {
        ResizeRunView {
            max_size: self.max_size,
            source: self.source@,
            owner: self.owner,
            discard: self.discard@,
            target_size: self.target_size,
            target: self.target,
            output: self.output@,
            measured: self.measured,
            stage: self.stage,
        }
    }
}

impl View for ResizeEvent {
    type V = ResizeEventView;

    open spec fn view(&self) -> ResizeEventView {
        match self {
            ResizeEvent::Probed { success, output } => ResizeEventView::Probed {
                success: *success,
                output: output@,
            },
            ResizeEvent::Allocated { path } => ResizeEventView::Allocated { path: path@ },
            ResizeEvent::Encoded { success } => ResizeEventView::Encoded { success: *success },
            ResizeEvent::Measured { size } => ResizeEventView::Measured { size: *size },
            ResizeEvent::Stored { object } => ResizeEventView::Stored { object: object@ },
        }
    }
}

impl View for ResizeAction {
    type V = ResizeActionView;

    open spec fn view(&self) -> ResizeActionView {
        match self {
            ResizeAction::Probe { arguments } => ResizeActionView::Probe {
                arguments: texts(arguments@),
            },
            ResizeAction::Allocate { extension } => ResizeActionView::Allocate {
                extension: extension@,
            },
            ResizeAction::Encode { arguments } => ResizeActionView::Encode {
                arguments: texts(arguments@),
            },
            ResizeAction::Measure { path } => ResizeActionView::Measure { path: path@ },
            ResizeAction::Store { object } => ResizeActionView::Store { object: object@ },
            ResizeAction::Finish { output } => ResizeActionView::Finish { output: output@ },
        }
    }
}

/// The record of the encoded file: the source's name with a marker, its
/// expiry, and the new path and size.
pub open spec fn compressed_record(run: ResizeRunView, size: u64) -> NewObjectView {
    NewObjectView {
        path: run.output,
        name: run.source.name + " (compressed)"@,
        size: stored_size(size),
        expiry_unix: run.source.expiry_unix,
        user: run.owner,
    }
}

/// The passes to queue after an encode that came out at `measured` bytes:
/// the re-encode pass again where that is still too large.
pub open spec fn follow_up(max_size: u64, measured: u64) -> Seq<PassIdentity> {
    if measured > max_size {
        seq![PassIdentity::FfmpegResize]
    } else {
        Seq::empty()
    }
}

/// How a run of the re-encode pass starts.
pub open spec fn process_spec(
    max_size: u64,
    file: ObjectView,
    owner: i64,
    history: Seq<PassIdentity>,
    discard: Seq<char>,
) -> Result<(ResizeRunView, ResizeActionView), PipelineError> {
    let attempts = occurrences(history, PassIdentity::FfmpegResize);
    if attempts >= RETRY_BUDGET {
        Err(PipelineError::RetryBudgetExhausted)
    } else {
        Ok(
            (
                ResizeRunView {
                    max_size,
                    source: file,
                    owner,
                    discard,
                    target_size: shrink_target_spec(max_size as nat, attempts) as u64,
                    target: EncodeTarget { target_video_bitrate: 0, target_audio_bitrate: 0 },
                    output: Seq::empty(),
                    measured: 0,
                    stage: ResizeStage::Probing,
                },
                ResizeActionView::Probe { arguments: arguments_spec(file.path) },
            ),
        )
    }
}

/// How a run answers an event.
pub open spec fn advance_spec(run: ResizeRunView, event: ResizeEventView) -> Result<
    (ResizeRunView, ResizeActionView),
    PipelineError,
> {
    match (run.stage, event) {
        (ResizeStage::Probing, ResizeEventView::Probed { success, output }) => match output_reading(
            success,
            output,
        ) {
            Err(e) => Err(PipelineError::ProbeError(e)),
            Ok(media) => match encode_target_spec(run.target_size, media) {
                Err(e) => Err(PipelineError::BitrateComputationError(e)),
                Ok(target) => Ok(
                    (
                        ResizeRunView { target, stage: ResizeStage::Allocating, ..run },
                        ResizeActionView::Allocate { extension: "mp4"@ },
                    ),
                ),
            },
        },
        (ResizeStage::Allocating, ResizeEventView::Allocated { path }) => Ok(
            (
                ResizeRunView { output: path, stage: ResizeStage::Analysing, ..run },
                ResizeActionView::Encode {
                    arguments: analysis_arguments_spec(run.source.path, run.target, run.discard),
                },
            ),
        ),
        (ResizeStage::Analysing, ResizeEventView::Encoded { success }) => if success {
            Ok(
                (
                    ResizeRunView { stage: ResizeStage::Encoding, ..run },
                    ResizeActionView::Encode {
                        arguments: final_arguments_spec(run.source.path, run.target, run.output),
                    },
                ),
            )
        } else {
            Err(PipelineError::EncodeError(EncodePass::Analysis))
        },
        (ResizeStage::Encoding, ResizeEventView::Encoded { success }) => if success {
            Ok(
                (
                    ResizeRunView { stage: ResizeStage::Measuring, ..run },
                    ResizeActionView::Measure { path: run.output },
                ),
            )
        } else {
            Err(PipelineError::EncodeError(EncodePass::Final))
        },
        (ResizeStage::Measuring, ResizeEventView::Measured { size }) => Ok(
            (
                ResizeRunView { measured: size, stage: ResizeStage::Storing, ..run },
                ResizeActionView::Store { object: compressed_record(run, size) },
            ),
        ),
        (ResizeStage::Storing, ResizeEventView::Stored { object }) => Ok(
            (
                ResizeRunView { stage: ResizeStage::Finished, ..run },
                ResizeActionView::Finish {
                    output: PostProcessOutputView {
                        file: object,
                        additional_passes: follow_up(run.max_size, run.measured),
                    },
                },
            ),
        ),
        _ => Err(PipelineError::OutOfTurn),
    }
}

impl FFMpegResizeProcessor {
    /// The identity under which this pass is registered and recorded.
    pub fn identity() -> (r: PassIdentity)
        ensures
            r == PassIdentity::FfmpegResize,
    {
        PassIdentity::FfmpegResize
    }

    /// Whether this pass has anything to do for the input.
    pub fn check(&self, input: &PostProcessInput) -> (r: bool)
        ensures
            r == applies(self.max_size, input.file@),
    {
        if input.file.size < 0 || input.file.size as u64 <= self.max_size {
            return false;
        }
        match extension(input.file.path.as_str()) {
            Some(kind) => is_reencodable(kind),
            None => false,
        }
    }

    /// Starts a run of this pass: checks the retry budget, fixes the target
    /// size of this attempt, and asks for the file to be probed.
    pub fn process(&self, input: PostProcessInput, discard: &str) -> (r: Result<
        (ResizeRun, ResizeAction),
        PipelineError,
    >)
        ensures
            match r {
                Ok((run, action)) => process_spec(
                    self.max_size,
                    input.file@,
                    input.user.snowflake,
                    input.previous_passes@,
                    discard@,
                ) == Ok::<(ResizeRunView, ResizeActionView), PipelineError>((run@, action@)),
                Err(e) => process_spec(
                    self.max_size,
                    input.file@,
                    input.user.snowflake,
                    input.previous_passes@,
                    discard@,
                ) == Err::<(ResizeRunView, ResizeActionView), PipelineError>(e),
            },
    {
        let attempts = count_occurrences(&input.previous_passes, PassIdentity::FfmpegResize);
        if attempts >= RETRY_BUDGET {
            return Err(PipelineError::RetryBudgetExhausted);
        }
        let target_size = shrink_target(self.max_size, attempts);
        let arguments = arguments(input.file.path.as_str());
        let run = ResizeRun {
            max_size: self.max_size,
            source: input.file,
            owner: input.user.snowflake,
            discard: discard.to_owned(),
            target_size,
            target: EncodeTarget { target_video_bitrate: 0, target_audio_bitrate: 0 },
            output: String::new(),
            measured: 0,
            stage: ResizeStage::Probing,
        };
        Ok((run, ResizeAction::Probe { arguments }))
    }
}

impl ResizeRun {
    /// Takes the outcome of the step asked for last and says what comes
    /// next, or why the run ends here.
    pub fn advance(self, event: ResizeEvent) -> (r: Result<
        (ResizeRun, ResizeAction),
        PipelineError,
    >)
        ensures
            match r {
                Ok((run, action)) => advance_spec(self@, event@) == Ok::<
                    (ResizeRunView, ResizeActionView),
                    PipelineError,
                >((run@, action@)),
                Err(e) => advance_spec(self@, event@) == Err::<
                    (ResizeRunView, ResizeActionView),
                    PipelineError,
                >(e),
            },
    {
        let mut run = self;
        match (run.stage, event) {
            (ResizeStage::Probing, ResizeEvent::Probed { success, output }) => {
                let media = match read_output(success, output.as_str()) {
                    Err(e) => {
                        return Err(PipelineError::ProbeError(e));
                    },
                    Ok(media) => media,
                };
                let target = match encode_target(run.target_size, &media) {
                    Err(e) => {
                        return Err(PipelineError::BitrateComputationError(e));
                    },
                    Ok(target) => target,
                };
                run.target = target;
                run.stage = ResizeStage::Allocating;
                Ok((run, ResizeAction::Allocate { extension: "mp4".to_owned() }))
            },
            (ResizeStage::Allocating, ResizeEvent::Allocated { path }) => {
                let arguments = analysis_arguments(
                    run.source.path.as_str(),
                    &run.target,
                    run.discard.as_str(),
                );
                run.output = path;
                run.stage = ResizeStage::Analysing;
                Ok((run, ResizeAction::Encode { arguments }))
            },
            (ResizeStage::Analysing, ResizeEvent::Encoded { success }) => {
                if !success {
                    return Err(PipelineError::EncodeError(EncodePass::Analysis));
                }
                let arguments = final_arguments(
                    run.source.path.as_str(),
                    &run.target,
                    run.output.as_str(),
                );
                run.stage = ResizeStage::Encoding;
                Ok((run, ResizeAction::Encode { arguments }))
            },
            (ResizeStage::Encoding, ResizeEvent::Encoded { success }) => {
                if !success {
                    return Err(PipelineError::EncodeError(EncodePass::Final));
                }
                let path = run.output.clone();
                run.stage = ResizeStage::Measuring;
                Ok((run, ResizeAction::Measure { path }))
            },
            (ResizeStage::Measuring, ResizeEvent::Measured { size }) => {
                let object = NewObject {
                    path: run.output.clone(),
                    name: run.source.name.clone().concat(" (compressed)"),
                    size: to_stored_size(size),
                    expiry_unix: run.source.expiry_unix,
                    user: run.owner,
                };
                run.measured = size;
                run.stage = ResizeStage::Storing;
                Ok((run, ResizeAction::Store { object }))
            },
            (ResizeStage::Storing, ResizeEvent::Stored { object }) => {
                let mut additional_passes: Vec<PassIdentity> = Vec::new();
                if run.measured > run.max_size {
                    additional_passes.push(PassIdentity::FfmpegResize);
                }
                run.stage = ResizeStage::Finished;
                let output = PostProcessOutput { file: object, additional_passes };
                Ok((run, ResizeAction::Finish { output }))
            },
            _ => Err(PipelineError::OutOfTurn),
        }
    }
}

/// The retry budget: once the re-encode pass occurs `RETRY_BUDGET` times
/// in the history, starting it again fails, whatever the artifact; below
/// that it starts.
pub proof fn lemma_retry_budget(
    max_size: u64,
    file: ObjectView,
    owner: i64,
    history: Seq<PassIdentity>,
    discard: Seq<char>,
)
    ensures
        occurrences(history, PassIdentity::FfmpegResize) >= RETRY_BUDGET ==> process_spec(
            max_size,
            file,
            owner,
            history,
            discard,
        ) == Err::<(ResizeRunView, ResizeActionView), PipelineError>(
            PipelineError::RetryBudgetExhausted,
        ),
        occurrences(history, PassIdentity::FfmpegResize) < RETRY_BUDGET ==> process_spec(
            max_size,
            file,
            owner,
            history,
            discard,
        ) is Ok,
{
}

/// The target size of a run follows the shrink schedule: it is fixed by
/// the limit and by how often the pass has run before.
pub proof fn lemma_run_targets_follow_schedule(
    max_size: u64,
    file: ObjectView,
    owner: i64,
    history: Seq<PassIdentity>,
    discard: Seq<char>,
)
    requires
        occurrences(history, PassIdentity::FfmpegResize) < RETRY_BUDGET,
    ensures
        process_spec(max_size, file, owner, history, discard) matches Ok((run, _))
            && run.target_size == shrink_target_spec(
            max_size as nat,
            occurrences(history, PassIdentity::FfmpegResize),
        ),
{
    crate::bitrate::lemma_shrink_target_decreases(
        max_size as nat,
        occurrences(history, PassIdentity::FfmpegResize),
    );
}

/// An artifact no larger than the limit is never re-encoded, and neither is
/// one whose kind the encoder cannot handle.
pub proof fn lemma_applies_needs_large_media(max_size: u64, file: ObjectView)
    ensures
        file.size <= max_size ==> !applies(max_size, file),
        extension_spec(file.path) is None ==> !applies(max_size, file),
        extension_spec(file.path) matches Some(kind) && !is_reencodable_spec(kind) ==> !applies(
            max_size,
            file,
        ),
{
}

/// What a finished run hands back: the stored record as the new artifact,
/// and the pass itself queued at most once, exactly where the encoded file
/// is still larger than the limit.
pub proof fn lemma_finished_run_queues_itself_at_most_once(run: ResizeRunView, object: ObjectView)
    requires
        run.stage == ResizeStage::Storing,
    ensures
        advance_spec(run, ResizeEventView::Stored { object }) matches Ok(
            (_, ResizeActionView::Finish { output }),
        ) && {
            &&& output.file == object
            &&& output.additional_passes.len() <= 1
            &&& output.additional_passes.len() == 1 <==> run.measured > run.max_size
            &&& forall|i: int|
                0 <= i < output.additional_passes.len() ==> output.additional_passes[i]
                    == PassIdentity::FfmpegResize
        },
{
}

} // verus!

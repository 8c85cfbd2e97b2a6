//! Bitrate arithmetic: the shrink schedule of the target size and the video
//! bitrate that fits a byte budget.

use vstd::prelude::*;

verus! {

/// Ceiling, in bits per second, applied to the measured audio bitrate.
pub const AUDIO_BITRATE_CEILING: u64 = 128_000;

/// Why no video bitrate could be derived.
#[derive(Clone, Copy, Debug, PartialEq, Eq, Structural)]
pub enum BitrateError {
    /// The duration is zero, so the budget per second is undefined.
    ZeroDuration,
    /// The audio track alone uses up the whole budget.
    AudioExceedsBudget,
    /// The derived bitrate does not fit in 64 bits.
    OutOfRange,
}

/// The nominal target size of attempt `attempt` (counted from zero):
/// nine tenths of `max_size`, reduced by a further tenth per earlier attempt,
/// rounded down once at the end.
pub open spec fn shrink_target_spec(max_size: nat, attempt: nat) -> nat {
    if attempt >= 10 {
        0
    } else {
        (max_size * 9 * (10 - attempt) / 100) as nat
    }
}

/// Bits per second available to the whole file.
pub open spec fn budget_per_second(target_size: nat, duration: nat) -> nat
    recommends
        duration > 0,
{
    target_size * 8 / duration
}

/// The video bitrate left once audio is paid for; meaningful when positive.
pub open spec fn video_bitrate(target_size: nat, duration: nat, audio_bitrate: nat) -> int
    recommends
        duration > 0,
{
    budget_per_second(target_size, duration) - audio_bitrate
}

/// What `compute` returns for each input.
pub open spec fn compute_spec(target_size: nat, duration: nat, audio_bitrate: nat) -> Result<
    u64,
    BitrateError,
> {
    if duration == 0 {
        Err(BitrateError::ZeroDuration)
    } else if video_bitrate(target_size, duration, audio_bitrate) <= 0 {
        Err(BitrateError::AudioExceedsBudget)
    } else if video_bitrate(target_size, duration, audio_bitrate) > u64::MAX {
        Err(BitrateError::OutOfRange)
    } else {
        Ok(video_bitrate(target_size, duration, audio_bitrate) as u64)
    }
}

/// The measured audio bitrate, capped at the ceiling.
pub open spec fn clamp_audio_spec(measured: u64) -> u64 {
    if measured <= AUDIO_BITRATE_CEILING {
        measured
    } else {
        AUDIO_BITRATE_CEILING
    }
}

/// Caps a measured audio bitrate at the ceiling.
pub fn clamp_audio(measured: u64) -> (r: u64)
    ensures
        r == clamp_audio_spec(measured),
{
    if measured <= AUDIO_BITRATE_CEILING {
        measured
    } else {
        AUDIO_BITRATE_CEILING
    }
}

/// Target size in bytes for the given attempt.
pub fn shrink_target(max_size: u64, attempt: usize) -> (r: u64)
    ensures
        r == shrink_target_spec(max_size as nat, attempt as nat),
        r <= max_size,
{
    if attempt >= 10 {
        return 0;
    }
    let remaining: u128 = (10 - attempt) as u128;
    let ninefold: u128 = max_size as u128 * 9;
    assert(ninefold * remaining <= ninefold * 10) by (nonlinear_arith)
        requires
            remaining <= 10,
    ;
    let scaled: u128 = ninefold * remaining;
    let r: u128 = scaled / 100;
    assert(r <= max_size) by (nonlinear_arith)
        requires
            r == scaled / 100,
            scaled == max_size * 9 * remaining,
            max_size >= 0,
            1 <= remaining <= 10,
    ;
    r as u64
}

/// Video bitrate, in bits per second, that makes a file of `duration_seconds`
/// seconds with an audio track of `audio_bitrate_bps` come out at
/// `target_size_bytes`.
pub fn compute(target_size_bytes: u64, duration_seconds: u64, audio_bitrate_bps: u64) -> (r: Result<
    u64,
    BitrateError,
>)
    ensures
        r == compute_spec(
            target_size_bytes as nat,
            duration_seconds as nat,
            audio_bitrate_bps as nat,
        ),
{
    if duration_seconds == 0 {
        return Err(BitrateError::ZeroDuration);
    }
    let budget: u128 = target_size_bytes as u128 * 8 / duration_seconds as u128;
    if budget <= audio_bitrate_bps as u128 {
        return Err(BitrateError::AudioExceedsBudget);
    }
    let video: u128 = budget - audio_bitrate_bps as u128;
    if video > u64::MAX as u128 {
        return Err(BitrateError::OutOfRange);
    }
    Ok(video as u64)
}

/// The bitrate formula: for a positive duration the video bitrate is the
/// budget per second less the audio bitrate, wherever that difference is a
/// positive number of 64 bits; and a zero duration is always refused.
pub proof fn lemma_compute_formula(target_size: nat, duration: nat, audio_bitrate: nat)
    ensures
        duration > 0 && 0 < target_size * 8 / duration - audio_bitrate <= u64::MAX
            ==> compute_spec(target_size, duration, audio_bitrate) == Ok::<u64, BitrateError>(
            (target_size * 8 / duration - audio_bitrate) as u64,
        ),
        compute_spec(target_size, 0, audio_bitrate) == Err::<u64, BitrateError>(
            BitrateError::ZeroDuration,
        ),
{
}

/// The shrink schedule: the first attempt aims at nine tenths of the limit,
/// the second at 0.9 * 0.9 of it, the third at 0.9 * 0.8 of it, each
/// rounded down.
pub proof fn lemma_shrink_schedule(max_size: nat)
    ensures
        shrink_target_spec(max_size, 0) == max_size * 9 / 10,
        shrink_target_spec(max_size, 1) == max_size * 81 / 100,
        shrink_target_spec(max_size, 2) == max_size * 72 / 100,
{
    assert(max_size * 9 * 10 / 100 == max_size * 9 / 10) by (nonlinear_arith);
    assert(max_size * 9 * (10 - 0) / 100 == max_size * 9 * 10 / 100);
    assert(max_size * 9 * (10 - 1) == max_size * 81) by (nonlinear_arith);
    assert(max_size * 9 * (10 - 2) == max_size * 72) by (nonlinear_arith);
}

/// Each further attempt aims no higher than the one before.
pub proof fn lemma_shrink_target_decreases(max_size: nat, attempt: nat)
    ensures
        shrink_target_spec(max_size, attempt + 1) <= shrink_target_spec(max_size, attempt),
        shrink_target_spec(max_size, attempt) <= max_size,
{
    if attempt < 10 {
        let a = max_size * 9 * (10 - attempt);
        assert(a <= max_size * 90) by (nonlinear_arith)
            requires
                a == max_size * 9 * (10 - attempt),
                0 <= attempt < 10,
        ;
        if attempt + 1 < 10 {
            let b = max_size * 9 * (10 - (attempt + 1));
            assert(b <= a) by (nonlinear_arith)
                requires
                    a == max_size * 9 * (10 - attempt),
                    b == max_size * 9 * (10 - (attempt + 1)),
            ;
            assert(b / 100 <= a / 100);
        }
    }
}

} // verus!

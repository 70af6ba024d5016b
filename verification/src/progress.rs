//! Progress of the upscaling pipeline, in hundredths of a percent.
//!
//! Each stage owns a band: decoding runs from 0 to 5 percent, upscaling from
//! 5 to 90, encoding from 90 to 99.  The last percent is given by the event
//! that reports completion.  What is reported of a job never goes back:
//! progress computed below the highest report so far is held back.

use vstd::prelude::*;
use vstd::arithmetic::div_mod::lemma_div_is_ordered;
use vstd::arithmetic::mul::lemma_mul_inequality;

verus! {

/// End of the decode band.
pub const DECODE_END: u32 = 500;

/// End of the upscale band.
pub const UPSCALE_END: u32 = 9_000;

/// Highest progress before completion.
pub const ENCODE_CAP: u32 = 9_900;

/// Progress of a completed job.
pub const COMPLETE: u32 = 10_000;

/// A stage of the pipeline that runs a process.
#[derive(Clone, Copy, Debug, PartialEq, Eq, Structural)]
pub enum RunningStage {
    Decode,
    Upscale,
    Encode,
}

/// The place of a stage in the pipeline.
pub open spec fn rank(stage: RunningStage) -> nat {
    match stage {
        RunningStage::Decode => 0,
        RunningStage::Upscale => 1,
        RunningStage::Encode => 2,
    }
}

pub open spec fn at_most(v: nat, cap: nat) -> nat {
    if v > cap {
        cap
    } else {
        v
    }
}

/// Decoding: the frame counter mapped linearly onto 0 to 5 percent.
pub open spec fn decode_progress(frame: nat, total: nat) -> nat
    recommends
        total > 0,
{
    at_most(frame * 500 / total, 500)
}

/// Upscaling: the finished frames mapped linearly onto 5 to 90 percent.
/// Where the number of frames is not known, each finished frame counts one
/// percent.
pub open spec fn upscale_progress(completed: nat, total: nat) -> nat {
    if total > 0 {
        at_most(500 + completed * 8_500 / total, 9_000)
    } else {
        500 + at_most(completed * 100, 8_500)
    }
}

/// Encoding: the frame counter mapped onto 90 percent and up, a tenth of a
/// percent of the whole per percent of the frames, and held at 99.
pub open spec fn encode_progress(frame: nat, total: nat) -> nat
    recommends
        total > 0,
{
    at_most(9_000 + frame * 1_000 / total, 9_900)
}

/// The progress that a stage reports at `count` of `total` frames.
pub open spec fn stage_progress(stage: RunningStage, count: nat, total: nat) -> nat {
    match stage {
        RunningStage::Decode => decode_progress(count, total),
        RunningStage::Upscale => upscale_progress(count, total),
        RunningStage::Encode => encode_progress(count, total),
    }
}

/// The band of a stage.
pub open spec fn band(stage: RunningStage) -> (nat, nat) {
    match stage {
        RunningStage::Decode => (0, 500),
        RunningStage::Upscale => (500, 9_000),
        RunningStage::Encode => (9_000, 9_900),
    }
}

/// Every report of a stage lies in the band of the stage.
pub proof fn lemma_progress_in_band(stage: RunningStage, count: nat, total: nat)
    requires
        total > 0 || stage == RunningStage::Upscale,
    ensures
        band(stage).0 <= stage_progress(stage, count, total) <= band(stage).1,
        stage_progress(stage, count, total) <= ENCODE_CAP,
{
    if total > 0 {
        lemma_div_is_ordered(0, (count * 500) as int, total as int);
        lemma_div_is_ordered(0, (count * 8_500) as int, total as int);
        lemma_div_is_ordered(0, (count * 1_000) as int, total as int);
        assert(0int / (total as int) == 0);
    }
}

/// The formulas rise with the work done: what a stage computes is at most
/// what any later stage computes, and within one stage, with the same number
/// of frames, at most what it computes for a counter that is not smaller.
/// Nothing computed before completion exceeds 99 percent.  A counter that
/// falls computes less; `next_report` holds such progress back.
pub proof fn lemma_progress_monotone(
    first: RunningStage,
    first_count: nat,
    first_total: nat,
    second: RunningStage,
    second_count: nat,
    second_total: nat,
)
    requires
        first_total > 0 || first == RunningStage::Upscale,
        second_total > 0 || second == RunningStage::Upscale,
        rank(first) < rank(second) || (first == second && first_total == second_total
            && first_count <= second_count),
    ensures
        stage_progress(first, first_count, first_total) <= stage_progress(
            second,
            second_count,
            second_total,
        ) <= ENCODE_CAP,
{
    lemma_progress_in_band(first, first_count, first_total);
    lemma_progress_in_band(second, second_count, second_total);
    if first == second {
        let total = first_total as int;
        if total > 0 {
            lemma_mul_inequality(first_count as int, second_count as int, 500);
            lemma_mul_inequality(first_count as int, second_count as int, 8_500);
            lemma_mul_inequality(first_count as int, second_count as int, 1_000);
            lemma_div_is_ordered((first_count * 500) as int, (second_count * 500) as int, total);
            lemma_div_is_ordered((first_count * 8_500) as int, (second_count * 8_500) as int, total);
            lemma_div_is_ordered((first_count * 1_000) as int, (second_count * 1_000) as int, total);
        }
    }
}

/// What is reported of a computed progress: the progress itself, unless it
/// lies below what was reported before.
pub open spec fn report_of(reported: u32, computed: Option<u32>) -> Option<u32> {
    match computed {
        Some(p) => if p >= reported {
            Some(p)
        } else {
            None
        },
        None => None,
    }
}

/// The highest report so far, after a computed progress has been looked at.
pub open spec fn reported_after(reported: u32, computed: Option<u32>) -> u32 {
    match report_of(reported, computed) {
        Some(p) => p,
        None => reported,
    }
}

/// Decides whether a computed progress is reported, and keeps the highest
/// report so far in `reported`.  Progress that would go back is held back.
pub fn next_report(reported: &mut u32, computed: Option<u32>) -> (r: Option<u32>)
    ensures
        r == report_of(*old(reported), computed),
        *final(reported) == reported_after(*old(reported), computed),
        r matches Some(p) ==> *old(reported) <= p && *final(reported) == p,
        r is None ==> *final(reported) == *old(reported),
{
    match computed {
        Some(p) => {
            if p >= *reported {
                *reported = p;
                Some(p)
            } else {
                None
            }
        },
        None => None,
    }
}

fn scale(count: u32, span: u64, total: u32) -> (r: u64)
    requires
        total > 0,
        span <= 10_000,
    ensures
        r == (count as nat) * (span as nat) / (total as nat),
{
    assert((count as u64) * span <= 0xffff_ffff * 10_000) by (nonlinear_arith)
        requires
            count <= 0xffff_ffff,
            span <= 10_000,
    ;
    (count as u64) * span / (total as u64)
}

fn cap(v: u64, limit: u32) -> (r: u32)
    ensures
        r == at_most(v as nat, limit as nat),
{
    if v > limit as u64 {
        limit
    } else {
        v as u32
    }
}

/// Progress of the decode stage at frame `frame` of `total`; nothing where
/// the number of frames is not known.
pub fn decode_stage_progress(frame: u32, total: u32) -> (r: Option<u32>)
    ensures
        match r {
            Some(p) => total > 0 && p == decode_progress(frame as nat, total as nat) && p
                <= DECODE_END,
            None => total == 0,
        },
{
    if total == 0 {
        None
    } else {
        Some(cap(scale(frame, 500, total), 500))
    }
}

/// Progress of the upscale stage after `completed` of `total` frames.
pub fn upscale_stage_progress(completed: u32, total: u32) -> (r: u32)
    ensures
        r == upscale_progress(completed as nat, total as nat),
        DECODE_END <= r <= UPSCALE_END,
{
    if total > 0 {
        let v = scale(completed, 8_500, total);
        cap(500 + v, 9_000)
    } else {
        500 + cap(completed as u64 * 100, 8_500)
    }
}

/// Progress of the encode stage at frame `frame` of `total`; nothing where
/// the number of frames is not known.
pub fn encode_stage_progress(frame: u32, total: u32) -> (r: Option<u32>)
    ensures
        match r {
            Some(p) => total > 0 && p == encode_progress(frame as nat, total as nat)
                && UPSCALE_END <= p <= ENCODE_CAP,
            None => total == 0,
        },
{
    if total == 0 {
        None
    } else {
        let v = scale(frame, 1_000, total);
        Some(cap(9_000 + v, 9_900))
    }
}

} // verus!

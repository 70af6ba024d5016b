//! Progress of a plain conversion, read from the position that the
//! transcoder reports.

use vstd::prelude::*;
use vstd::string::*;
use crate::pipeline::{capture_first_group, capture_view, first_group};
use crate::progress::{at_most, next_report, report_of, reported_after, ENCODE_CAP};
use crate::timecode::{parse_time, timecode_millis};

verus! {

/// The expression that finds the position in a line of the transcoder's
/// output.
pub open spec fn time_pattern() -> Seq<char> {
    "time=\\s*(\\d+:\\d+:\\d+(?:\\.\\d+)?)"@
}

/// The position that a capture denotes: the captured text read as a
/// timecode, in milliseconds.
pub open spec fn position_of_capture(capture: Option<Option<Seq<char>>>) -> Option<nat> {
    match capture {
        Some(Some(stamp)) => timecode_millis(stamp),
        _ => None,
    }
}

/// Reads the position out of what the time pattern captured.
pub fn read_position(capture: Option<Option<String>>) -> (r: Option<u64>)
    ensures
        r matches Some(ms) ==> position_of_capture(capture_view(capture)) == Some(ms as nat),
        r is None ==> position_of_capture(capture_view(capture)) is None,
{
    match capture {
        Some(Some(stamp)) => parse_time(stamp.as_str()),
        _ => None,
    }
}

/// The position of a line of transcoder output, if the line has one.
pub fn line_position(line: &str) -> (r: Option<u64>)
    ensures
        r matches Some(ms) ==> position_of_capture(first_group(time_pattern(), line@)) == Some(
            ms as nat,
        ),
        r is None ==> position_of_capture(first_group(time_pattern(), line@)) is None,
{
    read_position(capture_first_group("time=\\s*(\\d+:\\d+:\\d+(?:\\.\\d+)?)", line))
}

/// The progress at `position` of `length` milliseconds, in hundredths of a
/// percent, held at 99 percent.  Nothing is known of a source without
/// length.
pub open spec fn position_progress(position: nat, length: nat) -> Option<nat> {
    if length == 0 {
        None
    } else {
        Some(at_most(position * 10_000 / length, ENCODE_CAP as nat))
    }
}

/// Computes the progress of a conversion from the position it has reached.
pub fn conversion_progress(position: u64, length: u64) -> (r: Option<u32>)
    ensures
        r matches Some(p) ==> position_progress(position as nat, length as nat) == Some(p as nat)
            && p <= ENCODE_CAP,
        r is None ==> position_progress(position as nat, length as nat) is None,
{
    if length == 0 {
        return None;
    }
    assert((position as u128) * 10_000 <= 0xffff_ffff_ffff_ffff * 10_000) by (nonlinear_arith)
        requires
            position <= 0xffff_ffff_ffff_ffff,
    ;
    let scaled: u128 = (position as u128) * 10_000 / (length as u128);
    if scaled > ENCODE_CAP as u128 {
        Some(ENCODE_CAP)
    } else {
        Some(scaled as u32)
    }
}

/// The progress of one plain conversion: the length of what is converted,
/// in milliseconds, and the highest progress reported so far.
#[derive(Debug)]
pub struct ConversionProgress {
    pub length: u64,
    pub reported: u32,
}

/// The progress that a position stands for, where there is one.
pub open spec fn computed_at(position: Option<nat>, length: nat) -> Option<u32> {
    match position {
        Some(at) => match position_progress(at, length) {
            Some(p) => Some(p as u32),
            None => None,
        },
        None => None,
    }
}

impl ConversionProgress {
    /// Nothing reported yet of a conversion of `length` milliseconds.
    pub fn new(length: u64) -> (p: ConversionProgress)
        ensures
            p.length == length,
            p.reported == 0,
    {
        ConversionProgress { length, reported: 0 }
    }

    /// Takes the position that a line of output gave.  The progress at the
    /// position is reported unless it lies below the highest report so far.
    pub fn on_position(&mut self, position: Option<u64>) -> (r: Option<u32>)
        ensures
            final(self).length == old(self).length,
            r == report_of(
                old(self).reported,
                computed_at(
                    match position {
                        Some(at) => Some(at as nat),
                        None => None,
                    },
                    old(self).length as nat,
                ),
            ),
            r matches Some(p) ==> old(self).reported <= p <= ENCODE_CAP,
            final(self).reported == (if r is Some {
                r->0
            } else {
                old(self).reported
            }),
    {
        let computed = match position {
            Some(at) => conversion_progress(at, self.length),
            None => None,
        };
        next_report(&mut self.reported, computed)
    }

    /// Takes one line of output; the position is what the time pattern
    /// captures in the line.
    pub fn on_line(&mut self, line: &str) -> (r: Option<u32>)
        ensures
            final(self).length == old(self).length,
            r == report_of(
                old(self).reported,
                computed_at(
                    position_of_capture(first_group(time_pattern(), line@)),
                    old(self).length as nat,
                ),
            ),
            r matches Some(p) ==> old(self).reported <= p <= ENCODE_CAP,
            final(self).reported == (if r is Some {
                r->0
            } else {
                old(self).reported
            }),
    {
        let position = line_position(line);
        self.on_position(position)
    }
}

/// The highest report after a sequence of positions.
pub open spec fn reported_at_end(reported: u32, length: nat, positions: Seq<Option<nat>>) -> u32
    decreases positions.len(),
{
    if positions.len() == 0 {
        reported
    } else {
        reported_after(
            reported_at_end(reported, length, positions.drop_last()),
            computed_at(positions.last(), length),
        )
    }
}

/// Every progress that a sequence of positions makes a conversion report,
/// in the order of the reports.
pub open spec fn position_reports(reported: u32, length: nat, positions: Seq<Option<nat>>) -> Seq<
    u32,
>
    decreases positions.len(),
{
    if positions.len() == 0 {
        Seq::empty()
    } else {
        let earlier = position_reports(reported, length, positions.drop_last());
        match report_of(
            reported_at_end(reported, length, positions.drop_last()),
            computed_at(positions.last(), length),
        ) {
            Some(report) => earlier.push(report),
            None => earlier,
        }
    }
}

/// The progress of a plain conversion never goes back, whatever positions
/// the transcoder prints, and never exceeds 99 percent.
pub proof fn lemma_conversion_reports_never_fall(
    reported: u32,
    length: nat,
    positions: Seq<Option<nat>>,
)
    ensures
        forall|i: int, j: int|
            0 <= i <= j < position_reports(reported, length, positions).len()
                ==> position_reports(reported, length, positions)[i] <= position_reports(
                reported,
                length,
                positions,
            )[j],
        forall|i: int|
            0 <= i < position_reports(reported, length, positions).len() ==> reported <= (
            #[trigger] position_reports(reported, length, positions)[i]) <= ENCODE_CAP,
        forall|i: int|
            0 <= i < position_reports(reported, length, positions).len() ==> (
            #[trigger] position_reports(reported, length, positions)[i]) <= reported_at_end(
                reported,
                length,
                positions,
            ),
        reported <= reported_at_end(reported, length, positions),
    decreases positions.len(),
{
    if positions.len() > 0 {
        let earlier = positions.drop_last();
        lemma_conversion_reports_never_fall(reported, length, earlier);
        let before = reported_at_end(reported, length, earlier);
        let after = reported_at_end(reported, length, positions);
        let all = position_reports(reported, length, positions);
        let first = position_reports(reported, length, earlier);
        match report_of(before, computed_at(positions.last(), length)) {
            Some(report) => {
                assert(all == first.push(report));
                assert(before <= report <= ENCODE_CAP);
                assert(after == report);
                assert forall|a: int, b: int| 0 <= a <= b < all.len() implies all[a] <= all[b] by {
                    if b < first.len() {
                        assert(first[a] <= first[b]);
                    } else if a < first.len() {
                        assert(first[a] <= before);
                    }
                }
                assert forall|a: int| 0 <= a < all.len() implies reported <= (#[trigger] all[a])
                    <= ENCODE_CAP && all[a] <= after by {
                    if a < first.len() {
                        assert(first[a] <= before);
                    }
                }
            },
            None => {
                assert(all == first);
                assert(after == before);
            },
        }
    }
}

} // verus!

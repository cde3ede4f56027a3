//! The frame timeline of a video: how many frames it has and how long each
//! one stays on screen.

use vstd::prelude::*;
use vstd::slice::slice_subrange;
use crate::span::Span;
use crate::text::{
    decimal, decimal_padded, find_byte, parse_u32, push_decimal, push_decimal_padded,
    span_before, strip_byte, unsigned_value, without, LINE_BREAK, POINT, SLASH,
};

verus! {

/// The mathematical content of a [`FrameTimeline`]: a frame count and the
/// frame rate as the fraction `rate_num / rate_den` frames per second. One
/// frame therefore lasts `rate_den / rate_num` seconds.
pub struct Timeline {
    pub total_frames: nat,
    pub rate_num: nat,
    pub rate_den: nat,
}

impl Timeline {
    /// Both parts of the rate are positive, so that a frame lasts a positive
    /// time, and all three numbers fit in 32 bits.
    pub open spec fn wf(self) -> bool {
        &&& self.total_frames <= u32::MAX
        &&& 0 < self.rate_num <= u32::MAX
        &&& 0 < self.rate_den <= u32::MAX
    }

    /// Whether `elapsed_nanos` is strictly less than the time allotted to
    /// `increment` frames, compared exactly (no rounding of the frame time).
    pub open spec fn within_budget(self, increment: nat, elapsed_nanos: nat) -> bool {
        elapsed_nanos * self.rate_num < increment * self.rate_den * 1_000_000_000
    }

    /// The whole nanoseconds left of the time allotted to `increment` frames
    /// once `elapsed_nanos` have gone by; meaningful when `within_budget`.
    pub open spec fn remaining_nanos(self, increment: nat, elapsed_nanos: nat) -> nat {
        ((increment * self.rate_den * 1_000_000_000 - elapsed_nanos * self.rate_num)
            / (self.rate_num as int)) as nat
    }

    /// The whole seconds of the moment at which frame `index` begins.
    pub open spec fn seek_secs(self, index: nat) -> nat {
        index * self.rate_den / self.rate_num
    }

    /// The microseconds, below one second, of the moment at which frame
    /// `index` begins.
    pub open spec fn seek_micros(self, index: nat) -> nat {
        (index * self.rate_den % self.rate_num) * 1_000_000 / self.rate_num
    }
}

/// Frame count and frame rate of one video, fixed for a whole session.
#[derive(Clone, Copy, Debug)]
pub struct FrameTimeline {
    total_frames: u32,
    rate_num: u32,
    rate_den: u32,
}

impl View for FrameTimeline {
    type V = Timeline;

    closed spec fn view(&self) -> Timeline {
        Timeline {
            total_frames: self.total_frames as nat,
            rate_num: self.rate_num as nat,
            rate_den: self.rate_den as nat,
        }
    }
}

impl FrameTimeline {
    #[verifier::type_invariant]
    pub open spec fn inv(self) -> bool {
        self@.wf()
    }

    /// A timeline of `total_frames` frames shown at `rate_num / rate_den`
    /// frames per second, or `None` when either part of the rate is zero.
    pub fn new(total_frames: u32, rate_num: u32, rate_den: u32) -> (t: Option<FrameTimeline>)
        ensures
            t is Some <==> rate_num > 0 && rate_den > 0,
            t matches Some(tl) ==> tl@ == (Timeline {
                total_frames: total_frames as nat,
                rate_num: rate_num as nat,
                rate_den: rate_den as nat,
            }) && tl@.wf(),
    {
        if rate_num == 0 || rate_den == 0 {
            None
        } else {
            Some(FrameTimeline { total_frames, rate_num, rate_den })
        }
    }

    /// The number of frames.
    pub fn total_frames(&self) -> (n: u32)
        ensures
            n == self@.total_frames,
    {
        self.total_frames
    }

    /// The numerator of the frame rate.
    pub fn rate_num(&self) -> (n: u32)
        ensures
            n == self@.rate_num,
            n > 0,
    {
        proof {
            use_type_invariant(self);
        }
        self.rate_num
    }

    /// The denominator of the frame rate.
    pub fn rate_den(&self) -> (n: u32)
        ensures
            n == self@.rate_den,
            n > 0,
    {
        proof {
            use_type_invariant(self);
        }
        self.rate_den
    }

    /// Compares the time spent on a frame with the time allotted to
    /// `increment` frames. Returns the time left to wait when the frame was
    /// done early, and `None` when the allotted time is used up.
    pub fn pace(&self, increment: u32, elapsed: Span) -> (rest: Option<Span>)
        ensures
            rest is Some <==> self@.within_budget(increment as nat, elapsed.total_nanos()),
            rest matches Some(span) ==> span.total_nanos() == self@.remaining_nanos(
                increment as nat,
                elapsed.total_nanos(),
            ) && span.nanos < 1_000_000_000,
    {
        proof {
            use_type_invariant(self);
        }
        let num: u128 = self.rate_num as u128;
        let den: u128 = self.rate_den as u128;
        let incr: u128 = increment as u128;
        assert(incr * den <= 0xffff_ffff * 0xffff_ffff) by (nonlinear_arith)
            requires
                incr <= 0xffff_ffff,
                den <= 0xffff_ffff,
        ;
        let frames: u128 = incr * den;
        let budget: u128 = frames * 1_000_000_000u128;
        let spent_nanos: u128 = elapsed.as_nanos();
        assert(spent_nanos * num <= 0x4000_0000_0000_0000_0000_0000 * 0xffff_ffff)
            by (nonlinear_arith)
            requires
                spent_nanos <= 0x4000_0000_0000_0000_0000_0000,
                num <= 0xffff_ffff,
        ;
        let spent: u128 = spent_nanos * num;
        if spent < budget {
            let rest: u128 = (budget - spent) / num;
            assert(rest <= budget) by (nonlinear_arith)
                requires
                    rest == (budget - spent) / (num as int),
                    num > 0,
                    spent < budget,
            ;
            assert(rest / 1_000_000_000 <= frames) by (nonlinear_arith)
                requires
                    rest <= frames * 1_000_000_000,
            ;
            Some(Span::from_nanos(rest))
        } else {
            None
        }
    }
}

/// Why the decoder's answer to the metadata query could not be used.
#[derive(Clone, Copy, Debug, PartialEq, Eq, Structural)]
pub enum ProbeError {
    /// The frame count is not an unsigned number that fits in 32 bits.
    FrameCount,
    /// The frame rate is not a fraction of two positive numbers that fit in
    /// 32 bits.
    FrameRate,
}

/// The frame count in the decoder's answer: the whole answer, line breaks
/// taken out, read as an unsigned number.
pub open spec fn frame_count_of(answer: Seq<u8>) -> Option<u32> {
    unsigned_value(without(answer, LINE_BREAK))
}

/// The first line of `answer`, without its line break.
pub open spec fn first_line(answer: Seq<u8>) -> Seq<u8> {
    answer.take(span_before(answer, LINE_BREAK) as int)
}

/// The text before the first slash of `line`.
pub open spec fn numerator_field(line: Seq<u8>) -> Seq<u8> {
    line.take(span_before(line, SLASH) as int)
}

/// The text between the first slash of `line` and the second, or the end of
/// the line where there is no second one. Only meaningful where the line
/// holds a slash.
pub open spec fn denominator_field(line: Seq<u8>) -> Seq<u8> {
    let rest = line.skip(span_before(line, SLASH) as int + 1);
    rest.take(span_before(rest, SLASH) as int)
}

/// The frame rate in the decoder's answer, as numerator and denominator: the
/// first two fields of the first line, divided by slashes, each an unsigned
/// number above zero.
pub open spec fn frame_rate_of(answer: Seq<u8>) -> Option<(u32, u32)> {
    let line = first_line(answer);
    if span_before(line, SLASH) < line.len() {
        match (unsigned_value(numerator_field(line)), unsigned_value(denominator_field(line))) {
            (Some(num), Some(den)) => if num > 0 && den > 0 {
                Some((num, den))
            } else {
                None
            },
            _ => None,
        }
    } else {
        None
    }
}

/// The timeline that the decoder's two answers describe. A frame count that
/// cannot be read is reported before a frame rate that cannot.
pub open spec fn frame_info(count_answer: Seq<u8>, rate_answer: Seq<u8>) -> Result<
    Timeline,
    ProbeError,
> {
    match frame_count_of(count_answer) {
        None => Err(ProbeError::FrameCount),
        Some(total) => match frame_rate_of(rate_answer) {
            None => Err(ProbeError::FrameRate),
            Some((num, den)) => Ok(
                Timeline {
                    total_frames: total as nat,
                    rate_num: num as nat,
                    rate_den: den as nat,
                },
            ),
        },
    }
}

/// Reads the frame rate out of the decoder's answer.
pub fn parse_frame_rate(answer: &[u8]) -> (rate: Option<(u32, u32)>)
    ensures
        rate == frame_rate_of(answer@),
{
    let line_end: usize = find_byte(answer, LINE_BREAK);
    let line = slice_subrange(answer, 0, line_end);
    assert(line@ == first_line(answer@));
    let cut: usize = find_byte(line, SLASH);
    if cut >= line.len() {
        return None;
    }
    let first = slice_subrange(line, 0, cut);
    let rest = slice_subrange(line, cut + 1, line.len());
    assert(rest@ == line@.skip(cut + 1));
    let second_end: usize = find_byte(rest, SLASH);
    let second = slice_subrange(rest, 0, second_end);
    assert(first@ == numerator_field(line@));
    assert(second@ == denominator_field(line@));
    match (parse_u32(first), parse_u32(second)) {
        (Some(num), Some(den)) => if num > 0 && den > 0 {
            Some((num, den))
        } else {
            None
        },
        _ => None,
    }
}

/// Builds the timeline of a video from the decoder's two answers to the
/// metadata query: the frame count, as a decimal number that may be broken
/// over lines, and the frame rate, as `numerator/denominator` on the first
/// line.
pub fn get_frame_info(count_answer: &[u8], rate_answer: &[u8]) -> (info: Result<
    FrameTimeline,
    ProbeError,
>)
    ensures
        match info {
            Ok(timeline) => frame_info(count_answer@, rate_answer@) == Ok::<Timeline, ProbeError>(
                timeline@,
            ) && timeline@.wf(),
            Err(e) => frame_info(count_answer@, rate_answer@) == Err::<Timeline, ProbeError>(e),
        },
{
    let digits = strip_byte(count_answer, LINE_BREAK);
    let total: u32 = match parse_u32(digits.as_slice()) {
        Some(total) => total,
        None => {
            return Err(ProbeError::FrameCount);
        },
    };
    match parse_frame_rate(rate_answer) {
        Some((num, den)) => match FrameTimeline::new(total, num, den) {
            Some(timeline) => Ok(timeline),
            None => Err(ProbeError::FrameRate),
        },
        None => Err(ProbeError::FrameRate),
    }
}

/// The moment at which a frame begins, as text for the decoder: the seconds,
/// a point, and six digits of microseconds.
pub open spec fn timestamp_text(secs: nat, micros: nat) -> Seq<u8> {
    decimal(secs).push(POINT) + decimal_padded(micros, 6)
}

impl FrameTimeline {
    /// The moment at which frame `index` begins, in whole seconds and
    /// microseconds, rounded down to the microsecond.
    pub fn seek(&self, index: u32) -> (at: (u64, u32))
        ensures
            at.0 == self@.seek_secs(index as nat),
            at.1 == self@.seek_micros(index as nat),
            at.1 < 1_000_000,
    {
        proof {
            use_type_invariant(self);
        }
        let num: u64 = self.rate_num as u64;
        let den: u64 = self.rate_den as u64;
        let idx: u64 = index as u64;
        assert(idx * den <= 0xffff_ffff * 0xffff_ffff) by (nonlinear_arith)
            requires
                idx <= 0xffff_ffff,
                den <= 0xffff_ffff,
        ;
        let ticks: u64 = idx * den;
        let secs: u64 = ticks / num;
        let part: u64 = ticks % num;
        let micros: u64 = part * 1_000_000 / num;
        assert(micros < 1_000_000) by (nonlinear_arith)
            requires
                micros == part * 1_000_000 / (num as int),
                part < num,
                num > 0,
        ;
        (secs, micros as u32)
    }

    /// The moment at which frame `index` begins, written for the decoder.
    pub fn seek_text(&self, index: u32) -> (text: Vec<u8>)
        ensures
            text@ == timestamp_text(
                self@.seek_secs(index as nat),
                self@.seek_micros(index as nat),
            ),
    {
        let (secs, micros): (u64, u32) = self.seek(index);
        let mut text: Vec<u8> = Vec::new();
        push_decimal(&mut text, secs);
        text.push(POINT);
        push_decimal_padded(&mut text, micros as u64, 6);
        assert(text@ =~= timestamp_text(secs as nat, micros as nat));
        text
    }
}

} // verus!

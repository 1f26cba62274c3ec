//! Helpers shared by the choosers and the session supervisor.

pub mod airframes;
pub mod systable;

use crate::clock::read_clock;
use crate::text::{parse_u8, spec_parse_unsigned};
use vstd::prelude::*;

verus! {

/// No supported sampling rate is wide enough for the span of the
/// frequencies.
#[derive(Debug, Clone, Copy, PartialEq, Eq, Structural)]
pub struct SpanTooWide;

/// Largest value of `freqs`, 0 for the empty sequence.
pub open spec fn spec_max_freq(freqs: Seq<u16>) -> int
    decreases freqs.len(),
{
    if freqs.len() == 0 {
        0
    } else if freqs.len() == 1 {
        freqs[0] as int
    } else {
        let rest = spec_max_freq(freqs.drop_last());
        if freqs.last() as int > rest {
            freqs.last() as int
        } else {
            rest
        }
    }
}

/// Smallest value of `freqs`, 0 for the empty sequence.
pub open spec fn spec_min_freq(freqs: Seq<u16>) -> int
    decreases freqs.len(),
{
    if freqs.len() == 0 {
        0
    } else if freqs.len() == 1 {
        freqs[0] as int
    } else {
        let rest = spec_min_freq(freqs.drop_last());
        if (freqs.last() as int) < rest {
            freqs.last() as int
        } else {
            rest
        }
    }
}

/// The distance, in kHz, between the smallest and the largest of `freqs`.
pub open spec fn spec_span(freqs: Seq<u16>) -> int {
    spec_max_freq(freqs) - spec_min_freq(freqs)
}

/// Whether a span of `span` kHz fits the sampling rate `rate`, in Hz: the
/// span is below nine tenths of the rate, the tenths rounded down.
pub open spec fn spec_rate_fits(span: int, rate: u32) -> bool {
    span * 1000 < (rate as int * 9) / 10
}

/// The first of `rates` that the span `span` fits.
pub open spec fn spec_first_fit(span: int, rates: Seq<u32>) -> Option<u32>
    decreases rates.len(),
{
    if rates.len() == 0 {
        None
    } else if spec_rate_fits(span, rates[0]) {
        Some(rates[0])
    } else {
        spec_first_fit(span, rates.skip(1))
    }
}

/// The smallest frequency lies at or below the largest, and both are among
/// the frequencies unless there are none.
pub proof fn lemma_span(freqs: Seq<u16>)
    ensures
        0 <= spec_min_freq(freqs) <= spec_max_freq(freqs) <= u16::MAX,
        forall|i: int|
            0 <= i < freqs.len() ==> spec_min_freq(freqs) <= #[trigger] freqs[i] <= spec_max_freq(
                freqs,
            ),
    decreases freqs.len(),
{
    if freqs.len() > 1 {
        let rest = freqs.drop_last();
        lemma_span(rest);
        assert forall|i: int| 0 <= i < freqs.len() implies spec_min_freq(freqs) <= #[trigger] freqs[i]
            <= spec_max_freq(freqs) by {
            if i < rest.len() {
                assert(rest[i] == freqs[i]);
            }
        }
    }
}

/// The sampling rate for tuning `freqs` together: the first of
/// `sampling_rates` that their span fits.
pub fn get_sampling_rate(freqs: &Vec<u16>, sampling_rates: &Vec<u32>) -> (r: Result<
    u32,
    SpanTooWide,
>)
    ensures
        r == (match spec_first_fit(spec_span(freqs@), sampling_rates@) {
            Some(rate) => Ok::<u32, SpanTooWide>(rate),
            None => Err::<u32, SpanTooWide>(SpanTooWide),
        }),
{
    let mut max: u16 = 0;
    let mut min: u16 = 0;
    let mut i: usize = 0;
    while i < freqs.len()
        invariant
            i <= freqs.len(),
            max as int == spec_max_freq(freqs@.take(i as int)),
            min as int == spec_min_freq(freqs@.take(i as int)),
        decreases freqs.len() - i,
    {
        assert(freqs@.take(i + 1).drop_last() == freqs@.take(i as int));
        let f = freqs[i];
        if i == 0 {
            max = f;
            min = f;
        } else {
            if f > max {
                max = f;
            }
            if f < min {
                min = f;
            }
        }
        i += 1;
    }
    proof {
        assert(freqs@.take(freqs.len() as int) == freqs@);
        lemma_span(freqs@);
    }
    let span: u32 = (max - min) as u32;
    let mut k: usize = 0;
    assert(sampling_rates@.skip(0) == sampling_rates@);
    while k < sampling_rates.len()
        invariant
            k <= sampling_rates.len(),
            span as int == spec_span(freqs@),
            span <= u16::MAX,
            spec_first_fit(span as int, sampling_rates@) == spec_first_fit(
                span as int,
                sampling_rates@.skip(k as int),
            ),
        decreases sampling_rates.len() - k,
    {
        let rate = sampling_rates[k];
        let ghost rest = sampling_rates@.skip(k as int);
        assert(rest[0] == rate);
        assert(rest.skip(1) == sampling_rates@.skip(k + 1));
        if (span as u64) * 1000 < (rate as u64 * 9) / 10 {
            return Ok(rate);
        }
        k += 1;
    }
    Err(SpanTooWide)
}

/// The hour and the minute that the texts `hour` and `minute` give: the
/// hour from 0 to 23, the minute from 0 to 59.
pub open spec fn spec_parse_time(hour: Seq<char>, minute: Seq<char>) -> Option<(u8, u8)> {
    match (spec_parse_unsigned(hour, 255), spec_parse_unsigned(minute, 255)) {
        (Some(h), Some(m)) => if h <= 23 && m < 60 {
            Some((h as u8, m as u8))
        } else {
            None
        },
        _ => None,
    }
}

/// The time of day that the first two texts of `raw_time` give, as hour and
/// minute.
pub fn parse_time(raw_time: &Vec<&str>) -> (r: Option<(u8, u8)>)
    requires
        raw_time.len() >= 2,
    ensures
        r == spec_parse_time(raw_time[0]@, raw_time[1]@),
{
    let h = match parse_u8(raw_time[0]) {
        Some(h) => h,
        None => {
            return None;
        },
    };
    let m = match parse_u8(raw_time[1]) {
        Some(m) => m,
        None => {
            return None;
        },
    };
    if h > 23 || m >= 60 {
        return None;
    }
    Some((h, m))
}

/// Whether the trigger `t` has come at the time `hour`:`minute`: neither
/// its hour nor its minute lies above that of the time.
pub open spec fn spec_qualifies(t: (u8, u8, u32), hour: u8, minute: u8) -> bool {
    t.0 <= hour && t.1 <= minute
}

/// The place of the last of `triggers` that has come at `hour`:`minute`.
pub open spec fn spec_last_qualifying(triggers: Seq<(u8, u8, u32)>, hour: u8, minute: u8) -> Option<
    int,
>
    decreases triggers.len(),
{
    if triggers.len() == 0 {
        None
    } else if spec_qualifies(triggers.last(), hour, minute) {
        Some(triggers.len() - 1)
    } else {
        spec_last_qualifying(triggers.drop_last(), hour, minute)
    }
}

/// The band that the schedule `triggers` selects at `hour`:`minute`: that
/// of the last trigger that has come, and where none has, that of the last
/// trigger of all. `None` for an empty schedule.
pub open spec fn spec_select_band(triggers: Seq<(u8, u8, u32)>, hour: u8, minute: u8) -> Option<
    u32,
> {
    match spec_last_qualifying(triggers, hour, minute) {
        Some(i) => Some(triggers[i].2),
        None => if triggers.len() > 0 {
            Some(triggers.last().2)
        } else {
            None
        },
    }
}

/// The band that the schedule `triggers` selects at `hour`:`minute`.
pub fn select_band(triggers: &Vec<(u8, u8, u32)>, hour: u8, minute: u8) -> (r: Option<u32>)
    ensures
        r == spec_select_band(triggers@, hour, minute),
{
    let n = triggers.len();
    let mut i: usize = n;
    assert(triggers@.take(n as int) == triggers@);
    while i > 0
        invariant
            i <= n,
            n == triggers.len(),
            spec_last_qualifying(triggers@, hour, minute) == spec_last_qualifying(
                triggers@.take(i as int),
                hour,
                minute,
            ),
        decreases i,
    {
        let t = triggers[i - 1];
        proof {
            let head = triggers@.take(i as int);
            assert(head.last() == t);
            assert(head.drop_last() == triggers@.take(i - 1));
        }
        if t.0 <= hour && t.1 <= minute {
            return Some(t.2);
        }
        i -= 1;
    }
    if n > 0 {
        Some(triggers[n - 1].2)
    } else {
        None
    }
}

/// The band that the schedule `triggers` selects at the time the clock
/// shows.
pub fn get_band(triggers: &Vec<(u8, u8, u32)>) -> (r: Option<u32>)
    ensures
        exists|hour: u8, minute: u8|
            hour < 24 && minute < 60 && r == #[trigger] spec_select_band(triggers@, hour, minute),
{
    let clock = read_clock();
    select_band(triggers, clock.hour, clock.minute)
}

} // verus!

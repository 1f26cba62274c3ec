//! The chooser that follows a schedule: at set times of the day it moves to
//! a set band.

use crate::args::Props;
use crate::bands::FrequencyBandMap;
use crate::chooser::{copy_freqs, ChooserError, ChooserPlugin};
use crate::clock::{read_clock, ClockReading};
use crate::hfdl::Frame;
use crate::state::SharedState;
use crate::text::{parse_u32, spec_parse_unsigned, spec_split, spec_views, split};
use crate::utils::{parse_time, select_band, spec_parse_time, spec_select_band};
use vstd::prelude::*;

verus! {

/// The name under which the chooser is asked for.
pub const NAME: &'static str = "schedule";

/// Whether the time of `a` lies before that of `b`.
pub open spec fn spec_time_lt(a: (u8, u8, u32), b: (u8, u8, u32)) -> bool {
    a.0 < b.0 || (a.0 == b.0 && a.1 < b.1)
}

/// Whether `a` and `b` are for the same time.
pub open spec fn spec_same_time(a: (u8, u8, u32), b: (u8, u8, u32)) -> bool {
    a.0 == b.0 && a.1 == b.1
}

/// Whether the triggers `t` ascend by hour, then by minute, no time twice.
pub open spec fn spec_sorted_triggers(t: Seq<(u8, u8, u32)>) -> bool {
    forall|i: int, j: int| 0 <= i < j < t.len() ==> spec_time_lt(t[i], t[j])
}

/// Whether `t` is the first of `candidates` for its time.
pub open spec fn spec_first_for_time(candidates: Seq<(u8, u8, u32)>, t: (u8, u8, u32)) -> bool {
    exists|j: int|
        0 <= j < candidates.len() && #[trigger] candidates[j] == t && forall|k: int|
            0 <= k < j ==> !spec_same_time(#[trigger] candidates[k], t)
}

/// Whether one of `triggers` is for the time of `c`.
pub open spec fn spec_time_listed(triggers: Seq<(u8, u8, u32)>, c: (u8, u8, u32)) -> bool {
    exists|i: int| 0 <= i < triggers.len() && spec_same_time(#[trigger] triggers[i], c)
}

/// Whether `triggers` is the schedule that `candidates` give: sorted by
/// time, with one trigger for each time among the candidates, the first
/// candidate for that time.
pub open spec fn spec_is_schedule(triggers: Seq<(u8, u8, u32)>, candidates: Seq<(u8, u8, u32)>) -> bool {
    &&& spec_sorted_triggers(triggers)
    &&& forall|i: int|
        0 <= i < triggers.len() ==> spec_first_for_time(candidates, #[trigger] triggers[i])
    &&& forall|j: int|
        0 <= j < candidates.len() ==> spec_time_listed(triggers, #[trigger] candidates[j])
}

/// Whether the catalog has the band of each of `triggers`.
pub open spec fn spec_bands_known(catalog: Map<u32, Seq<u16>>, triggers: Seq<(u8, u8, u32)>) -> bool {
    forall|i: int| 0 <= i < triggers.len() ==> catalog.dom().contains((#[trigger] triggers[i]).2)
}

/// The number that `text` writes; 0 where it writes none.
pub open spec fn spec_band_or_zero(text: Seq<char>) -> u32 {
    match spec_parse_unsigned(text, 0xffff_ffff) {
        Some(b) => b as u32,
        None => 0,
    }
}

/// The trigger that the time `time`, written `HH:MM`, and the band `band`
/// give, if the time is one and the catalog has the band.
pub open spec fn spec_trigger_of(catalog: Map<u32, Seq<u16>>, time: Seq<char>, band: Seq<char>) -> Option<
    (u8, u8, u32),
> {
    let parts = spec_split(time, ':');
    if parts.len() == 2 {
        match spec_parse_time(parts[0], parts[1]) {
            Some(hm) => if catalog.dom().contains(spec_band_or_zero(band)) {
                Some((hm.0, hm.1, spec_band_or_zero(band)))
            } else {
                None
            },
            None => None,
        }
    } else {
        None
    }
}

/// The triggers that the properties `props` give, in their order: each
/// property `HH:MM=band` that names a time and a band of the catalog.
pub open spec fn spec_candidates(catalog: Map<u32, Seq<u16>>, props: Seq<(Seq<char>, Seq<char>)>) -> Seq<
    (u8, u8, u32),
>
    decreases props.len(),
{
    if props.len() == 0 {
        Seq::empty()
    } else {
        let before = spec_candidates(catalog, props.drop_last());
        match spec_trigger_of(catalog, props.last().0, props.last().1) {
            Some(t) => before.push(t),
            None => before,
        }
    }
}

/// The trigger that the time `time` and the band `band` give.
pub fn trigger_of(bands: &FrequencyBandMap, time: &str, band: &str) -> (r: Option<(u8, u8, u32)>)
    requires
        bands.wf(),
    ensures
        r == spec_trigger_of(bands@, time@, band@),
{
    let parts = split(time, ':');
    if parts.len() != 2 {
        return None;
    }
    assert(spec_views(parts@)[0] == parts[0]@);
    assert(spec_views(parts@)[1] == parts[1]@);
    let mut raw: Vec<&str> = Vec::new();
    raw.push(parts[0].as_str());
    raw.push(parts[1].as_str());
    let hm = match parse_time(&raw) {
        Some(hm) => hm,
        None => {
            return None;
        },
    };
    let id = match parse_u32(band) {
        Some(b) => b,
        None => 0,
    };
    if bands.contains_key(id) {
        Some((hm.0, hm.1, id))
    } else {
        None
    }
}

/// Puts the trigger `t` into the schedule `v`, unless the schedule has one
/// for the same time.
pub fn insert_trigger(v: &mut Vec<(u8, u8, u32)>, t: (u8, u8, u32))
    requires
        spec_sorted_triggers(old(v)@),
    ensures
        spec_sorted_triggers(final(v)@),
        spec_time_listed(old(v)@, t) ==> final(v)@ == old(v)@,
        !spec_time_listed(old(v)@, t) ==> final(v)@.len() == old(v)@.len() + 1,
        forall|x: (u8, u8, u32)|
            final(v)@.contains(x) <==> (old(v)@.contains(x) || (x == t && !spec_time_listed(
                old(v)@,
                t,
            ))),
{
    let mut i: usize = 0;
    while i < v.len() && (v[i].0 < t.0 || (v[i].0 == t.0 && v[i].1 < t.1))
        invariant
            i <= v.len(),
            v@ == old(v)@,
            forall|j: int| 0 <= j < i ==> spec_time_lt(#[trigger] v[j], t),
        decreases v.len() - i,
    {
        i += 1;
    }
    let ghost before = v@;
    if i < v.len() && v[i].0 == t.0 && v[i].1 == t.1 {
        assert(spec_same_time(before[i as int], t));
        return ;
    }
    proof {
        assert forall|j: int| 0 <= j < before.len() implies !spec_same_time(
            #[trigger] before[j],
            t,
        ) by {
            if j > i {
                assert(spec_time_lt(before[i as int], before[j]));
            }
        }
    }
    v.insert(i, t);
    proof {
        let after = v@;
        before.insert_ensures(i as int, t);
        assert forall|a: int, b: int| 0 <= a < b < after.len() implies spec_time_lt(
            after[a],
            after[b],
        ) by {
            if b < i {
                assert(after[a] == before[a] && after[b] == before[b]);
            } else if b == i {
                assert(after[a] == before[a]);
            } else if a < i {
                assert(after[a] == before[a] && after[b] == before[b - 1]);
                assert(spec_time_lt(before[a], before[b - 1]));
            } else if a == i {
                assert(after[b] == before[b - 1]);
                if i < b - 1 {
                    assert(spec_time_lt(before[i as int], before[b - 1]));
                }
            } else {
                assert(after[a] == before[a - 1] && after[b] == before[b - 1]);
                assert(spec_time_lt(before[a - 1], before[b - 1]));
            }
        }
        assert forall|x: (u8, u8, u32)| after.contains(x) <==> (before.contains(x) || x == t) by {
            if after.contains(x) {
                let k = choose|k: int| 0 <= k < after.len() && after[k] == x;
                if k < i {
                    assert(before[k] == x);
                } else if k > i {
                    assert(before[k - 1] == x);
                }
            }
            if before.contains(x) {
                let k = choose|k: int| 0 <= k < before.len() && before[k] == x;
                if k < i {
                    assert(after[k] == x);
                } else {
                    assert(after[k + 1] == x);
                }
            }
            if x == t {
                assert(after[i as int] == x);
            }
        }
    }
}

/// Taking in one more candidate keeps the schedule that of the candidates.
pub proof fn lemma_schedule_step(
    before: Seq<(u8, u8, u32)>,
    after: Seq<(u8, u8, u32)>,
    candidates: Seq<(u8, u8, u32)>,
    t: (u8, u8, u32),
)
    requires
        spec_is_schedule(before, candidates),
        spec_sorted_triggers(after),
        spec_time_listed(before, t) ==> after == before,
        forall|x: (u8, u8, u32)|
            after.contains(x) <==> (before.contains(x) || (x == t && !spec_time_listed(before, t))),
    ensures
        spec_is_schedule(after, candidates.push(t)),
{
    let more = candidates.push(t);
    assert forall|i: int| 0 <= i < after.len() implies spec_first_for_time(
        more,
        #[trigger] after[i],
    ) by {
        let x = after[i];
        assert(after.contains(x));
        if before.contains(x) {
            let k = choose|k: int| 0 <= k < before.len() && before[k] == x;
            assert(spec_first_for_time(candidates, before[k]));
            let j = choose|j: int|
                0 <= j < candidates.len() && #[trigger] candidates[j] == x && forall|k: int|
                    0 <= k < j ==> !spec_same_time(#[trigger] candidates[k], x);
            assert(more[j] == x);
            assert forall|k: int| 0 <= k < j implies !spec_same_time(#[trigger] more[k], x) by {
                assert(more[k] == candidates[k]);
            }
        } else {
            let j = candidates.len() as int;
            assert(more[j] == x);
            assert forall|k: int| 0 <= k < j implies !spec_same_time(#[trigger] more[k], x) by {
                assert(more[k] == candidates[k]);
                assert(spec_time_listed(before, candidates[k]));
                if spec_same_time(candidates[k], x) {
                    let l = choose|l: int|
                        0 <= l < before.len() && spec_same_time(#[trigger] before[l], candidates[k]);
                    assert(spec_same_time(before[l], t));
                }
            }
        }
    }
    assert forall|j: int| 0 <= j < more.len() implies spec_time_listed(after, #[trigger] more[j]) by {
        let c = more[j];
        if j < candidates.len() {
            assert(c == candidates[j]);
            assert(spec_time_listed(before, candidates[j]));
            let l = choose|l: int| 0 <= l < before.len() && spec_same_time(#[trigger] before[l], c);
            assert(before.contains(before[l]));
            assert(after.contains(before[l]));
            let m = choose|m: int| 0 <= m < after.len() && after[m] == before[l];
            assert(spec_same_time(after[m], c));
        } else {
            if spec_time_listed(before, t) {
            } else {
                assert(after.contains(t));
                let m = choose|m: int| 0 <= m < after.len() && after[m] == t;
                assert(spec_same_time(after[m], c));
            }
        }
    }
}

/// Whether `r` is the frequencies of the band `current` of the catalog.
pub open spec fn spec_schedule_chose(
    catalog: Map<u32, Seq<u16>>,
    current: Option<u32>,
    r: Result<Vec<u16>, ChooserError>,
) -> bool {
    match (current, r) {
        (Some(band), Ok(freqs)) => freqs@ == catalog[band],
        _ => false,
    }
}

/// Whether `triggers` is a sound schedule for the catalog `catalog`: it
/// has a trigger, its triggers are sorted by time, and the catalog has the
/// band of each.
pub open spec fn spec_schedule_wf(catalog: Map<u32, Seq<u16>>, triggers: Seq<(u8, u8, u32)>) -> bool {
    &&& triggers.len() > 0
    &&& spec_sorted_triggers(triggers)
    &&& spec_bands_known(catalog, triggers)
}

/// The chooser by schedule: its triggers, sorted by time, and the band it
/// chose last.
pub struct ScheduleChooserPlugin<'a> {
    bands: &'a FrequencyBandMap,
    triggers: Vec<(u8, u8, u32)>,
    current_band: Option<u32>,
}

impl<'a> ScheduleChooserPlugin<'a> {
    /// The catalog that the chooser picks from.
    pub closed spec fn spec_bands(&self) -> Map<u32, Seq<u16>> {
        self.bands@
    }

    /// The schedule, sorted by time.
    pub closed spec fn spec_triggers(&self) -> Seq<(u8, u8, u32)> {
        self.triggers@
    }

    /// The band that was chosen last.
    pub closed spec fn spec_current(&self) -> Option<u32> {
        self.current_band
    }

    /// What holds of every chooser: its schedule is sound, as
    /// `spec_schedule_wf` says.
    pub proof fn lemma_wf(&self)
        requires
            self.wf(),
        ensures
            spec_schedule_wf(self.spec_bands(), self.spec_triggers()),
    {
    }

    /// The chooser for the catalog `bands` with the schedule that the
    /// properties `props` give. Fails where they give no trigger.
    pub fn new(bands: &'a FrequencyBandMap, props: &'a Props) -> (r: Result<Self, ChooserError>)
        requires
            bands.wf(),
        ensures
            match r {
                Ok(s) => {
                    &&& s.wf()
                    &&& s.spec_bands() == bands@
                    &&& s.spec_current().is_none()
                    &&& spec_is_schedule(s.spec_triggers(), spec_candidates(bands@, props@))
                },
                Err(e) => e == ChooserError::NoValidTriggers && spec_candidates(
                    bands@,
                    props@,
                ).len() == 0,
            },
    {
        let mut triggers: Vec<(u8, u8, u32)> = Vec::new();
        let mut i: usize = 0;
        assert(props@.take(0) =~= Seq::empty());
        while i < props.len()
            invariant
                bands.wf(),
                i <= props@.len(),
                spec_is_schedule(triggers@, spec_candidates(bands@, props@.take(i as int))),
                spec_bands_known(bands@, triggers@),
            decreases props@.len() - i,
        {
            let prop = props.entry(i);
            proof {
                assert(props@.take(i + 1).drop_last() == props@.take(i as int));
                assert(props@.take(i + 1).last() == props@[i as int]);
            }
            match trigger_of(bands, prop.key.as_str(), prop.value.as_str()) {
                Some(t) => {
                    let ghost before = triggers@;
                    insert_trigger(&mut triggers, t);
                    proof {
                        lemma_schedule_step(
                            before,
                            triggers@,
                            spec_candidates(bands@, props@.take(i as int)),
                            t,
                        );
                        assert forall|k: int| 0 <= k < triggers@.len() implies bands@.dom().contains(
                            (#[trigger] triggers@[k]).2,
                        ) by {
                            assert(triggers@.contains(triggers@[k]));
                            if before.contains(triggers@[k]) {
                                let l = choose|l: int| 0 <= l < before.len() && before[l] == triggers@[k];
                                assert(bands@.dom().contains(before[l].2));
                            }
                        }
                    }
                },
                None => {},
            }
            i += 1;
        }
        assert(props@.take(props@.len() as int) == props@);
        if triggers.len() == 0 {
            proof {
                let c = spec_candidates(bands@, props@);
                if c.len() > 0 {
                    assert(spec_time_listed(triggers@, c[0]));
                }
            }
            return Err(ChooserError::NoValidTriggers);
        }
        Ok(ScheduleChooserPlugin { bands, triggers, current_band: None })
    }

    /// The frequencies of the band that the schedule selects at the time
    /// `clock`; that band is the current one from then on.
    pub fn choose_band_at(&mut self, clock: &ClockReading) -> (r: Result<Vec<u16>, ChooserError>)
        requires
            old(self).wf(),
        ensures
            final(self).wf(),
            final(self).spec_bands() == old(self).spec_bands(),
            final(self).spec_triggers() == old(self).spec_triggers(),
            final(self).spec_current() == spec_select_band(
                old(self).spec_triggers(),
                clock.hour,
                clock.minute,
            ),
            spec_schedule_chose(old(self).spec_bands(), final(self).spec_current(), r),
    {
        proof {
            lemma_select_listed(self.triggers@, clock.hour, clock.minute);
        }
        let band = match select_band(&self.triggers, clock.hour, clock.minute) {
            Some(band) => band,
            None => {
                return Err(ChooserError::NoValidTriggers);
            },
        };
        self.current_band = Some(band);
        match self.bands.get(band) {
            Some(freqs) => Ok(copy_freqs(freqs)),
            None => Err(ChooserError::InvalidBand(band)),
        }
    }

    /// Whether the schedule selects, at the time `clock`, another band than
    /// the current one.
    pub fn on_recv_frame_at(&mut self, frame: &Frame, clock: &ClockReading) -> (r: bool)
        requires
            old(self).wf(),
        ensures
            *final(self) == *old(self),
            r == (spec_select_band(old(self).spec_triggers(), clock.hour, clock.minute) != old(
                self,
            ).spec_current()),
    {
        let band = select_band(&self.triggers, clock.hour, clock.minute);
        match (band, self.current_band) {
            (Some(a), Some(b)) => a != b,
            (None, None) => false,
            _ => true,
        }
    }
}

/// What a schedule that is not empty selects is the band of one of its
/// triggers.
pub proof fn lemma_select_listed(triggers: Seq<(u8, u8, u32)>, hour: u8, minute: u8)
    requires
        triggers.len() > 0,
    ensures
        spec_select_band(triggers, hour, minute) matches Some(band) && exists|i: int|
            0 <= i < triggers.len() && (#[trigger] triggers[i]).2 == band,
{
    lemma_last_qualifying(triggers, hour, minute);
    match crate::utils::spec_last_qualifying(triggers, hour, minute) {
        Some(i) => {
            assert(triggers[i].2 == spec_select_band(triggers, hour, minute).unwrap());
        },
        None => {
            assert(triggers[triggers.len() - 1].2 == spec_select_band(
                triggers,
                hour,
                minute,
            ).unwrap());
        },
    }
}

/// The last trigger that has come is a place of the schedule.
pub proof fn lemma_last_qualifying(triggers: Seq<(u8, u8, u32)>, hour: u8, minute: u8)
    ensures
        crate::utils::spec_last_qualifying(triggers, hour, minute) matches Some(i) ==> 0 <= i
            < triggers.len(),
    decreases triggers.len(),
{
    if triggers.len() > 0 {
        lemma_last_qualifying(triggers.drop_last(), hour, minute);
    }
}

impl<'a> ChooserPlugin for ScheduleChooserPlugin<'a> {
    closed spec fn wf(&self) -> bool {
        self.bands.wf() && spec_schedule_wf(self.bands@, self.triggers@)
    }

    /// The frequencies of the band that the schedule selects at the time
    /// the clock shows.
    fn choose_band(&mut self, store: &SharedState) -> (r: Result<Vec<u16>, ChooserError>)
        ensures
            final(self).spec_bands() == old(self).spec_bands(),
            final(self).spec_triggers() == old(self).spec_triggers(),
            exists|hour: u8, minute: u8|
                hour < 24 && minute < 60 && final(self).spec_current() == #[trigger] spec_select_band(
                    old(self).spec_triggers(),
                    hour,
                    minute,
                ),
            spec_schedule_chose(old(self).spec_bands(), final(self).spec_current(), r),
    {
        let clock = read_clock();
        self.choose_band_at(&clock)
    }

    /// Whether the schedule selects, at the time the clock shows, another
    /// band than the current one.
    fn on_recv_frame(&mut self, frame: &Frame) -> (r: bool)
        ensures
            *final(self) == *old(self),
            exists|hour: u8, minute: u8|
                hour < 24 && minute < 60 && r == (#[trigger] spec_select_band(
                    old(self).spec_triggers(),
                    hour,
                    minute,
                ) != old(self).spec_current()),
    {
        let clock = read_clock();
        self.on_recv_frame_at(frame, &clock)
    }

    /// Never asks for a change: the schedule goes by the clock alone.
    fn on_timeout(&mut self) -> (r: bool)
        ensures
            !r,
            *final(self) == *old(self),
    {
        false
    }
}

} // verus!

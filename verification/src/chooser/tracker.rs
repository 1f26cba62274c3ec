//! The chooser that follows one ground station from band to band.

use crate::args::{spec_get, Props};
use crate::bands::FrequencyBandMap;
use crate::chooser::{copy_freqs, ChooserError, ChooserPlugin};
use crate::clock::{elapsed, read_clock, spec_elapsed};
use crate::config::{Config, GroundStation};
use crate::hfdl::{Entity, Frame};
use crate::random::shuffle;
use crate::state::{GroundStationInfo, GroundStationInfoView, SharedState};
use crate::text::{
    eq_ignore_ascii_case, parse_u64, parse_u8, spec_eq_ignore_case, spec_parse_unsigned,
    spec_starts_with_ignore_case, starts_with_ignore_ascii_case,
};
use vstd::prelude::*;

verus! {

/// The name under which the chooser is asked for.
pub const NAME: &'static str = "tracker";

/// The property that names the station to track.
pub const KEY_TARGET: &'static str = "target";

/// The property that gives the seconds after which the station counts as
/// lost.
pub const KEY_LAST_HEARD_TIMEOUT: &'static str = "last_heard_timeout";

/// How a frame names the kind of a ground station.
pub const GROUND_STATION: &'static str = "ground station";

/// The tracking chooser. Its view is its whole state.
pub struct TrackerChooserPlugin<'a> {
    bands: &'a FrequencyBandMap,
    target_id: u8,
    spdu_timeout: u64,
    last_heard_timeout: u64,
    started: u64,
    last_heard: Option<u64>,
    current_band: Option<u32>,
}

/// The chooser's state, as far as its contracts speak of it.
pub struct TrackerView {
    pub bands: Map<u32, Seq<u16>>,
    pub target_id: u8,
    pub spdu_timeout: u64,
    pub last_heard_timeout: u64,
    pub started: u64,
    pub last_heard: Option<u64>,
    pub current_band: Option<u32>,
}

/// Whether one of `stations` has the identifier `id`.
pub open spec fn spec_has_station(stations: Seq<GroundStation>, id: u8) -> bool {
    exists|i: int| 0 <= i < stations.len() && (#[trigger] stations[i]).id == id
}

/// The identifier of the first of `stations` whose name begins with
/// `prefix`, ASCII letters compared without regard to case.
pub open spec fn spec_first_named(stations: Seq<GroundStation>, prefix: Seq<char>) -> Option<u8>
    decreases stations.len(),
{
    if stations.len() == 0 {
        None
    } else if spec_starts_with_ignore_case(stations[0].name@, prefix) {
        Some(stations[0].id)
    } else {
        spec_first_named(stations.skip(1), prefix)
    }
}

/// The station that `target` names: the one with that identifier where
/// `target` is a number up to 255, else the first whose name begins with
/// `target`.
pub open spec fn spec_resolve_target(stations: Seq<GroundStation>, target: Seq<char>) -> Option<u8> {
    match spec_parse_unsigned(target, 255) {
        Some(id) => if spec_has_station(stations, id as u8) {
            Some(id as u8)
        } else {
            None
        },
        None => spec_first_named(stations, target),
    }
}

/// The seconds after which the station counts as lost: what the property
/// `last_heard_timeout` gives, and a third of `spdu_timeout` where it is
/// not given. `None` where it is given and is no number.
pub open spec fn spec_lost_after(props: Seq<(Seq<char>, Seq<char>)>, spdu_timeout: u64) -> Option<
    u64,
> {
    match spec_get(props, KEY_LAST_HEARD_TIMEOUT@) {
        Some(text) => match spec_parse_unsigned(text, u64::MAX as int) {
            Some(v) => Some(v as u64),
            None => None,
        },
        None => Some((spdu_timeout / 3) as u64),
    }
}

/// Whether `r` is what making a chooser at second `now` gives: a failure
/// where the property `target` is missing or names no station of the
/// configuration, or the property `last_heard_timeout` is given and is no
/// number; else a chooser for that station that has heard nothing and
/// chosen nothing.
pub open spec fn spec_tracker_made(
    r: Result<TrackerView, ChooserError>,
    config: Config,
    props: Seq<(Seq<char>, Seq<char>)>,
    now: u64,
) -> bool {
    match spec_get(props, KEY_TARGET@) {
        None => r == Err::<TrackerView, ChooserError>(ChooserError::MissingProperty),
        Some(target) => match spec_resolve_target(config.info.stations@, target) {
            None => r == Err::<TrackerView, ChooserError>(ChooserError::UnknownStation),
            Some(id) => match spec_lost_after(props, config.spdu_timeout) {
                None => r == Err::<TrackerView, ChooserError>(ChooserError::InvalidNumber),
                Some(timeout) => r == Ok::<TrackerView, ChooserError>(
                    TrackerView {
                        bands: config.info.bands@,
                        target_id: id,
                        spdu_timeout: config.spdu_timeout,
                        last_heard_timeout: timeout,
                        started: now,
                        last_heard: None,
                        current_band: None,
                    },
                ),
            },
        },
    }
}

/// Whether the active bands of a station can be relied on: it has some,
/// and they are not older than `spdu_timeout` seconds.
pub open spec fn spec_fresh(info: GroundStationInfoView, now: u64, spdu_timeout: u64) -> bool {
    info.active_bands.len() > 0 && match info.last_heard {
        Some(t) => spec_elapsed(now, t) <= spdu_timeout,
        None => true,
    }
}

/// The bands on which to look for a station: its active bands where they
/// can be relied on, else its assigned bands.
pub open spec fn spec_base(info: GroundStationInfoView, now: u64, spdu_timeout: u64) -> Seq<u32> {
    if spec_fresh(info, now, spdu_timeout) {
        info.active_bands
    } else {
        info.assigned_bands
    }
}

/// `s` without the band `x`.
pub open spec fn spec_without(s: Seq<u32>, x: Option<u32>) -> Seq<u32>
    decreases s.len(),
{
    if s.len() == 0 {
        Seq::empty()
    } else if Some(s.last()) == x {
        spec_without(s.drop_last(), x)
    } else {
        spec_without(s.drop_last(), x).push(s.last())
    }
}

/// The bands to choose from: those on which to look for the station,
/// without the band that is tuned; with it where nothing else is left.
pub open spec fn spec_tracker_candidates(
    info: GroundStationInfoView,
    current: Option<u32>,
    now: u64,
    spdu_timeout: u64,
) -> Seq<u32> {
    let base = spec_base(info, now, spdu_timeout);
    let rest = spec_without(base, current);
    if rest.len() > 0 {
        rest
    } else {
        base
    }
}

/// Whether `entity` is the ground station `target`.
pub open spec fn spec_involves(entity: Entity, target: u8) -> bool {
    spec_eq_ignore_case(entity.entity_type@, GROUND_STATION@) && entity.id == target
}

/// Whether `frame` comes from the station `target` or goes to it: a
/// point-to-point frame with the station at one end, or else a broadcast of
/// the station.
pub open spec fn spec_names_target(frame: Frame, target: u8) -> bool {
    match frame.hfdl.lpdu {
        Some(lpdu) => spec_involves(lpdu.dst, target) || spec_involves(lpdu.src, target),
        None => match frame.hfdl.spdu {
            Some(spdu) => spec_involves(spdu.src, target),
            None => false,
        },
    }
}

/// The chooser after a frame at second `now`: the station is heard where
/// the frame names it.
pub open spec fn spec_heard(v: TrackerView, frame: Frame, now: u64) -> TrackerView {
    TrackerView {
        last_heard: if spec_names_target(frame, v.target_id) {
            Some(now)
        } else {
            v.last_heard
        },
        ..v
    }
}

/// Whether, at second `now`, the station was not heard for more than the
/// chooser's timeout, counted from when the chooser was made where the
/// station was never heard.
pub open spec fn spec_lost(v: TrackerView, now: u64) -> bool {
    spec_elapsed(
        now,
        match v.last_heard {
            Some(t) => t,
            None => v.started,
        },
    ) > v.last_heard_timeout
}

/// Whether `after` and `r` are the chooser's state and what it returns
/// once it has chosen at second `now`, from the state `before`, with the
/// table of stations `info`. The chooser fails and stays as it is where the
/// table does not hold the station, or there is no band to choose from.
/// Else one of the bands to choose from is the current band from then on,
/// and the chooser returns its frequencies, or fails where the catalog has
/// no such band.
pub open spec fn spec_tracker_chose(
    before: TrackerView,
    info: Map<u8, GroundStationInfoView>,
    now: u64,
    after: TrackerView,
    r: Result<Vec<u16>, ChooserError>,
) -> bool {
    if !info.dom().contains(before.target_id) {
        &&& r == Err::<Vec<u16>, ChooserError>(ChooserError::UnknownStation)
        &&& after == before
    } else {
        let candidates = spec_tracker_candidates(
            info[before.target_id],
            before.current_band,
            now,
            before.spdu_timeout,
        );
        if candidates.len() == 0 {
            &&& r == Err::<Vec<u16>, ChooserError>(ChooserError::NoCandidate)
            &&& after == before
        } else {
            match after.current_band {
                Some(band) => {
                    &&& after == (TrackerView { current_band: Some(band), ..before })
                    &&& candidates.contains(band)
                    &&& if before.bands.dom().contains(band) {
                        match r {
                            Ok(freqs) => freqs@ == before.bands[band],
                            Err(_) => false,
                        }
                    } else {
                        r == Err::<Vec<u16>, ChooserError>(ChooserError::InvalidBand(band))
                    }
                },
                None => false,
            }
        }
    }
}

/// What `spec_without` leaves is in `s`, is not `x`, and is all of `s`
/// that is not `x`.
pub proof fn lemma_without(s: Seq<u32>, x: Option<u32>)
    ensures
        forall|b: u32|
            #![trigger spec_without(s, x).contains(b)]
            #![trigger s.contains(b)]
            spec_without(s, x).contains(b) <==> (s.contains(b) && Some(b) != x),
    decreases s.len(),
{
    if s.len() > 0 {
        let head = s.drop_last();
        lemma_without(head, x);
        let out = spec_without(s, x);
        assert forall|b: u32|
            #![trigger spec_without(s, x).contains(b)]
            #![trigger s.contains(b)]
            out.contains(b) <==> (s.contains(b) && Some(b) != x) by {
            if out.contains(b) {
                let k = choose|k: int| 0 <= k < out.len() && out[k] == b;
                if Some(s.last()) != x && k == out.len() - 1 {
                    assert(s[s.len() - 1] == b);
                } else {
                    assert(spec_without(head, x)[k] == b);
                    assert(spec_without(head, x).contains(b));
                    let l = choose|l: int| 0 <= l < head.len() && head[l] == b;
                    assert(s[l] == b);
                }
            }
            if s.contains(b) && Some(b) != x {
                let l = choose|l: int| 0 <= l < s.len() && s[l] == b;
                if l < head.len() {
                    assert(head[l] == b);
                    assert(spec_without(head, x).contains(b));
                    let k = choose|k: int|
                        0 <= k < spec_without(head, x).len() && spec_without(head, x)[k] == b;
                    assert(out[k] == b);
                } else {
                    assert(out[out.len() - 1] == b);
                }
            }
        }
    }
}

/// The chooser never picks the tuned band while the station can be looked
/// for on another one, and without reliable active bands it picks among
/// the assigned bands.
pub proof fn lemma_candidates(info: GroundStationInfoView, current: Option<u32>, now: u64, spdu_timeout: u64)
    ensures
        forall|b: u32| #[trigger]
            spec_tracker_candidates(info, current, now, spdu_timeout).contains(b) ==> spec_base(
                info,
                now,
                spdu_timeout,
            ).contains(b),
        !spec_fresh(info, now, spdu_timeout) ==> spec_base(info, now, spdu_timeout)
            == info.assigned_bands,
        (exists|b: u32| #[trigger]
            spec_base(info, now, spdu_timeout).contains(b) && Some(b) != current) ==> (forall|
            b: u32,
        | #[trigger]
            spec_tracker_candidates(info, current, now, spdu_timeout).contains(b) ==> Some(b)
                != current),
{
    let base = spec_base(info, now, spdu_timeout);
    lemma_without(base, current);
    if exists|b: u32| #[trigger] base.contains(b) && Some(b) != current {
        let b = choose|b: u32| #[trigger] base.contains(b) && Some(b) != current;
        assert(spec_without(base, current).contains(b));
    }
}

/// `s` without the band `x`.
fn without(s: &Vec<u32>, x: Option<u32>) -> (r: Vec<u32>)
    ensures
        r@ == spec_without(s@, x),
{
    let mut out: Vec<u32> = Vec::new();
    let mut i: usize = 0;
    assert(s@.take(0) =~= Seq::empty());
    while i < s.len()
        invariant
            i <= s.len(),
            out@ == spec_without(s@.take(i as int), x),
        decreases s.len() - i,
    {
        proof {
            assert(s@.take(i + 1).drop_last() == s@.take(i as int));
            assert(s@.take(i + 1).last() == s[i as int]);
        }
        let keep = match x {
            Some(b) => s[i] != b,
            None => true,
        };
        if keep {
            out.push(s[i]);
        }
        i += 1;
    }
    assert(s@.take(s.len() as int) == s@);
    out
}

/// The identifier of the first of `stations` whose name begins with
/// `prefix`.
fn first_named(stations: &Vec<GroundStation>, prefix: &str) -> (r: Option<u8>)
    ensures
        r == spec_first_named(stations@, prefix@),
{
    let mut i: usize = 0;
    assert(stations@.skip(0) == stations@);
    while i < stations.len()
        invariant
            i <= stations.len(),
            spec_first_named(stations@, prefix@) == spec_first_named(
                stations@.skip(i as int),
                prefix@,
            ),
        decreases stations.len() - i,
    {
        proof {
            let rest = stations@.skip(i as int);
            assert(rest[0] == stations[i as int]);
            assert(rest.skip(1) == stations@.skip(i + 1));
        }
        if starts_with_ignore_ascii_case(stations[i].name.as_str(), prefix) {
            return Some(stations[i].id);
        }
        i += 1;
    }
    None
}

/// Whether one of `stations` has the identifier `id`.
fn has_station(stations: &Vec<GroundStation>, id: u8) -> (r: bool)
    ensures
        r == spec_has_station(stations@, id),
{
    let mut i: usize = 0;
    while i < stations.len()
        invariant
            i <= stations.len(),
            forall|j: int| 0 <= j < i ==> (#[trigger] stations[j]).id != id,
        decreases stations.len() - i,
    {
        if stations[i].id == id {
            return true;
        }
        i += 1;
    }
    false
}

/// Whether `entity` is the ground station `target`.
fn involves(entity: &Entity, target: u8) -> (r: bool)
    ensures
        r == spec_involves(*entity, target),
{
    eq_ignore_ascii_case(entity.entity_type.as_str(), GROUND_STATION) && entity.id == target
}

/// The bands to choose from for a station of which `info` is known.
pub fn tracker_candidates(info: &GroundStationInfo, current: Option<u32>, now: u64, spdu_timeout: u64) -> (r:
    Vec<u32>)
    ensures
        r@ == spec_tracker_candidates(info@, current, now, spdu_timeout),
{
    let fresh = info.active_bands.len() > 0 && match info.last_heard {
        Some(t) => elapsed(now, t) <= spdu_timeout,
        None => true,
    };
    let base = if fresh {
        &info.active_bands
    } else {
        &info.assigned_bands
    };
    let rest = without(base, current);
    if rest.len() > 0 {
        rest
    } else {
        let copy = base.clone();
        assert(copy@ =~= base@);
        copy
    }
}

impl<'a> View for TrackerChooserPlugin<'a> {
    type V = TrackerView;

    closed spec fn view(&self) -> TrackerView {
        TrackerView {
            bands: self.bands@,
            target_id: self.target_id,
            spdu_timeout: self.spdu_timeout,
            last_heard_timeout: self.last_heard_timeout,
            started: self.started,
            last_heard: self.last_heard,
            current_band: self.current_band,
        }
    }
}

/// The chooser of `r` by its view.
pub open spec fn spec_viewed(r: Result<TrackerChooserPlugin, ChooserError>) -> Result<
    TrackerView,
    ChooserError,
> {
    match r {
        Ok(t) => Ok(t@),
        Err(e) => Err(e),
    }
}

impl<'a> TrackerChooserPlugin<'a> {
    /// The chooser that tracks the station that the property `target`
    /// names, made at second `now`. Fails where the property is missing or
    /// names no station of the configuration, and where the property
    /// `last_heard_timeout` is given and is no number.
    pub fn new_at(config: &'a Config, props: &Props, now: u64) -> (r: Result<Self, ChooserError>)
        requires
            config.wf(),
        ensures
            r matches Ok(t) ==> t.wf(),
            spec_tracker_made(spec_viewed(r), *config, props@, now),
    {
        let target = match props.get(KEY_TARGET) {
            Some(t) => t,
            None => {
                return Err(ChooserError::MissingProperty);
            },
        };
        let found = match parse_u8(target) {
            Some(id) => if has_station(&config.info.stations, id) {
                Some(id)
            } else {
                None
            },
            None => first_named(&config.info.stations, target),
        };
        let target_id = match found {
            Some(id) => id,
            None => {
                return Err(ChooserError::UnknownStation);
            },
        };
        let last_heard_timeout = match props.get(KEY_LAST_HEARD_TIMEOUT) {
            Some(text) => match parse_u64(text) {
                Some(v) => v,
                None => {
                    return Err(ChooserError::InvalidNumber);
                },
            },
            None => config.spdu_timeout / 3,
        };
        Ok(
            TrackerChooserPlugin {
                bands: &config.info.bands,
                target_id,
                spdu_timeout: config.spdu_timeout,
                last_heard_timeout,
                started: now,
                last_heard: None,
                current_band: None,
            },
        )
    }

    /// The chooser that tracks the station that the property `target`
    /// names, made at the time the clock shows.
    pub fn new(config: &'a Config, props: &Props) -> (r: Result<Self, ChooserError>)
        requires
            config.wf(),
        ensures
            r matches Ok(t) ==> t.wf(),
            exists|now: u64| #[trigger]
                spec_tracker_made(spec_viewed(r), *config, props@, now),
    {
        let clock = read_clock();
        TrackerChooserPlugin::new_at(config, props, clock.secs)
    }

    /// Tunes to the first of `shuffled`: that band is the current one from
    /// then on. Fails, and changes nothing, where `shuffled` is empty; fails
    /// after the change where the catalog has no such band.
    pub fn settle(&mut self, shuffled: &Vec<u32>) -> (r: Result<Vec<u16>, ChooserError>)
        requires
            old(self).wf(),
        ensures
            final(self).wf(),
            if shuffled.len() == 0 {
                &&& r == Err::<Vec<u16>, ChooserError>(ChooserError::NoCandidate)
                &&& final(self)@ == old(self)@
            } else {
                &&& final(self)@ == (TrackerView { current_band: Some(shuffled[0]), ..old(self)@ })
                &&& if old(self)@.bands.dom().contains(shuffled[0]) {
                    r matches Ok(freqs) && freqs@ == old(self)@.bands[shuffled[0]]
                } else {
                    r == Err::<Vec<u16>, ChooserError>(ChooserError::InvalidBand(shuffled[0]))
                }
            },
    {
        if shuffled.len() == 0 {
            return Err(ChooserError::NoCandidate);
        }
        let band = shuffled[0];
        self.current_band = Some(band);
        match self.bands.get(band) {
            Some(freqs) => Ok(copy_freqs(freqs)),
            None => Err(ChooserError::InvalidBand(band)),
        }
    }

    /// Chooses, at second `now`, a band on which to look for the station:
    /// one of `spec_tracker_candidates`, drawn by chance.
    pub fn choose_band_at(&mut self, store: &SharedState, now: u64) -> (r: Result<
        Vec<u16>,
        ChooserError,
    >)
        requires
            old(self).wf(),
        ensures
            final(self).wf(),
            spec_tracker_chose(old(self)@, store@.gs_info, now, final(self)@, r),
    {
        let info = match store.ground_station(self.target_id) {
            Some(info) => info,
            None => {
                return Err(ChooserError::UnknownStation);
            },
        };
        let mut candidates = tracker_candidates(&info, self.current_band, now, self.spdu_timeout);
        let ghost before = candidates@;
        shuffle(&mut candidates);
        proof {
            before.to_multiset_ensures();
            candidates@.to_multiset_ensures();
            if candidates@.len() > 0 {
                assert(candidates@.contains(candidates@[0]));
                assert(before.to_multiset().count(candidates@[0]) > 0);
            }
        }
        self.settle(&candidates)
    }

    /// Takes note of `frame`, received at second `now`: the station is
    /// heard where the frame names it. Returns whether the station was not
    /// heard for more than the chooser's timeout, counted from when the
    /// chooser was made where the station was never heard.
    pub fn on_recv_frame_at(&mut self, frame: &Frame, now: u64) -> (r: bool)
        requires
            old(self).wf(),
        ensures
            final(self).wf(),
            final(self)@ == spec_heard(old(self)@, *frame, now),
            r == spec_lost(final(self)@, now),
    {
        let names = match &frame.hfdl.lpdu {
            Some(lpdu) => involves(&lpdu.dst, self.target_id) || involves(&lpdu.src, self.target_id),
            None => match &frame.hfdl.spdu {
                Some(spdu) => involves(&spdu.src, self.target_id),
                None => false,
            },
        };
        if names {
            self.last_heard = Some(now);
        }
        let since = match self.last_heard {
            Some(t) => t,
            None => self.started,
        };
        elapsed(now, since) > self.last_heard_timeout
    }
}

impl<'a> ChooserPlugin for TrackerChooserPlugin<'a> {
    closed spec fn wf(&self) -> bool {
        self.bands.wf()
    }

    /// Chooses, at the time the clock shows, a band on which to look for
    /// the station.
    fn choose_band(&mut self, store: &SharedState) -> (r: Result<Vec<u16>, ChooserError>)
        ensures
            exists|now: u64| #[trigger]
                spec_tracker_chose(old(self)@, store@.gs_info, now, final(self)@, r),
    {
        let clock = read_clock();
        self.choose_band_at(store, clock.secs)
    }

    /// Takes note of `frame`, as received at the time the clock shows.
    fn on_recv_frame(&mut self, frame: &Frame) -> (r: bool)
        ensures
            exists|now: u64|
                final(self)@ == #[trigger] spec_heard(old(self)@, *frame, now) && r == spec_lost(
                    final(self)@,
                    now,
                ),
    {
        let clock = read_clock();
        self.on_recv_frame_at(frame, clock.secs)
    }

    /// Always asks for a change: silence on a band is reason to look on
    /// another one.
    fn on_timeout(&mut self) -> (r: bool)
        ensures
            r,
            *final(self) == *old(self),
    {
        true
    }
}

} // verus!

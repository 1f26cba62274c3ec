//! The choosers: the policies that pick the band to listen on next and say
//! when to leave it.

pub mod rotate;
pub mod schedule;
pub mod single;
pub mod tracker;

use crate::args::Props;
use crate::clock::{read_clock, ClockReading};
use crate::random::random_below;
use crate::config::Config;
use crate::hfdl::Frame;
use crate::state::SharedState;
use crate::text::str_eq;
use vstd::prelude::*;

verus! {

/// Why a chooser could not be made, or could not choose.
#[derive(Debug, Clone, Copy, PartialEq, Eq, Structural)]
pub enum ChooserError {
    /// No chooser has this name.
    UnknownPlugin,
    /// A property that the chooser needs is not given.
    MissingProperty,
    /// A property that has to be a number is none.
    InvalidNumber,
    /// The catalog has no band with this identifier.
    InvalidBand(u32),
    /// No trigger of the schedule is valid.
    NoValidTriggers,
    /// No ground station has the identifier or the name asked for.
    UnknownStation,
    /// The station to track has no band to listen on.
    NoCandidate,
}

/// What every chooser does.
pub trait ChooserPlugin {
    /// Whether the chooser is as its constructor and its methods leave it.
    spec fn wf(&self) -> bool;

    /// The frequencies of the band to listen on next.
    fn choose_band(&mut self, store: &SharedState) -> (r: Result<Vec<u16>, ChooserError>)
        requires
            old(self).wf(),
            store.wf(),
        ensures
            final(self).wf(),
    ;

    /// Told of a decoded frame; whether to change the band now.
    fn on_recv_frame(&mut self, frame: &Frame) -> (r: bool)
        requires
            old(self).wf(),
        ensures
            final(self).wf(),
    ;

    /// Told that no frame came for a while; whether to change the band now.
    fn on_timeout(&mut self) -> (r: bool)
        requires
            old(self).wf(),
        ensures
            final(self).wf(),
    ;
}

/// A copy of the frequencies `freqs`.
pub fn copy_freqs(freqs: &Vec<u16>) -> (r: Vec<u16>)
    ensures
        r@ == freqs@,
{
    let r = freqs.clone();
    assert(r@ =~= freqs@);
    r
}


/// A chooser of one of the four kinds.
pub enum Chooser<'a> {
    Single(single::SingleChooserPlugin<'a>),
    Rotate(rotate::RotateChooserPlugin<'a>),
    Schedule(schedule::ScheduleChooserPlugin<'a>),
    Tracker(tracker::TrackerChooserPlugin<'a>),
}

/// Whether `after` and `r` are the chooser's state and what it returns once
/// it has chosen at the time `clock`, from the state `before`, with the
/// store's contents `store`: each kind of chooser as its own contract says.
pub open spec fn spec_chose(
    before: Chooser,
    store: crate::state::StoreView,
    clock: ClockReading,
    after: Chooser,
    r: Result<Vec<u16>, ChooserError>,
) -> bool {
    match (before, after) {
        (Chooser::Single(a), Chooser::Single(b)) => b == a && single::spec_single_chose(
            a.spec_bands(),
            a.spec_props(),
            r,
        ),
        (Chooser::Rotate(a), Chooser::Rotate(b)) => rotate::spec_chosen(b@, r) && exists|draw: usize| #[trigger]
            rotate::spec_choose(a@, clock.hour, clock.minute, draw) == b@,
        (Chooser::Schedule(a), Chooser::Schedule(b)) => {
            &&& b.spec_bands() == a.spec_bands()
            &&& b.spec_triggers() == a.spec_triggers()
            &&& b.spec_current() == crate::utils::spec_select_band(
                a.spec_triggers(),
                clock.hour,
                clock.minute,
            )
            &&& schedule::spec_schedule_chose(a.spec_bands(), b.spec_current(), r)
        },
        (Chooser::Tracker(a), Chooser::Tracker(b)) => tracker::spec_tracker_chose(
            a@,
            store.gs_info,
            clock.secs,
            b@,
            r,
        ),
        _ => false,
    }
}

/// Whether `after` and `r` are the chooser's state and its answer once it
/// was told of `frame` at the time `clock`, in the state `before`.
pub open spec fn spec_told(before: Chooser, frame: Frame, clock: ClockReading, after: Chooser, r: bool) -> bool {
    match (before, after) {
        (Chooser::Single(a), Chooser::Single(b)) => b == a && !r,
        (Chooser::Rotate(a), Chooser::Rotate(b)) => {
            &&& r == rotate::spec_prefer_pending(a@, clock.hour, clock.minute)
            &&& b@ == rotate::spec_apply_preference(a@, clock.hour, clock.minute)
        },
        (Chooser::Schedule(a), Chooser::Schedule(b)) => {
            &&& b == a
            &&& r == (crate::utils::spec_select_band(a.spec_triggers(), clock.hour, clock.minute)
                != a.spec_current())
        },
        (Chooser::Tracker(a), Chooser::Tracker(b)) => {
            &&& b@ == tracker::spec_heard(a@, frame, clock.secs)
            &&& r == tracker::spec_lost(b@, clock.secs)
        },
        _ => false,
    }
}

/// Whether `after` and `r` are the chooser's state and its answer once it
/// was told at the time `clock` that no frame came, in the state `before`.
/// The single and the schedule chooser never ask for a change then, the
/// rotate and the tracker chooser always do.
pub open spec fn spec_timed_out(before: Chooser, clock: ClockReading, after: Chooser, r: bool) -> bool {
    match (before, after) {
        (Chooser::Single(a), Chooser::Single(b)) => b == a && !r,
        (Chooser::Rotate(a), Chooser::Rotate(b)) => r && b@ == rotate::spec_apply_preference(
            a@,
            clock.hour,
            clock.minute,
        ),
        (Chooser::Schedule(a), Chooser::Schedule(b)) => b == a && !r,
        (Chooser::Tracker(a), Chooser::Tracker(b)) => b == a && r,
        _ => false,
    }
}

/// Whether `r` is what making the chooser `name` at the time `clock`
/// gives, for the configuration `config` and the properties `props`: a
/// chooser of the kind that `name` names, made as the kind's constructor
/// makes it, or why there is none.
pub open spec fn spec_made(
    name: Seq<char>,
    config: Config,
    props: Props,
    clock: ClockReading,
    r: Result<Chooser, ChooserError>,
) -> bool {
    if name == rotate::NAME@ {
        match r {
            Ok(Chooser::Rotate(c)) => rotate::spec_rotate_new(
                Ok(c@),
                config.info.bands@,
                props@,
                clock.hour,
                clock.minute,
            ),
            Ok(_) => false,
            Err(e) => rotate::spec_rotate_new(
                Err(e),
                config.info.bands@,
                props@,
                clock.hour,
                clock.minute,
            ),
        }
    } else if name == single::NAME@ {
        match r {
            Ok(Chooser::Single(c)) => c.spec_bands() == config.info.bands@ && c.spec_props()
                == props@,
            _ => false,
        }
    } else if name == schedule::NAME@ {
        match r {
            Ok(Chooser::Schedule(c)) => {
                &&& c.spec_bands() == config.info.bands@
                &&& c.spec_current().is_none()
                &&& schedule::spec_is_schedule(
                    c.spec_triggers(),
                    schedule::spec_candidates(config.info.bands@, props@),
                )
            },
            Ok(_) => false,
            Err(e) => e == ChooserError::NoValidTriggers && schedule::spec_candidates(
                config.info.bands@,
                props@,
            ).len() == 0,
        }
    } else if name == tracker::NAME@ {
        match r {
            Ok(Chooser::Tracker(c)) => tracker::spec_tracker_made(Ok(c@), config, props@, clock.secs),
            Ok(_) => false,
            Err(e) => tracker::spec_tracker_made(Err(e), config, props@, clock.secs),
        }
    } else {
        r matches Err(e) && e == ChooserError::UnknownPlugin
    }
}

impl<'a> Chooser<'a> {
    /// Chooses at the time `clock`.
    pub fn choose_band_at(&mut self, store: &SharedState, clock: &ClockReading) -> (r: Result<
        Vec<u16>,
        ChooserError,
    >)
        requires
            old(self).wf(),
            store.wf(),
        ensures
            final(self).wf(),
            spec_chose(*old(self), store@, *clock, *final(self), r),
    {
        match self {
            Chooser::Single(c) => c.choose_band(store),
            Chooser::Rotate(c) => {
                let ghost before = c@;
                let count = c.prepare(clock);
                let draw = if count > 0 {
                    random_below(count)
                } else {
                    0
                };
                let r = c.advance(draw);
                assert(rotate::spec_choose(before, clock.hour, clock.minute, draw) == c@);
                r
            },
            Chooser::Schedule(c) => c.choose_band_at(clock),
            Chooser::Tracker(c) => c.choose_band_at(store, clock.secs),
        }
    }

    /// Tells the chooser of `frame`, received at the time `clock`, and
    /// returns whether it asks for a change of band.
    pub fn on_recv_frame_at(&mut self, frame: &Frame, clock: &ClockReading) -> (r: bool)
        requires
            old(self).wf(),
        ensures
            final(self).wf(),
            spec_told(*old(self), *frame, *clock, *final(self), r),
    {
        match self {
            Chooser::Single(c) => c.on_recv_frame(frame),
            Chooser::Rotate(c) => c.determine_preferred_band_change_at(clock),
            Chooser::Schedule(c) => c.on_recv_frame_at(frame, clock),
            Chooser::Tracker(c) => c.on_recv_frame_at(frame, clock.secs),
        }
    }

    /// Tells the chooser, at the time `clock`, that no frame came, and
    /// returns whether it asks for a change of band.
    pub fn on_timeout_at(&mut self, clock: &ClockReading) -> (r: bool)
        requires
            old(self).wf(),
        ensures
            final(self).wf(),
            spec_timed_out(*old(self), *clock, *final(self), r),
    {
        match self {
            Chooser::Single(c) => c.on_timeout(),
            Chooser::Rotate(c) => c.on_timeout_at(clock),
            Chooser::Schedule(c) => c.on_timeout(),
            Chooser::Tracker(c) => c.on_timeout(),
        }
    }
}

impl<'a> ChooserPlugin for Chooser<'a> {
    open spec fn wf(&self) -> bool {
        match self {
            Chooser::Single(c) => c.wf(),
            Chooser::Rotate(c) => c.wf(),
            Chooser::Schedule(c) => c.wf(),
            Chooser::Tracker(c) => c.wf(),
        }
    }

    /// Chooses at the time the clock shows.
    fn choose_band(&mut self, store: &SharedState) -> (r: Result<Vec<u16>, ChooserError>)
        ensures
            exists|clock: ClockReading|
                clock.wf() && #[trigger] spec_chose(*old(self), store@, clock, *final(self), r),
    {
        let clock = read_clock();
        self.choose_band_at(store, &clock)
    }

    /// Tells the chooser of `frame`, as received at the time the clock
    /// shows.
    fn on_recv_frame(&mut self, frame: &Frame) -> (r: bool)
        ensures
            exists|clock: ClockReading|
                clock.wf() && #[trigger] spec_told(*old(self), *frame, clock, *final(self), r),
    {
        let clock = read_clock();
        self.on_recv_frame_at(frame, &clock)
    }

    /// Tells the chooser, at the time the clock shows, that no frame came.
    fn on_timeout(&mut self) -> (r: bool)
        ensures
            exists|clock: ClockReading|
                clock.wf() && #[trigger] spec_timed_out(*old(self), clock, *final(self), r),
    {
        let clock = read_clock();
        self.on_timeout_at(&clock)
    }
}

/// The chooser `name` for the configuration `config` with the properties
/// `props`, made at the time `clock`.
pub fn get_at<'a>(name: &str, config: &'a Config, props: &'a Props, clock: &ClockReading) -> (r:
    Result<Chooser<'a>, ChooserError>)
    requires
        config.wf(),
    ensures
        r matches Ok(c) ==> c.wf(),
        spec_made(name@, *config, *props, *clock, r),
{
    if str_eq(name, rotate::NAME) {
        match rotate::RotateChooserPlugin::new_at(&config.info.bands, props, clock) {
            Ok(c) => Ok(Chooser::Rotate(c)),
            Err(e) => Err(e),
        }
    } else if str_eq(name, single::NAME) {
        Ok(Chooser::Single(single::SingleChooserPlugin::new(&config.info.bands, props)))
    } else if str_eq(name, schedule::NAME) {
        match schedule::ScheduleChooserPlugin::new(&config.info.bands, props) {
            Ok(c) => Ok(Chooser::Schedule(c)),
            Err(e) => Err(e),
        }
    } else if str_eq(name, tracker::NAME) {
        match tracker::TrackerChooserPlugin::new_at(config, props, clock.secs) {
            Ok(c) => Ok(Chooser::Tracker(c)),
            Err(e) => Err(e),
        }
    } else {
        Err(ChooserError::UnknownPlugin)
    }
}

/// The chooser `name` for the configuration `config` with the properties
/// `props`, made at the time the clock shows.
pub fn get<'a>(name: &str, config: &'a Config, props: &'a Props) -> (r: Result<
    Chooser<'a>,
    ChooserError,
>)
    requires
        config.wf(),
    ensures
        r matches Ok(c) ==> c.wf(),
        exists|clock: ClockReading|
            clock.wf() && #[trigger] spec_made(name@, *config, *props, clock, r),
{
    let clock = read_clock();
    get_at(name, config, props, &clock)
}

} // verus!

//! The session supervisor: it chooses a band, has the decoder run on it,
//! takes in what the decoder reads, and decides when the session ends.
//!
//! The supervisor starts and stops nothing itself. Its caller runs the
//! decoder, and tells the supervisor what happened: a frame, a line that is
//! no frame, a timeout, a bad read. The supervisor answers with what to do
//! next.

pub mod settings;
pub mod state;

use crate::autopilot::settings::Settings;
use crate::autopilot::state::OpsState;
use crate::chooser::{spec_chose, spec_timed_out, spec_told, Chooser, ChooserError, ChooserPlugin};
use crate::clock::{elapsed, read_clock, spec_elapsed, ClockReading};
use crate::hfdl::Frame;
use crate::state::{
    spec_clean_up, spec_consistent, spec_inc_u32, spec_inc_u64, spec_update, SessionStateView,
    SharedState, StoreView,
};
use crate::utils::{get_sampling_rate, spec_first_fit, spec_span};
use vstd::prelude::*;

verus! {

/// Where the supervisor stands.
#[derive(Debug, Clone, Copy, PartialEq, Eq, Structural)]
pub enum Phase {
    /// A band is to be chosen.
    Selecting,
    /// The decoder runs, or is to be started, on the chosen band.
    Running,
    /// The session is over: the decoder is to be stopped.
    Draining,
    /// The supervisor is done.
    Terminated,
}

/// Why no session was begun.
#[derive(Debug, Clone, Copy, PartialEq, Eq, Structural)]
pub enum AutopilotError {
    /// The supervisor is not about to choose a band.
    NotSelecting,
    /// The chooser has no band.
    Chooser(ChooserError),
    /// The band is too wide for every sampling rate of the radio.
    SpanTooWide,
}

/// The supervisor, with its chooser and its store.
pub struct Autopilot<'a> {
    swarm_url: Option<String>,
    pub settings: Settings,
    pub state: OpsState,
    chooser: Chooser<'a>,
    store: SharedState,
    max_bad_reads: u32,
    phase: Phase,
    bad_reads: u32,
    last_cleanup: u64,
    cleanups: u64,
    rejected: u64,
}

/// The supervisor's state, as far as its contracts speak of it.
pub struct AutopilotView {
    pub phase: Phase,
    /// How many reads in a row were bad.
    pub bad_reads: u32,
    /// At how many bad reads in a row the supervisor ends.
    pub max_bad_reads: u32,
    /// The second at which the store was last cleaned up.
    pub last_cleanup: u64,
    /// How often the store was cleaned up.
    pub cleanups: u64,
    /// How many frames the store refused.
    pub rejected: u64,
    pub store: StoreView,
    pub catalog: Map<u32, Seq<u16>>,
    pub spdu_timeout: u64,
    pub ac_timeout: u64,
    pub sampling_rates: Seq<u32>,
    pub swarm_url: Option<Seq<char>>,
}

/// Whether the store is due for a clean-up at second `now`.
pub open spec fn spec_cleanup_due(v: AutopilotView, now: u64) -> bool {
    spec_elapsed(now, v.last_cleanup) >= v.ac_timeout
}

/// The state after the choice `choice` of the chooser. A supervisor that
/// is not about to choose stays as it is. A failed choice, and a band that
/// is too wide for every sampling rate, end the supervisor. Any other
/// choice begins a session on the chosen frequencies.
pub open spec fn spec_after_choice(v: AutopilotView, choice: Result<Vec<u16>, ChooserError>) -> AutopilotView {
    if v.phase != Phase::Selecting {
        v
    } else {
        match choice {
            Err(_) => AutopilotView { phase: Phase::Terminated, ..v },
            Ok(freqs) => match spec_first_fit(spec_span(freqs@), v.sampling_rates) {
                None => AutopilotView { phase: Phase::Terminated, ..v },
                Some(_) => AutopilotView {
                    phase: Phase::Running,
                    store: spec_tuned(v.store, v.catalog, freqs@),
                    ..v
                },
            },
        }
    }
}

/// The store once `freqs` are tuned: it names their band, unless there are
/// none or the first of them belongs to no band.
pub open spec fn spec_tuned(s: StoreView, catalog: Map<u32, Seq<u16>>, freqs: Seq<u16>) -> StoreView {
    if freqs.len() > 0 {
        match crate::bands::spec_freq_to_band(catalog, freqs[0] as int) {
            Some(band) => StoreView { session: SessionStateView { band, freqs }, ..s },
            None => s,
        }
    } else {
        s
    }
}

/// What the supervisor returns for the choice `choice`: the frequencies to
/// tune and the sampling rate for them, or why no session begins.
pub open spec fn spec_choice_result(
    v: AutopilotView,
    choice: Result<Vec<u16>, ChooserError>,
    r: Result<(Vec<u16>, u32), AutopilotError>,
) -> bool {
    if v.phase != Phase::Selecting {
        r matches Err(e) && e == AutopilotError::NotSelecting
    } else {
        match choice {
            Err(e) => r matches Err(f) && f == AutopilotError::Chooser(e),
            Ok(freqs) => match spec_first_fit(spec_span(freqs@), v.sampling_rates) {
                None => r matches Err(f) && f == AutopilotError::SpanTooWide,
                Some(rate) => r matches Ok(pair) && pair.0@ == freqs@ && pair.1 == rate,
            },
        }
    }
}

/// The state after the frame `frame` was read at second `now`, where
/// `asked` is whether the chooser asked for a change then. Outside a
/// session nothing changes. In a session the read is a good one, and the
/// frame is taken into the store, or counted as refused. Then the session
/// is over where the chooser asked for a change; else the store is cleaned
/// up where that is due.
pub open spec fn spec_after_frame(v: AutopilotView, frame: Frame, now: u64, asked: bool) -> AutopilotView {
    if v.phase != Phase::Running {
        v
    } else {
        let taken = AutopilotView {
            bad_reads: 0,
            store: spec_update(v.store, v.catalog, v.spdu_timeout, frame, now),
            rejected: if spec_consistent(v.catalog, frame) {
                v.rejected
            } else {
                spec_inc_u64(v.rejected)
            },
            ..v
        };
        if asked {
            AutopilotView { phase: Phase::Draining, ..taken }
        } else if spec_cleanup_due(taken, now) {
            AutopilotView {
                store: StoreView {
                    flights: spec_clean_up(taken.store.flights, now, v.ac_timeout),
                    ..taken.store
                },
                last_cleanup: now,
                cleanups: spec_inc_u64(v.cleanups),
                ..taken
            }
        } else {
            taken
        }
    }
}

/// The state after a line that is no frame: in a session, the read is a
/// good one.
pub open spec fn spec_after_unparsable(v: AutopilotView) -> AutopilotView {
    if v.phase != Phase::Running {
        v
    } else {
        AutopilotView { bad_reads: 0, ..v }
    }
}

/// The state after no line came in time, where `asked` is whether the
/// chooser asked for a change then.
pub open spec fn spec_after_timeout(v: AutopilotView, asked: bool) -> AutopilotView {
    if v.phase == Phase::Running && asked {
        AutopilotView { phase: Phase::Draining, ..v }
    } else {
        v
    }
}

/// The state after a bad read, the end of the decoder's output or an
/// error: in a session, the read is counted and the session is over.
pub open spec fn spec_after_bad_read(v: AutopilotView) -> AutopilotView {
    if v.phase != Phase::Running {
        v
    } else {
        AutopilotView { phase: Phase::Draining, bad_reads: spec_inc_u32(v.bad_reads), ..v }
    }
}

/// The state after the decoder was stopped, at second `now`: the store is
/// cleaned up, and the supervisor ends where the bad reads in a row have
/// reached their maximum, and else chooses again.
pub open spec fn spec_after_drain(v: AutopilotView, now: u64) -> AutopilotView {
    if v.phase != Phase::Draining {
        v
    } else {
        AutopilotView {
            phase: if v.bad_reads >= v.max_bad_reads {
                Phase::Terminated
            } else {
                Phase::Selecting
            },
            store: StoreView {
                flights: spec_clean_up(v.store.flights, now, v.ac_timeout),
                ..v.store
            },
            last_cleanup: now,
            cleanups: spec_inc_u64(v.cleanups),
            ..v
        }
    }
}

/// A session in which the chooser never asks for a change goes on through
/// timeouts and frames, and is over with the first bad read. Where that
/// read uses up the budget of bad reads, the supervisor ends once the
/// decoder is stopped; and where no clean-up was due while the frame came
/// in, the store was cleaned up once by then.
pub proof fn lemma_bad_read_ends_the_supervisor(v: AutopilotView, frame: Frame, at_frame: u64, at_end: u64)
    requires
        v.phase == Phase::Running,
        v.max_bad_reads <= 1,
        !spec_cleanup_due(v, at_frame),
    ensures
        ({
            let read = spec_after_frame(
                spec_after_timeout(spec_after_timeout(v, false), false),
                frame,
                at_frame,
                false,
            );
            let end = spec_after_drain(spec_after_bad_read(read), at_end);
            &&& read.phase == Phase::Running
            &&& read.cleanups == v.cleanups
            &&& end.phase == Phase::Terminated
            &&& end.cleanups == spec_inc_u64(v.cleanups)
        }),
{
}

/// The string of `s` by its view.
pub open spec fn spec_text(s: Option<String>) -> Option<Seq<char>> {
    match s {
        Some(t) => Some(t@),
        None => None,
    }
}

impl<'a> View for Autopilot<'a> {
    type V = AutopilotView;

    closed spec fn view(&self) -> AutopilotView {
        AutopilotView {
            phase: self.phase,
            bad_reads: self.bad_reads,
            max_bad_reads: self.max_bad_reads,
            last_cleanup: self.last_cleanup,
            cleanups: self.cleanups,
            rejected: self.rejected,
            store: self.store@,
            catalog: self.store.spec_bands(),
            spdu_timeout: self.store.spec_spdu_timeout(),
            ac_timeout: self.store.spec_ac_timeout(),
            sampling_rates: self.state.spec_sampling_rates(),
            swarm_url: spec_text(self.swarm_url),
        }
    }
}

impl<'a> Autopilot<'a> {
    /// The supervisor's chooser.
    pub closed spec fn spec_chooser(&self) -> Chooser<'a> {
        self.chooser
    }

    /// What can be set while the supervisor runs.
    pub closed spec fn spec_settings(&self) -> Settings {
        self.settings
    }

    /// The system table, the sampling rates and the band catalog.
    pub closed spec fn spec_state(&self) -> OpsState {
        self.state
    }

    /// Whether the chooser and the store are well formed.
    pub closed spec fn wf(&self) -> bool {
        self.chooser.wf() && self.store.wf()
    }

    /// The supervisor for the chooser `chooser` and the store `store`,
    /// made at second `now`: about to choose a band.
    pub fn new_at(
        settings: Settings,
        state: OpsState,
        chooser: Chooser<'a>,
        store: SharedState,
        max_bad_reads: u32,
        now: u64,
    ) -> (r: Self)
        requires
            chooser.wf(),
            store.wf(),
        ensures
            r.wf(),
            r.spec_settings() == settings,
            r.spec_state() == state,
            r.spec_chooser() == chooser,
            r@ == (AutopilotView {
                phase: Phase::Selecting,
                bad_reads: 0,
                max_bad_reads,
                last_cleanup: now,
                cleanups: 0,
                rejected: 0,
                store: store@,
                catalog: store.spec_bands(),
                spdu_timeout: store.spec_spdu_timeout(),
                ac_timeout: store.spec_ac_timeout(),
                sampling_rates: state.spec_sampling_rates(),
                swarm_url: None,
            }),
    {
        Autopilot {
            swarm_url: None,
            settings,
            state,
            chooser,
            store,
            max_bad_reads,
            phase: Phase::Selecting,
            bad_reads: 0,
            last_cleanup: now,
            cleanups: 0,
            rejected: 0,
        }
    }

    /// The supervisor for the chooser `chooser` and the store `store`,
    /// made at the time the clock shows.
    pub fn new(
        settings: Settings,
        state: OpsState,
        chooser: Chooser<'a>,
        store: SharedState,
        max_bad_reads: u32,
    ) -> (r: Self)
        requires
            chooser.wf(),
            store.wf(),
        ensures
            r.wf(),
            r.spec_settings() == settings,
            r.spec_state() == state,
            r.spec_chooser() == chooser,
            r@ == (AutopilotView {
                phase: Phase::Selecting,
                bad_reads: 0,
                max_bad_reads,
                last_cleanup: r@.last_cleanup,
                cleanups: 0,
                rejected: 0,
                store: store@,
                catalog: store.spec_bands(),
                spdu_timeout: store.spec_spdu_timeout(),
                ac_timeout: store.spec_ac_timeout(),
                sampling_rates: state.spec_sampling_rates(),
                swarm_url: None,
            }),
    {
        let clock = read_clock();
        Autopilot::new_at(settings, state, chooser, store, max_bad_reads, clock.secs)
    }

    /// Has the supervisor work under the swarm leader at `url`.
    pub fn enable_swarm(&mut self, url: &str)
        ensures
            final(self)@ == (AutopilotView { swarm_url: Some(url@), ..old(self)@ }),
            final(self).spec_chooser() == old(self).spec_chooser(),
            final(self).wf() == old(self).wf(),
    {
        self.swarm_url = Some(url.to_owned());
    }

    /// Has the supervisor work on its own, with an API server beside it.
    pub fn enable_api_server(
        &mut self,
        host: &str,
        port: u16,
        token: &str,
        disable_cors: bool,
        disable_api_control: bool,
    )
        ensures
            final(self)@ == (AutopilotView { swarm_url: None, ..old(self)@ }),
            final(self).spec_chooser() == old(self).spec_chooser(),
            final(self).wf() == old(self).wf(),
    {
        self.swarm_url = None;
    }

    /// The store.
    pub fn store(&self) -> (r: &SharedState)
        ensures
            r@ == self@.store,
            r.spec_bands() == self@.catalog,
            r.spec_spdu_timeout() == self@.spdu_timeout,
            r.spec_ac_timeout() == self@.ac_timeout,
            self.wf() ==> r.wf(),
    {
        &self.store
    }

    /// Where the supervisor stands.
    pub fn phase(&self) -> (r: Phase)
        ensures
            r == self@.phase,
    {
        self.phase
    }

    /// How often the store was cleaned up.
    pub fn cleanups(&self) -> (r: u64)
        ensures
            r == self@.cleanups,
    {
        self.cleanups
    }

    /// How many frames the store refused.
    pub fn rejected(&self) -> (r: u64)
        ensures
            r == self@.rejected,
    {
        self.rejected
    }

    /// How many reads in a row were bad.
    pub fn bad_reads(&self) -> (r: u32)
        ensures
            r == self@.bad_reads,
    {
        self.bad_reads
    }

    /// Whether the supervisor goes on.
    pub fn should_run(&self) -> (r: bool)
        ensures
            r == (self@.phase != Phase::Terminated),
    {
        match self.phase {
            Phase::Terminated => false,
            _ => true,
        }
    }

    /// Whether the session is over and the decoder is to be stopped.
    pub fn should_change(&self) -> (r: bool)
        ensures
            r == (self@.phase == Phase::Draining),
    {
        match self.phase {
            Phase::Draining => true,
            _ => false,
        }
    }

    /// Begins a session with the choice `choice` of the chooser, and
    /// returns the frequencies to tune and the sampling rate for them.
    pub fn enter_session(&mut self, choice: Result<Vec<u16>, ChooserError>) -> (r: Result<
        (Vec<u16>, u32),
        AutopilotError,
    >)
        requires
            old(self).wf(),
        ensures
            final(self).wf(),
            final(self).spec_chooser() == old(self).spec_chooser(),
            final(self)@ == spec_after_choice(old(self)@, choice),
            spec_choice_result(old(self)@, choice, r),
    {
        match self.phase {
            Phase::Selecting => {},
            _ => {
                return Err(AutopilotError::NotSelecting);
            },
        }
        let freqs = match choice {
            Ok(freqs) => freqs,
            Err(e) => {
                self.phase = Phase::Terminated;
                return Err(AutopilotError::Chooser(e));
            },
        };
        let rate = match get_sampling_rate(&freqs, self.state.sampling_rates()) {
            Ok(rate) => rate,
            Err(_) => {
                self.phase = Phase::Terminated;
                return Err(AutopilotError::SpanTooWide);
            },
        };
        let ghost before = self.store;
        self.store.update_current_band(&freqs);
        proof {
            self.store.lemma_same_settings(&before);
        }
        self.phase = Phase::Running;
        Ok((freqs, rate))
    }

    /// Chooses, at the time `clock`, the band to listen on next, and
    /// begins a session on it.
    pub fn choose_listening_freqs_at(&mut self, clock: &ClockReading) -> (r: Result<
        (Vec<u16>, u32),
        AutopilotError,
    >)
        requires
            old(self).wf(),
        ensures
            final(self).wf(),
            old(self)@.phase != Phase::Selecting ==> {
                &&& final(self).spec_chooser() == old(self).spec_chooser()
                &&& final(self)@ == old(self)@
                &&& r matches Err(AutopilotError::NotSelecting)
            },
            old(self)@.phase == Phase::Selecting ==> exists|choice: Result<Vec<u16>, ChooserError>|
                {
                    &&& #[trigger] spec_chose(
                        old(self).spec_chooser(),
                        old(self)@.store,
                        *clock,
                        final(self).spec_chooser(),
                        choice,
                    )
                    &&& final(self)@ == spec_after_choice(old(self)@, choice)
                    &&& spec_choice_result(old(self)@, choice, r)
                },
    {
        match self.phase {
            Phase::Selecting => {},
            _ => {
                return Err(AutopilotError::NotSelecting);
            },
        }
        let choice = self.chooser.choose_band_at(&self.store, clock);
        let ghost chosen = choice;
        let r = self.enter_session(choice);
        assert(spec_chose(
            old(self).spec_chooser(),
            old(self)@.store,
            *clock,
            self.spec_chooser(),
            chosen,
        ));
        r
    }

    /// Chooses, at the time the clock shows, the band to listen on next,
    /// and begins a session on it.
    pub fn choose_listening_freqs(&mut self) -> (r: Result<(Vec<u16>, u32), AutopilotError>)
        requires
            old(self).wf(),
        ensures
            final(self).wf(),
            old(self)@.phase != Phase::Selecting ==> {
                &&& final(self).spec_chooser() == old(self).spec_chooser()
                &&& final(self)@ == old(self)@
                &&& r matches Err(AutopilotError::NotSelecting)
            },
            old(self)@.phase == Phase::Selecting ==> exists|
                clock: ClockReading,
                choice: Result<Vec<u16>, ChooserError>,
            |
                {
                    &&& clock.wf()
                    &&& #[trigger] spec_chose(
                        old(self).spec_chooser(),
                        old(self)@.store,
                        clock,
                        final(self).spec_chooser(),
                        choice,
                    )
                    &&& final(self)@ == spec_after_choice(old(self)@, choice)
                    &&& spec_choice_result(old(self)@, choice, r)
                },
    {
        let clock = read_clock();
        self.choose_listening_freqs_at(&clock)
    }

    /// Takes in the frame `frame`, read at the time `clock`, and returns
    /// whether the session is over.
    pub fn on_frame_at(&mut self, frame: &Frame, clock: &ClockReading) -> (r: bool)
        requires
            old(self).wf(),
        ensures
            final(self).wf(),
            final(self)@ == spec_after_frame(old(self)@, *frame, clock.secs, r),
            if old(self)@.phase == Phase::Running {
                spec_told(old(self).spec_chooser(), *frame, *clock, final(self).spec_chooser(), r)
            } else {
                !r && final(self).spec_chooser() == old(self).spec_chooser()
            },
    {
        match self.phase {
            Phase::Running => {},
            _ => {
                return false;
            },
        }
        self.bad_reads = 0;
        let ghost before = self.store;
        let taken = self.store.update_at(frame, clock.secs);
        proof {
            self.store.lemma_same_settings(&before);
        }
        if taken.is_err() {
            if self.rejected < u64::MAX {
                self.rejected = self.rejected + 1;
            }
        }
        let asked = self.chooser.on_recv_frame_at(frame, clock);
        if asked {
            self.phase = Phase::Draining;
            return true;
        }
        if elapsed(clock.secs, self.last_cleanup) >= self.store.ac_timeout() {
            let ghost updated = self.store;
            self.store.clean_up_at(clock.secs);
            proof {
                self.store.lemma_same_settings(&updated);
            }
            self.last_cleanup = clock.secs;
            if self.cleanups < u64::MAX {
                self.cleanups = self.cleanups + 1;
            }
        }
        false
    }

    /// Takes in the frame `frame`, as read at the time the clock shows.
    pub fn on_frame(&mut self, frame: &Frame) -> (r: bool)
        requires
            old(self).wf(),
        ensures
            final(self).wf(),
            exists|clock: ClockReading|
                {
                    &&& clock.wf()
                    &&& final(self)@ == #[trigger] spec_after_frame(
                        old(self)@,
                        *frame,
                        clock.secs,
                        r,
                    )
                    &&& if old(self)@.phase == Phase::Running {
                        spec_told(
                            old(self).spec_chooser(),
                            *frame,
                            clock,
                            final(self).spec_chooser(),
                            r,
                        )
                    } else {
                        !r && final(self).spec_chooser() == old(self).spec_chooser()
                    }
                },
    {
        let clock = read_clock();
        let r = self.on_frame_at(frame, &clock);
        assert(self@ == spec_after_frame(old(self)@, *frame, clock.secs, r));
        r
    }

    /// Takes note of a line that is no frame.
    pub fn on_unparsable(&mut self)
        ensures
            final(self).wf() == old(self).wf(),
            final(self).spec_chooser() == old(self).spec_chooser(),
            final(self)@ == spec_after_unparsable(old(self)@),
    {
        match self.phase {
            Phase::Running => {
                self.bad_reads = 0;
            },
            _ => {},
        }
    }

    /// Takes note, at the time `clock`, that no line came in time, and
    /// returns whether the session is over.
    pub fn on_timeout_at(&mut self, clock: &ClockReading) -> (r: bool)
        requires
            old(self).wf(),
        ensures
            final(self).wf(),
            final(self)@ == spec_after_timeout(old(self)@, r),
            if old(self)@.phase == Phase::Running {
                spec_timed_out(old(self).spec_chooser(), *clock, final(self).spec_chooser(), r)
            } else {
                !r && final(self).spec_chooser() == old(self).spec_chooser()
            },
    {
        match self.phase {
            Phase::Running => {},
            _ => {
                return false;
            },
        }
        let asked = self.chooser.on_timeout_at(clock);
        if asked {
            self.phase = Phase::Draining;
        }
        asked
    }

    /// Takes note, at the time the clock shows, that no line came in time.
    pub fn on_timeout(&mut self) -> (r: bool)
        requires
            old(self).wf(),
        ensures
            final(self).wf(),
            final(self)@ == spec_after_timeout(old(self)@, r),
            if old(self)@.phase == Phase::Running {
                exists|clock: ClockReading|
                    clock.wf() && #[trigger] spec_timed_out(
                        old(self).spec_chooser(),
                        clock,
                        final(self).spec_chooser(),
                        r,
                    )
            } else {
                !r && final(self).spec_chooser() == old(self).spec_chooser()
            },
    {
        let clock = read_clock();
        self.on_timeout_at(&clock)
    }

    /// Takes note of a bad read: the decoder's output has ended, or reading
    /// it failed.
    pub fn on_bad_read(&mut self)
        ensures
            final(self).wf() == old(self).wf(),
            final(self).spec_chooser() == old(self).spec_chooser(),
            final(self)@ == spec_after_bad_read(old(self)@),
    {
        match self.phase {
            Phase::Running => {
                if self.bad_reads < u32::MAX {
                    self.bad_reads = self.bad_reads + 1;
                }
                self.phase = Phase::Draining;
            },
            _ => {},
        }
    }

    /// Ends the session, at second `now`, once the decoder is stopped.
    pub fn cleanup_at(&mut self, now: u64)
        requires
            old(self).wf(),
        ensures
            final(self).wf(),
            final(self).spec_chooser() == old(self).spec_chooser(),
            final(self)@ == spec_after_drain(old(self)@, now),
    {
        match self.phase {
            Phase::Draining => {},
            _ => {
                return ;
            },
        }
        let ghost before = self.store;
        self.store.clean_up_at(now);
        proof {
            self.store.lemma_same_settings(&before);
        }
        self.last_cleanup = now;
        if self.cleanups < u64::MAX {
            self.cleanups = self.cleanups + 1;
        }
        self.phase = if self.bad_reads >= self.max_bad_reads {
            Phase::Terminated
        } else {
            Phase::Selecting
        };
    }

    /// Ends the session, at the time the clock shows, once the decoder is
    /// stopped.
    pub fn cleanup(&mut self)
        requires
            old(self).wf(),
        ensures
            final(self).wf(),
            final(self).spec_chooser() == old(self).spec_chooser(),
            exists|now: u64| final(self)@ == #[trigger] spec_after_drain(old(self)@, now),
    {
        let clock = read_clock();
        self.cleanup_at(clock.secs);
    }
}

} // verus!

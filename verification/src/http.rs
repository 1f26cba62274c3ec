//! What the store shows to its readers: lists of what its maps hold, drawn
//! up at a given second.
//!
//! A list is drawn up from a map as it stands. Where the store writes to the
//! map while a list is drawn up, the list may leave out an entry that has
//! gone; what is stated of a list holds of a map that stays as it is
//! meanwhile.

use crate::clock::{elapsed, read_clock, spec_elapsed};
use crate::hfdl::Position;
use crate::state::{
    flights_get, flights_keys, flights_of, freq_stats_get, freq_stats_keys, freq_stats_of,
    gs_info_get, gs_info_keys, gs_info_of, gs_stats_get, gs_stats_keys, gs_stats_of,
    FrequencyStats, GroundStationInfo, GroundStationMap, GroundStationStat, GroundStationStats,
    PositionReportView, PositionReports, PositionReportsByFlightMap, PositionReportsView,
    PropagationReportView, SessionState, SharedState,
};
use std::sync::Arc;
use vstd::prelude::*;

verus! {

/// A flight in short: where it was heard last, how long ago, and its path.
#[derive(Debug, Clone)]
pub struct FlightInfo {
    pub callsign: String,
    pub last_heard_on: Option<u32>,
    pub last_seen_secs: u64,
    pub path: Vec<Position>,
}

/// A station that heard an aircraft, and the way from the aircraft to it.
#[derive(Debug, Clone)]
pub struct PropagationPath {
    pub id: u8,
    pub name: String,
    pub bands: Vec<u32>,
    pub path: Vec<Position>,
}

/// A position report in full.
#[derive(Debug, Clone)]
pub struct PositionReport {
    pub location: Position,
    pub heard_on: u32,
    pub stations: Vec<PropagationPath>,
}

/// A flight in full.
#[derive(Debug, Clone)]
pub struct FlightDetail {
    pub callsign: String,
    pub last_seen_secs: u64,
    pub reports: Vec<PositionReport>,
}

/// A `FlightInfo` by the views of its fields.
pub struct FlightInfoView {
    pub callsign: Seq<char>,
    pub last_heard_on: Option<u32>,
    pub last_seen_secs: u64,
    pub path: Seq<Position>,
}

/// A `PropagationPath` by the views of its fields.
pub struct PropagationPathView {
    pub id: u8,
    pub name: Seq<char>,
    pub bands: Seq<u32>,
    pub path: Seq<Position>,
}

/// A `PositionReport` by the views of its fields.
pub struct PositionReportDetailView {
    pub location: Position,
    pub heard_on: u32,
    pub stations: Seq<PropagationPathView>,
}

/// A `FlightDetail` by the views of its fields.
pub struct FlightDetailView {
    pub callsign: Seq<char>,
    pub last_seen_secs: u64,
    pub reports: Seq<PositionReportDetailView>,
}

impl View for FlightInfo {
    type V = FlightInfoView;

    open spec fn view(&self) -> FlightInfoView {
        FlightInfoView {
            callsign: self.callsign@,
            last_heard_on: self.last_heard_on,
            last_seen_secs: self.last_seen_secs,
            path: self.path@,
        }
    }
}

impl View for PropagationPath {
    type V = PropagationPathView;

    open spec fn view(&self) -> PropagationPathView {
        PropagationPathView { id: self.id, name: self.name@, bands: self.bands@, path: self.path@ }
    }
}

impl View for PositionReport {
    type V = PositionReportDetailView;

    open spec fn view(&self) -> PositionReportDetailView {
        PositionReportDetailView {
            location: self.location,
            heard_on: self.heard_on,
            stations: Seq::new(self.stations.len() as nat, |i: int| self.stations[i]@),
        }
    }
}

impl View for FlightDetail {
    type V = FlightDetailView;

    open spec fn view(&self) -> FlightDetailView {
        FlightDetailView {
            callsign: self.callsign@,
            last_seen_secs: self.last_seen_secs,
            reports: Seq::new(self.reports.len() as nat, |i: int| self.reports[i]@),
        }
    }
}

/// The flight `callsign` with the track `track` in short, at second `now`:
/// the frequency of its last report, the seconds since it was heard, and
/// the positions of its reports in their order.
pub open spec fn spec_flight_info(callsign: Seq<char>, track: PositionReportsView, now: u64) -> FlightInfoView {
    FlightInfoView {
        callsign,
        last_heard_on: if track.positions.len() > 0 {
            Some(track.positions.last().freq)
        } else {
            None
        },
        last_seen_secs: spec_elapsed(now, track.last_heard),
        path: Seq::new(track.positions.len(), |i: int| track.positions[i].position),
    }
}

/// The station of `p` with the way to it from an aircraft at `from`.
pub open spec fn spec_propagation_path(p: PropagationReportView, from: Position) -> PropagationPathView {
    PropagationPathView { id: p.id, name: p.name, bands: p.bands, path: seq![from, p.location] }
}

/// The report `r` in full.
pub open spec fn spec_report_detail(r: PositionReportView) -> PositionReportDetailView {
    PositionReportDetailView {
        location: r.position,
        heard_on: r.freq,
        stations: Seq::new(
            r.propagation.len(),
            |i: int| spec_propagation_path(r.propagation[i], r.position),
        ),
    }
}

/// The flight `callsign` with the track `track` in full, at second `now`.
pub open spec fn spec_flight_detail(callsign: Seq<char>, track: PositionReportsView, now: u64) -> FlightDetailView {
    FlightDetailView {
        callsign,
        last_seen_secs: spec_elapsed(now, track.last_heard),
        reports: Seq::new(track.positions.len(), |i: int| spec_report_detail(track.positions[i])),
    }
}

/// The flight `callsign` with the track `track` in short, at second `now`.
pub fn flight_info(callsign: &str, track: &PositionReports, now: u64) -> (r: FlightInfo)
    ensures
        r@ == spec_flight_info(callsign@, track@, now),
{
    let n = track.positions.len();
    let mut path: Vec<Position> = Vec::new();
    let mut i: usize = 0;
    while i < n
        invariant
            i <= n,
            n == track.positions.len(),
            path.len() == i,
            forall|j: int| 0 <= j < i ==> path[j] == track.positions[j].position,
        decreases n - i,
    {
        path.push(track.positions[i].position);
        i += 1;
    }
    let last_heard_on = if n > 0 {
        Some(track.positions[n - 1].freq)
    } else {
        None
    };
    let r = FlightInfo {
        callsign: callsign.to_owned(),
        last_heard_on,
        last_seen_secs: elapsed(now, track.last_heard),
        path,
    };
    assert(r@.path =~= spec_flight_info(callsign@, track@, now).path);
    r
}

/// The flight `callsign` with the track `track` in full, at second `now`.
pub fn flight_detail(callsign: &str, track: &PositionReports, now: u64) -> (r: FlightDetail)
    ensures
        r@ == spec_flight_detail(callsign@, track@, now),
{
    let n = track.positions.len();
    let mut reports: Vec<PositionReport> = Vec::new();
    let mut i: usize = 0;
    while i < n
        invariant
            i <= n,
            n == track.positions.len(),
            reports.len() == i,
            forall|j: int| 0 <= j < i ==> (#[trigger] reports[j])@ == spec_report_detail(track.positions[j]@),
        decreases n - i,
    {
        let report = &track.positions[i];
        let m = report.propagation.len();
        let mut stations: Vec<PropagationPath> = Vec::new();
        let mut k: usize = 0;
        while k < m
            invariant
                k <= m,
                m == report.propagation.len(),
                stations.len() == k,
                forall|j: int|
                    0 <= j < k ==> (#[trigger] stations[j])@ == spec_propagation_path(
                        report.propagation[j]@,
                        report.position,
                    ),
            decreases m - k,
        {
            let p = &report.propagation[k];
            let bands = p.bands.clone();
            assert(bands@ =~= p.bands@);
            let mut path: Vec<Position> = Vec::new();
            path.push(report.position);
            path.push(p.location);
            assert(path@ =~= seq![report.position, p.location]);
            stations.push(PropagationPath { id: p.id, name: p.name.clone(), bands, path });
            k += 1;
        }
        let detail = PositionReport { location: report.position, heard_on: report.freq, stations };
        assert(detail@.stations =~= spec_report_detail(report@).stations);
        reports.push(detail);
        i += 1;
    }
    let r = FlightDetail {
        callsign: callsign.to_owned(),
        last_seen_secs: elapsed(now, track.last_heard),
        reports,
    };
    assert(r@.reports =~= spec_flight_detail(callsign@, track@, now).reports);
    r
}

/// Whether `list` holds every flight of `flights` in short, as of second
/// `now`: each flight once, and nothing else.
pub open spec fn spec_flights_listed(
    list: Seq<FlightInfo>,
    flights: Map<Seq<char>, PositionReportsView>,
    now: u64,
) -> bool {
    &&& forall|i: int|
        0 <= i < list.len() ==> flights.dom().contains((#[trigger] list[i]).callsign@) && list[i]@
            == spec_flight_info(list[i].callsign@, flights[list[i].callsign@], now)
    &&& forall|k: Seq<char>|
        flights.dom().contains(k) ==> exists|i: int|
            0 <= i < list.len() && (#[trigger] list[i]).callsign@ == k
    &&& forall|i: int, j: int| 0 <= i < j < list.len() ==> list[i].callsign@ != list[j].callsign@
}

/// Every flight of the map `flights` in short, at second `now`: each
/// flight once, in no stated order.
pub fn api_flights_list_at(flights: &Arc<PositionReportsByFlightMap>, now: u64) -> (r: Vec<FlightInfo>)
    ensures
        spec_flights_listed(r@, flights_of(**flights), now),
{
    let keys = flights_keys(flights);
    let mut out: Vec<FlightInfo> = Vec::new();
    let mut i: usize = 0;
    while i < keys.len()
        invariant
            i <= keys.len(),
            out.len() == i,
            forall|k: Seq<char>|
                flights_of(**flights).dom().contains(k) <==> exists|j: int|
                    0 <= j < keys.len() && (#[trigger] keys[j])@ == k,
            forall|j: int|
                0 <= j < i ==> (#[trigger] out[j]).callsign@ == keys[j]@ && out[j]@ == spec_flight_info(
                    keys[j]@,
                    flights_of(**flights)[keys[j]@],
                    now,
                ),
        decreases keys.len() - i,
    {
        let key = keys[i].as_str();
        assert(flights_of(**flights).dom().contains(keys[i as int]@));
        match flights_get(flights, key) {
            Some(track) => {
                out.push(flight_info(key, &track, now));
            },
            None => {},
        }
        i += 1;
    }
    proof {
        assert forall|k: Seq<char>| flights_of(**flights).dom().contains(k) implies exists|i: int|
            0 <= i < out.len() && (#[trigger] out[i]).callsign@ == k by {
            let j = choose|j: int| 0 <= j < keys.len() && (#[trigger] keys[j])@ == k;
            assert(out[j].callsign@ == k);
        }
    }
    out
}

/// Every flight of the map `flights` in short, at the time the clock shows.
pub fn api_flights_list(flights: &Arc<PositionReportsByFlightMap>) -> (r: Vec<FlightInfo>)
    ensures
        exists|now: u64| spec_flights_listed(r@, flights_of(**flights), now),
{
    let clock = read_clock();
    api_flights_list_at(flights, clock.secs)
}

/// The flight `callsign` in full, at second `now`; `None` where the map
/// has no such flight.
pub fn api_flights_detail_at(
    flights: &Arc<PositionReportsByFlightMap>,
    callsign: &str,
    now: u64,
) -> (r: Option<FlightDetail>)
    ensures
        r.is_some() == flights_of(**flights).dom().contains(callsign@),
        r matches Some(d) ==> d@ == spec_flight_detail(callsign@, flights_of(**flights)[callsign@], now),
{
    match flights_get(flights, callsign) {
        Some(track) => Some(flight_detail(callsign, &track, now)),
        None => None,
    }
}

/// The flight `callsign` in full, at the time the clock shows.
pub fn api_flights_detail(flights: &Arc<PositionReportsByFlightMap>, callsign: &str) -> (r: Option<
    FlightDetail,
>)
    ensures
        r.is_some() == flights_of(**flights).dom().contains(callsign@),
        r matches Some(d) ==> exists|now: u64|
            d@ == #[trigger] spec_flight_detail(callsign@, flights_of(**flights)[callsign@], now),
{
    let clock = read_clock();
    api_flights_detail_at(flights, callsign, clock.secs)
}

/// What is known of every station: each station once, in no stated order.
pub fn api_gs_list(gs_info: &Arc<GroundStationMap>) -> (r: Vec<(u8, GroundStationInfo)>)
    ensures
        forall|i: int|
            0 <= i < r.len() ==> gs_info_of(**gs_info).dom().contains((#[trigger] r[i]).0) && r[i].1@
                == gs_info_of(**gs_info)[r[i].0],
        forall|k: u8|
            gs_info_of(**gs_info).dom().contains(k) ==> exists|i: int|
                0 <= i < r.len() && (#[trigger] r[i]).0 == k,
        forall|i: int, j: int| 0 <= i < j < r.len() ==> r[i].0 != r[j].0,
{
    let keys = gs_info_keys(gs_info);
    let mut out: Vec<(u8, GroundStationInfo)> = Vec::new();
    let mut k: usize = 0;
    while k < keys.len()
        invariant
            k <= keys.len(),
            forall|id: u8| gs_info_of(**gs_info).dom().contains(id) <==> keys@.contains(id),
            forall|a: int, b: int| 0 <= a < b < keys.len() ==> keys[a] != keys[b],
            out.len() == k,
            forall|j: int|
                0 <= j < k ==> (#[trigger] out[j]).0 == keys[j] && out[j].1@ == gs_info_of(**gs_info)[keys[j]],
        decreases keys.len() - k,
    {
        let id = keys[k];
        assert(keys@.contains(keys@[k as int]));
        match gs_info_get(gs_info, id) {
            Some(info) => {
                out.push((id, info));
            },
            None => {},
        }
        k += 1;
    }
    proof {
        assert forall|id: u8| gs_info_of(**gs_info).dom().contains(id) implies exists|i: int|
            0 <= i < out.len() && (#[trigger] out[i]).0 == id by {
            assert(keys@.contains(id));
            let j = choose|j: int| 0 <= j < keys@.len() && keys@[j] == id;
            assert(out[j].0 == id);
        }
        assert forall|j: int| 0 <= j < out.len() implies gs_info_of(**gs_info).dom().contains(
            (#[trigger] out[j]).0,
        ) by {
            assert(keys@.contains(keys@[j]));
        }
    }
    out
}

/// The message counters of every station: each station once, in no stated
/// order.
pub fn api_gs_stats(gs_stats: &Arc<GroundStationStats>) -> (r: Vec<(u8, GroundStationStat)>)
    ensures
        forall|i: int|
            0 <= i < r.len() ==> gs_stats_of(**gs_stats).dom().contains((#[trigger] r[i]).0) && r[i].1@
                == gs_stats_of(**gs_stats)[r[i].0],
        forall|k: u8|
            gs_stats_of(**gs_stats).dom().contains(k) ==> exists|i: int|
                0 <= i < r.len() && (#[trigger] r[i]).0 == k,
        forall|i: int, j: int| 0 <= i < j < r.len() ==> r[i].0 != r[j].0,
{
    let keys = gs_stats_keys(gs_stats);
    let mut out: Vec<(u8, GroundStationStat)> = Vec::new();
    let mut k: usize = 0;
    while k < keys.len()
        invariant
            k <= keys.len(),
            forall|id: u8| gs_stats_of(**gs_stats).dom().contains(id) <==> keys@.contains(id),
            forall|a: int, b: int| 0 <= a < b < keys.len() ==> keys[a] != keys[b],
            out.len() == k,
            forall|j: int|
                0 <= j < k ==> (#[trigger] out[j]).0 == keys[j] && out[j].1@ == gs_stats_of(**gs_stats)[keys[j]],
        decreases keys.len() - k,
    {
        let id = keys[k];
        assert(keys@.contains(keys@[k as int]));
        match gs_stats_get(gs_stats, id) {
            Some(stat) => {
                out.push((id, stat));
            },
            None => {},
        }
        k += 1;
    }
    proof {
        assert forall|id: u8| gs_stats_of(**gs_stats).dom().contains(id) implies exists|i: int|
            0 <= i < out.len() && (#[trigger] out[i]).0 == id by {
            assert(keys@.contains(id));
            let j = choose|j: int| 0 <= j < keys@.len() && keys@[j] == id;
            assert(out[j].0 == id);
        }
        assert forall|j: int| 0 <= j < out.len() implies gs_stats_of(**gs_stats).dom().contains(
            (#[trigger] out[j]).0,
        ) by {
            assert(keys@.contains(keys@[j]));
        }
    }
    out
}

/// How many frames each frequency carried: each frequency once, in no
/// stated order.
pub fn api_freq_stats(freq_stats: &Arc<FrequencyStats>) -> (r: Vec<(u32, u32)>)
    ensures
        forall|i: int|
            0 <= i < r.len() ==> freq_stats_of(**freq_stats).dom().contains((#[trigger] r[i]).0) && r[i].1
                == freq_stats_of(**freq_stats)[r[i].0],
        forall|k: u32|
            freq_stats_of(**freq_stats).dom().contains(k) ==> exists|i: int|
                0 <= i < r.len() && (#[trigger] r[i]).0 == k,
        forall|i: int, j: int| 0 <= i < j < r.len() ==> r[i].0 != r[j].0,
{
    let keys = freq_stats_keys(freq_stats);
    let mut out: Vec<(u32, u32)> = Vec::new();
    let mut k: usize = 0;
    while k < keys.len()
        invariant
            k <= keys.len(),
            forall|f: u32| freq_stats_of(**freq_stats).dom().contains(f) <==> keys@.contains(f),
            forall|a: int, b: int| 0 <= a < b < keys.len() ==> keys[a] != keys[b],
            out.len() == k,
            forall|j: int|
                0 <= j < k ==> (#[trigger] out[j]).0 == keys[j] && out[j].1 == freq_stats_of(**freq_stats)[keys[j]],
        decreases keys.len() - k,
    {
        let f = keys[k];
        assert(keys@.contains(keys@[k as int]));
        match freq_stats_get(freq_stats, f) {
            Some(count) => {
                out.push((f, count));
            },
            None => {},
        }
        k += 1;
    }
    proof {
        assert forall|f: u32| freq_stats_of(**freq_stats).dom().contains(f) implies exists|i: int|
            0 <= i < out.len() && (#[trigger] out[i]).0 == f by {
            assert(keys@.contains(f));
            let j = choose|j: int| 0 <= j < keys@.len() && keys@[j] == f;
            assert(out[j].0 == f);
        }
        assert forall|j: int| 0 <= j < out.len() implies freq_stats_of(**freq_stats).dom().contains(
            (#[trigger] out[j]).0,
        ) by {
            assert(keys@.contains(keys@[j]));
        }
    }
    out
}

/// The band that is tuned and its frequencies.
pub fn api_session_list(store: &SharedState) -> (r: &SessionState)
    ensures
        r@ == store@.session,
{
    store.session()
}

} // verus!

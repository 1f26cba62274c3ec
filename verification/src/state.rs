//! The network state store: what is known of ground stations and flights,
//! built up from decoded frames.
//!
//! The store keeps its tables in concurrent maps, so that readers on other
//! threads never wait for the one writer. The store is that writer: all that
//! is stated here of a map's contents holds as long as nothing else writes to
//! it.

use crate::bands::FrequencyBandMap;
use crate::clock::{elapsed, read_clock, spec_elapsed};
use crate::config::Config;
use crate::hfdl::{Frame, Frequency, FrequencyData, Position, HFNPDU, LPDU};
use dashmap::DashMap;
use std::sync::Arc;
use vstd::prelude::*;

verus! {

/// How often each frequency, in Hz, carried a frame.
pub type FrequencyStats = DashMap<u32, u32>;

/// The message counters of each ground station.
pub type GroundStationStats = DashMap<u8, GroundStationStat>;

/// What is known of each ground station.
pub type GroundStationMap = DashMap<u8, GroundStationInfo>;

/// The track of each flight, by flight identifier.
pub type PositionReportsByFlightMap = DashMap<String, PositionReports>;

/// The flight identifier that stands for an empty one.
pub const EMPTY_CALLSIGN: &'static str = "EMPTY_CALLSIGN";

/// The concurrent map of the `dashmap` crate. Nothing of its inside is
/// known here: what a map holds is named by `freq_stats_of`, `gs_info_of`,
/// `gs_stats_of` and `flights_of`.
#[verifier::external_type_specification]
#[verifier::external_body]
#[verifier::reject_recursive_types(K)]
#[verifier::reject_recursive_types(V)]
#[verifier::reject_recursive_types(S)]
pub struct ExDashMap<K, V, S>(DashMap<K, V, S>);

/// The message counters of a ground station.
#[derive(Debug, Clone)]
pub struct GroundStationStat {
    pub name: String,
    pub to_msgs: u64,
    pub to_freqs: Vec<u32>,
    pub from_msgs: u64,
    pub from_freqs: Vec<u32>,
    pub last_heard: Option<u64>,
}

/// What is known of a ground station: where it is, which bands it is
/// assigned, and which bands it was last known to use.
#[derive(Debug, Clone)]
pub struct GroundStationInfo {
    pub name: String,
    pub position: Position,
    pub assigned_bands: Vec<u32>,
    pub active_bands: Vec<u32>,
    pub last_heard: Option<u64>,
}

/// The band that is tuned and its frequencies.
#[derive(Debug, Clone)]
pub struct SessionState {
    band: u32,
    freqs: Vec<u16>,
}

/// A ground station that heard an aircraft, and on which bands.
#[derive(Debug, Clone)]
pub struct PropagationReport {
    pub id: u8,
    pub name: String,
    pub location: Position,
    pub bands: Vec<u32>,
}

/// Where an aircraft reported to be, and who heard it.
#[derive(Debug, Clone)]
pub struct PositionReport {
    pub position: Position,
    pub freq: u32,
    pub propagation: Vec<PropagationReport>,
}

/// The track of a flight.
#[derive(Debug, Clone)]
pub struct PositionReports {
    pub last_heard: u64,
    pub positions: Vec<PositionReport>,
}

/// Why a frame was not taken into the store.
#[derive(Debug, Clone, Copy, PartialEq, Eq, Structural)]
pub enum StateError {
    /// The frame reports a frequency that belongs to no band of the catalog.
    UnknownFrequency,
}

/// A `GroundStationStat` by the views of its fields.
pub struct GroundStationStatView {
    pub name: Seq<char>,
    pub to_msgs: u64,
    pub to_freqs: Seq<u32>,
    pub from_msgs: u64,
    pub from_freqs: Seq<u32>,
    pub last_heard: Option<u64>,
}

/// A `GroundStationInfo` by the views of its fields.
pub struct GroundStationInfoView {
    pub name: Seq<char>,
    pub position: Position,
    pub assigned_bands: Seq<u32>,
    pub active_bands: Seq<u32>,
    pub last_heard: Option<u64>,
}

/// A `SessionState` by the views of its fields.
pub struct SessionStateView {
    pub band: u32,
    pub freqs: Seq<u16>,
}

/// A `PropagationReport` by the views of its fields.
pub struct PropagationReportView {
    pub id: u8,
    pub name: Seq<char>,
    pub location: Position,
    pub bands: Seq<u32>,
}

/// A `PositionReport` by the views of its fields.
pub struct PositionReportView {
    pub position: Position,
    pub freq: u32,
    pub propagation: Seq<PropagationReportView>,
}

/// A `PositionReports` by the views of its fields.
pub struct PositionReportsView {
    pub last_heard: u64,
    pub positions: Seq<PositionReportView>,
}

/// The contents of the whole store.
pub struct StoreView {
    pub session: SessionStateView,
    pub gs_info: Map<u8, GroundStationInfoView>,
    pub gs_stats: Map<u8, GroundStationStatView>,
    pub flights: Map<Seq<char>, PositionReportsView>,
    pub freq_stats: Map<u32, u32>,
}

impl View for GroundStationStat {
    type V = GroundStationStatView;

    open spec fn view(&self) -> GroundStationStatView {
        GroundStationStatView {
            name: self.name@,
            to_msgs: self.to_msgs,
            to_freqs: self.to_freqs@,
            from_msgs: self.from_msgs,
            from_freqs: self.from_freqs@,
            last_heard: self.last_heard,
        }
    }
}

impl View for GroundStationInfo {
    type V = GroundStationInfoView;

    open spec fn view(&self) -> GroundStationInfoView {
        GroundStationInfoView {
            name: self.name@,
            position: self.position,
            assigned_bands: self.assigned_bands@,
            active_bands: self.active_bands@,
            last_heard: self.last_heard,
        }
    }
}

impl View for SessionState {
    type V = SessionStateView;

    closed spec fn view(&self) -> SessionStateView {
        SessionStateView { band: self.band, freqs: self.freqs@ }
    }
}

impl View for PropagationReport {
    type V = PropagationReportView;

    open spec fn view(&self) -> PropagationReportView {
        PropagationReportView {
            id: self.id,
            name: self.name@,
            location: self.location,
            bands: self.bands@,
        }
    }
}

/// The views of the reports `s`, in order.
pub open spec fn spec_propagation_views(s: Seq<PropagationReport>) -> Seq<PropagationReportView> {
    Seq::new(s.len(), |i: int| s[i]@)
}

impl View for PositionReport {
    type V = PositionReportView;

    open spec fn view(&self) -> PositionReportView {
        PositionReportView {
            position: self.position,
            freq: self.freq,
            propagation: spec_propagation_views(self.propagation@),
        }
    }
}

/// The views of the reports `s`, in order.
pub open spec fn spec_position_views(s: Seq<PositionReport>) -> Seq<PositionReportView> {
    Seq::new(s.len(), |i: int| s[i]@)
}

impl View for PositionReports {
    type V = PositionReportsView;

    open spec fn view(&self) -> PositionReportsView {
        PositionReportsView {
            last_heard: self.last_heard,
            positions: spec_position_views(self.positions@),
        }
    }
}

impl SessionState {
    /// The band that is tuned; 0 before any was.
    pub fn band(&self) -> (r: u32)
        ensures
            r == self@.band,
    {
        self.band
    }

    /// The frequencies that are tuned, in kHz.
    pub fn freqs(&self) -> (r: &Vec<u16>)
        ensures
            r@ == self@.freqs,
    {
        &self.freqs
    }
}

/// What the frequency counters hold.
pub uninterp spec fn freq_stats_of(m: FrequencyStats) -> Map<u32, u32>;

/// What the table of ground stations holds.
pub uninterp spec fn gs_info_of(m: GroundStationMap) -> Map<u8, GroundStationInfoView>;

/// What the table of message counters holds.
pub uninterp spec fn gs_stats_of(m: GroundStationStats) -> Map<u8, GroundStationStatView>;

/// What the table of flight tracks holds.
pub uninterp spec fn flights_of(m: PositionReportsByFlightMap) -> Map<
    Seq<char>,
    PositionReportsView,
>;

/// Calls `DashMap::new`. Claimed: the new map holds nothing.
#[verifier::external_body]
fn freq_stats_new() -> (m: FrequencyStats)
    ensures
        freq_stats_of(m) =~= Map::empty(),
{
    DashMap::new()
}

/// Calls `DashMap::get` and copies the value out. Claimed: the result is
/// the value that the map holds for `freq`, `None` where it holds none.
#[verifier::external_body]
pub(crate) fn freq_stats_get(m: &Arc<FrequencyStats>, freq: u32) -> (r: Option<u32>)
    ensures
        r.is_some() == freq_stats_of(**m).dom().contains(freq),
        r matches Some(v) ==> v == freq_stats_of(**m)[freq],
{
    m.get(&freq).map(|e| *e.value())
}

/// Calls `DashMap::insert`. Claimed: afterwards the map holds `count` for
/// `freq`, and for every other key what it held before.
#[verifier::external_body]
fn freq_stats_insert(m: &mut Arc<FrequencyStats>, freq: u32, count: u32)
    ensures
        freq_stats_of(**final(m)) == freq_stats_of(**old(m)).insert(freq, count),
{
    m.insert(freq, count);
}

/// Calls `DashMap::iter` and copies the keys out. Claimed: the result
/// holds the keys of the map, each once, and nothing else. Nothing is
/// claimed of their order.
#[verifier::external_body]
pub(crate) fn freq_stats_keys(m: &Arc<FrequencyStats>) -> (r: Vec<u32>)
    ensures
        forall|k: u32| freq_stats_of(**m).dom().contains(k) <==> r@.contains(k),
        forall|i: int, j: int| 0 <= i < j < r.len() ==> r[i] != r[j],
{
    m.iter().map(|e| *e.key()).collect()
}

/// Calls `DashMap::new`. Claimed: the new map holds nothing.
#[verifier::external_body]
fn gs_info_new() -> (m: GroundStationMap)
    ensures
        gs_info_of(m) =~= Map::empty(),
{
    DashMap::new()
}

/// Calls `DashMap::get` and clones the value. Claimed: the result is the
/// value that the map holds for `id`, `None` where it holds none.
#[verifier::external_body]
pub(crate) fn gs_info_get(m: &Arc<GroundStationMap>, id: u8) -> (r: Option<GroundStationInfo>)
    ensures
        r.is_some() == gs_info_of(**m).dom().contains(id),
        r matches Some(v) ==> v@ == gs_info_of(**m)[id],
{
    m.get(&id).map(|e| e.value().clone())
}

/// Calls `DashMap::insert`. Claimed: afterwards the map holds `info` for
/// `id`, and for every other key what it held before.
#[verifier::external_body]
fn gs_info_insert(m: &mut Arc<GroundStationMap>, id: u8, info: GroundStationInfo)
    ensures
        gs_info_of(**final(m)) == gs_info_of(**old(m)).insert(id, info@),
{
    m.insert(id, info);
}

/// Calls `DashMap::iter` and copies the keys out. Claimed: the result
/// holds the keys of the map, each once, and nothing else. Nothing is
/// claimed of their order.
#[verifier::external_body]
pub(crate) fn gs_info_keys(m: &Arc<GroundStationMap>) -> (r: Vec<u8>)
    ensures
        forall|k: u8| gs_info_of(**m).dom().contains(k) <==> r@.contains(k),
        forall|i: int, j: int| 0 <= i < j < r.len() ==> r[i] != r[j],
{
    m.iter().map(|e| *e.key()).collect()
}

/// Calls `DashMap::new`. Claimed: the new map holds nothing.
#[verifier::external_body]
fn gs_stats_new() -> (m: GroundStationStats)
    ensures
        gs_stats_of(m) =~= Map::empty(),
{
    DashMap::new()
}

/// Calls `DashMap::get` and clones the value. Claimed: the result is the
/// value that the map holds for `id`, `None` where it holds none.
#[verifier::external_body]
pub(crate) fn gs_stats_get(m: &Arc<GroundStationStats>, id: u8) -> (r: Option<GroundStationStat>)
    ensures
        r.is_some() == gs_stats_of(**m).dom().contains(id),
        r matches Some(v) ==> v@ == gs_stats_of(**m)[id],
{
    m.get(&id).map(|e| e.value().clone())
}

/// Calls `DashMap::insert`. Claimed: afterwards the map holds `stat` for
/// `id`, and for every other key what it held before.
#[verifier::external_body]
fn gs_stats_insert(m: &mut Arc<GroundStationStats>, id: u8, stat: GroundStationStat)
    ensures
        gs_stats_of(**final(m)) == gs_stats_of(**old(m)).insert(id, stat@),
{
    m.insert(id, stat);
}

/// Calls `DashMap::iter` and copies the keys out. Claimed: the result
/// holds the keys of the map, each once, and nothing else. Nothing is
/// claimed of their order.
#[verifier::external_body]
pub(crate) fn gs_stats_keys(m: &Arc<GroundStationStats>) -> (r: Vec<u8>)
    ensures
        forall|k: u8| gs_stats_of(**m).dom().contains(k) <==> r@.contains(k),
        forall|i: int, j: int| 0 <= i < j < r.len() ==> r[i] != r[j],
{
    m.iter().map(|e| *e.key()).collect()
}

/// Calls `DashMap::new`. Claimed: the new map holds nothing.
#[verifier::external_body]
fn flights_new() -> (m: PositionReportsByFlightMap)
    ensures
        flights_of(m) =~= Map::empty(),
{
    DashMap::new()
}

/// Calls `DashMap::get` and clones the value. Claimed: the result is the
/// value that the map holds for `flight`, `None` where it holds none.
#[verifier::external_body]
pub(crate) fn flights_get(m: &Arc<PositionReportsByFlightMap>, flight: &str) -> (r: Option<PositionReports>)
    ensures
        r.is_some() == flights_of(**m).dom().contains(flight@),
        r matches Some(v) ==> v@ == flights_of(**m)[flight@],
{
    m.get(flight).map(|e| e.value().clone())
}

/// Calls `DashMap::insert`. Claimed: afterwards the map holds `track` for
/// `flight`, and for every other key what it held before.
#[verifier::external_body]
fn flights_insert(m: &mut Arc<PositionReportsByFlightMap>, flight: String, track: PositionReports)
    ensures
        flights_of(**final(m)) == flights_of(**old(m)).insert(flight@, track@),
{
    m.insert(flight, track);
}

/// Calls `DashMap::remove`. Claimed: afterwards the map holds nothing for
/// `flight`, and for every other key what it held before.
#[verifier::external_body]
fn flights_remove(m: &mut Arc<PositionReportsByFlightMap>, flight: &str)
    ensures
        flights_of(**final(m)) == flights_of(**old(m)).remove(flight@),
{
    m.remove(flight);
}

/// Calls `DashMap::iter` and clones the keys. Claimed: the result holds
/// the keys of the map, each once, and nothing else. Nothing is claimed of
/// their order.
#[verifier::external_body]
pub(crate) fn flights_keys(m: &Arc<PositionReportsByFlightMap>) -> (r: Vec<String>)
    ensures
        forall|k: Seq<char>|
            flights_of(**m).dom().contains(k) <==> exists|i: int|
                0 <= i < r.len() && (#[trigger] r[i])@ == k,
        forall|i: int, j: int| 0 <= i < j < r.len() ==> r[i]@ != r[j]@,
{
    m.iter().map(|e| e.key().clone()).collect()
}


/// The store: the band catalog it checks frames against, its timeouts, the
/// tuned band, and the four tables.
pub struct SharedState {
    bands: FrequencyBandMap,
    spdu_timeout: u64,
    ac_timeout: u64,
    session: SessionState,
    pub gs_info: Arc<GroundStationMap>,
    pub gs_stats: Arc<GroundStationStats>,
    pub flight_posrpt: Arc<PositionReportsByFlightMap>,
    pub freq_stats: Arc<FrequencyStats>,
}

impl View for SharedState {
    type V = StoreView;

    closed spec fn view(&self) -> StoreView {
        StoreView {
            session: self.session@,
            gs_info: gs_info_of(*self.gs_info),
            gs_stats: gs_stats_of(*self.gs_stats),
            flights: flights_of(*self.flight_posrpt),
            freq_stats: freq_stats_of(*self.freq_stats),
        }
    }
}

/// `n + 1`, or `n` where that does not fit.
pub open spec fn spec_inc_u32(n: u32) -> u32 {
    if n < u32::MAX {
        (n + 1) as u32
    } else {
        n
    }
}

/// `n + 1`, or `n` where that does not fit.
pub open spec fn spec_inc_u64(n: u64) -> u64 {
    if n < u64::MAX {
        (n + 1) as u64
    } else {
        n
    }
}

/// `s` with `x` at its end, unless `s` holds `x` already.
pub open spec fn spec_push_unique(s: Seq<u32>, x: u32) -> Seq<u32> {
    if s.contains(x) {
        s
    } else {
        s.push(x)
    }
}

/// The counters `m` after one more frame on `freq`.
pub open spec fn spec_bump(m: Map<u32, u32>, freq: u32) -> Map<u32, u32> {
    m.insert(
        freq,
        if m.dom().contains(freq) {
            spec_inc_u32(m[freq])
        } else {
            1
        },
    )
}

/// The counters of a station after one more message from it on `freq`.
pub open spec fn spec_heard_from(s: GroundStationStatView, freq: u32, now: u64) -> GroundStationStatView {
    GroundStationStatView {
        from_msgs: spec_inc_u64(s.from_msgs),
        from_freqs: spec_push_unique(s.from_freqs, freq),
        last_heard: Some(now),
        ..s
    }
}

/// The counters of a station after one more message to it on `freq`.
pub open spec fn spec_sent_to(s: GroundStationStatView, freq: u32, now: u64) -> GroundStationStatView {
    GroundStationStatView {
        to_msgs: spec_inc_u64(s.to_msgs),
        to_freqs: spec_push_unique(s.to_freqs, freq),
        last_heard: Some(now),
        ..s
    }
}

/// The table of counters after one more message from the station `id`; the
/// same table where it holds no such station.
pub open spec fn spec_count_from(
    stats: Map<u8, GroundStationStatView>,
    id: u8,
    freq: u32,
    now: u64,
) -> Map<u8, GroundStationStatView> {
    if stats.dom().contains(id) {
        stats.insert(id, spec_heard_from(stats[id], freq, now))
    } else {
        stats
    }
}

/// The table of counters after one more message to the station `id`; the
/// same table where it holds no such station.
pub open spec fn spec_count_to(
    stats: Map<u8, GroundStationStatView>,
    id: u8,
    freq: u32,
    now: u64,
) -> Map<u8, GroundStationStatView> {
    if stats.dom().contains(id) {
        stats.insert(id, spec_sent_to(stats[id], freq, now))
    } else {
        stats
    }
}

/// Whether each of `freqs` belongs to a band of `catalog`.
pub open spec fn spec_all_known(catalog: Map<u32, Seq<u16>>, freqs: Seq<Frequency>) -> bool {
    forall|i: int|
        0 <= i < freqs.len() ==> crate::bands::spec_has_freq(catalog, (#[trigger] freqs[i]).freq as int)
}

/// The band of each of `freqs`, in their order.
pub open spec fn spec_bands_of(catalog: Map<u32, Seq<u16>>, freqs: Seq<Frequency>) -> Seq<u32> {
    Seq::new(
        freqs.len(),
        |i: int| crate::bands::spec_freq_to_band(catalog, freqs[i].freq as int).unwrap(),
    )
}

/// Whether every frequency that the broadcast `status` reports is known.
pub open spec fn spec_status_known(
    catalog: Map<u32, Seq<u16>>,
    status: Seq<crate::hfdl::GroundStation>,
) -> bool {
    forall|i: int| 0 <= i < status.len() ==> spec_all_known(catalog, (#[trigger] status[i]).freqs@)
}

/// Whether every frequency on which `data` says a station was heard is
/// known.
pub open spec fn spec_evidence_known(catalog: Map<u32, Seq<u16>>, data: Seq<FrequencyData>) -> bool {
    forall|i: int|
        0 <= i < data.len() ==> spec_all_known(catalog, (#[trigger] data[i]).heard_on_freqs@)
}

/// The payload of the point-to-point frame `lpdu` that the store looks at:
/// the one that holds no ACARS message.
pub open spec fn spec_payload(lpdu: LPDU) -> Option<HFNPDU> {
    match lpdu.hfnpdu {
        Some(h) => if h.acars.is_none() {
            Some(h)
        } else {
            None
        },
        None => None,
    }
}

/// The evidence of propagation that the point-to-point frame `lpdu`
/// carries; none where it carries no payload that is looked at.
pub open spec fn spec_evidence(lpdu: LPDU) -> Seq<FrequencyData> {
    match spec_payload(lpdu) {
        Some(h) => match h.freq_data {
            Some(d) => d@,
            None => Seq::empty(),
        },
        None => Seq::empty(),
    }
}

/// Whether every frequency that `frame` reports belongs to a band of
/// `catalog`. A frame that is not consistent changes nothing in the store.
pub open spec fn spec_consistent(catalog: Map<u32, Seq<u16>>, frame: Frame) -> bool {
    match frame.hfdl.spdu {
        Some(spdu) => spec_status_known(catalog, spdu.gs_status@),
        None => match frame.hfdl.lpdu {
            Some(lpdu) => spec_evidence_known(catalog, spec_evidence(lpdu)),
            None => true,
        },
    }
}

/// The last entry of the broadcast `status` that names the station `id`.
pub open spec fn spec_last_status(status: Seq<crate::hfdl::GroundStation>, id: u8) -> Option<
    crate::hfdl::GroundStation,
>
    decreases status.len(),
{
    if status.len() == 0 {
        None
    } else if status.last().gs.id == id {
        Some(status.last())
    } else {
        spec_last_status(status.drop_last(), id)
    }
}

/// What is known of a station once it is heard to use `bands`.
pub open spec fn spec_with_active(v: GroundStationInfoView, bands: Seq<u32>, now: u64) -> GroundStationInfoView {
    GroundStationInfoView { active_bands: bands, last_heard: Some(now), ..v }
}

/// The table of stations after the broadcast `status`: each station of the
/// table that the broadcast names gets the bands of the frequencies that
/// the broadcast reports for it, where it names a station more than once
/// those of the last entry, and is heard at `now`.
pub open spec fn spec_info_after_status(
    info: Map<u8, GroundStationInfoView>,
    catalog: Map<u32, Seq<u16>>,
    status: Seq<crate::hfdl::GroundStation>,
    now: u64,
) -> Map<u8, GroundStationInfoView> {
    Map::new(
        |id: u8| info.dom().contains(id),
        |id: u8|
            match spec_last_status(status, id) {
                Some(s) => spec_with_active(info[id], spec_bands_of(catalog, s.freqs@), now),
                None => info[id],
            },
    )
}

/// Whether evidence of propagation may replace the active bands of a
/// station: it has none, or they are older than `spdu_timeout` seconds.
pub open spec fn spec_eligible(v: GroundStationInfoView, now: u64, spdu_timeout: u64) -> bool {
    v.active_bands.len() == 0 || (v.last_heard matches Some(t) && spec_elapsed(now, t)
        > spdu_timeout)
}

/// The first entry of `data` that names the station `id` and says on which
/// frequencies it was heard.
pub open spec fn spec_first_evidence(data: Seq<FrequencyData>, id: u8) -> Option<FrequencyData>
    decreases data.len(),
{
    if data.len() == 0 {
        None
    } else {
        match spec_first_evidence(data.drop_last(), id) {
            Some(d) => Some(d),
            None => if data.last().gs.id == id && data.last().heard_on_freqs.len() > 0 {
                Some(data.last())
            } else {
                None
            },
        }
    }
}

/// The table of stations after the evidence `data`: a station of the table
/// whose active bands may be replaced gets the bands on which the first
/// entry that names it says it was heard, and is heard at `now`.
pub open spec fn spec_info_after_evidence(
    info: Map<u8, GroundStationInfoView>,
    catalog: Map<u32, Seq<u16>>,
    data: Seq<FrequencyData>,
    now: u64,
    spdu_timeout: u64,
) -> Map<u8, GroundStationInfoView> {
    Map::new(
        |id: u8| info.dom().contains(id),
        |id: u8|
            match spec_first_evidence(data, id) {
                Some(d) => if spec_eligible(info[id], now, spdu_timeout) {
                    spec_with_active(info[id], spec_bands_of(catalog, d.heard_on_freqs@), now)
                } else {
                    info[id]
                },
                None => info[id],
            },
    )
}

/// The stations of the table that `data` says were heard, in the order of
/// `data`, each with the bands on which it was heard.
pub open spec fn spec_propagation(
    info: Map<u8, GroundStationInfoView>,
    catalog: Map<u32, Seq<u16>>,
    data: Seq<FrequencyData>,
) -> Seq<PropagationReportView>
    decreases data.len(),
{
    if data.len() == 0 {
        Seq::empty()
    } else {
        let before = spec_propagation(info, catalog, data.drop_last());
        let d = data.last();
        if d.heard_on_freqs.len() > 0 && info.dom().contains(d.gs.id) {
            before.push(
                PropagationReportView {
                    id: d.gs.id,
                    name: info[d.gs.id].name,
                    location: info[d.gs.id].position,
                    bands: spec_bands_of(catalog, d.heard_on_freqs@),
                },
            )
        } else {
            before
        }
    }
}

/// The key under which the track of the flight `flight_id` is kept.
pub open spec fn spec_flight_key(flight_id: Seq<char>) -> Seq<char> {
    if flight_id.len() == 0 {
        EMPTY_CALLSIGN@
    } else {
        flight_id
    }
}

/// A flight's track after the report `report` at `now`. A track that
/// exists is heard at `now`, and gets the report at its end if the report's
/// position is valid and differs from the last one of the track. A track
/// that does not exist is begun by a report with a valid position.
pub open spec fn spec_track_after(
    track: Option<PositionReportsView>,
    report: PositionReportView,
    now: u64,
) -> Option<PositionReportsView> {
    match track {
        Some(t) => Some(
            PositionReportsView {
                last_heard: now,
                positions: if report.position.spec_is_valid() && (t.positions.len() == 0
                    || t.positions.last().position != report.position) {
                    t.positions.push(report)
                } else {
                    t.positions
                },
            },
        ),
        None => if report.position.spec_is_valid() {
            Some(PositionReportsView { last_heard: now, positions: seq![report] })
        } else {
            None
        },
    }
}

/// The tracks after the report `report` of the flight kept under `key`.
pub open spec fn spec_flights_after(
    flights: Map<Seq<char>, PositionReportsView>,
    key: Seq<char>,
    report: PositionReportView,
    now: u64,
) -> Map<Seq<char>, PositionReportsView> {
    let track = if flights.dom().contains(key) {
        Some(flights[key])
    } else {
        None
    };
    match spec_track_after(track, report, now) {
        Some(t) => flights.insert(key, t),
        None => flights,
    }
}

/// The store after a consistent point-to-point frame on `freq`: the
/// counters of its two ends, where they are named stations of the table;
/// then the evidence of propagation; then the position report.
pub open spec fn spec_update_lpdu(
    s: StoreView,
    catalog: Map<u32, Seq<u16>>,
    spdu_timeout: u64,
    freq: u32,
    lpdu: LPDU,
    now: u64,
) -> StoreView {
    let from = if lpdu.src.entity_name.is_some() {
        spec_count_from(s.gs_stats, lpdu.src.id, freq, now)
    } else {
        s.gs_stats
    };
    let stats = if lpdu.dst.entity_name.is_some() {
        spec_count_to(from, lpdu.dst.id, freq, now)
    } else {
        from
    };
    let data = spec_evidence(lpdu);
    let info = spec_info_after_evidence(s.gs_info, catalog, data, now, spdu_timeout);
    let flights = match spec_payload(lpdu) {
        Some(h) => if h.flight_id.is_some() && h.pos.is_some() {
            spec_flights_after(
                s.flights,
                spec_flight_key(h.flight_id.unwrap()@),
                PositionReportView {
                    position: h.pos.unwrap(),
                    freq,
                    propagation: spec_propagation(s.gs_info, catalog, data),
                },
                now,
            )
        } else {
            s.flights
        },
        None => s.flights,
    };
    StoreView { gs_stats: stats, gs_info: info, flights, ..s }
}

/// The store after the frame `frame` at `now`. A frame that is not
/// consistent with the catalog changes nothing. Any other frame is counted
/// on its frequency; a broadcast then sets the active bands of the stations
/// it names and counts as a message from its source; a point-to-point frame
/// is taken in as `spec_update_lpdu` says. A frame that is both is taken as
/// a broadcast.
pub open spec fn spec_update(
    s: StoreView,
    catalog: Map<u32, Seq<u16>>,
    spdu_timeout: u64,
    frame: Frame,
    now: u64,
) -> StoreView {
    if !spec_consistent(catalog, frame) {
        s
    } else {
        let counted = StoreView { freq_stats: spec_bump(s.freq_stats, frame.hfdl.freq), ..s };
        match frame.hfdl.spdu {
            Some(spdu) => StoreView {
                gs_info: spec_info_after_status(s.gs_info, catalog, spdu.gs_status@, now),
                gs_stats: spec_count_from(s.gs_stats, spdu.src.id, frame.hfdl.freq, now),
                ..counted
            },
            None => match frame.hfdl.lpdu {
                Some(lpdu) => spec_update_lpdu(
                    counted,
                    catalog,
                    spdu_timeout,
                    frame.hfdl.freq,
                    lpdu,
                    now,
                ),
                None => counted,
            },
        }
    }
}

/// The tracks that are left when those not heard for more than
/// `ac_timeout` seconds are taken away.
pub open spec fn spec_clean_up(
    flights: Map<Seq<char>, PositionReportsView>,
    now: u64,
    ac_timeout: u64,
) -> Map<Seq<char>, PositionReportsView> {
    Map::new(
        |k: Seq<char>| flights.dom().contains(k) && spec_elapsed(now, flights[k].last_heard)
            <= ac_timeout,
        |k: Seq<char>| flights[k],
    )
}

/// A frame that reports a frequency of no band leaves the store as it is.
pub proof fn lemma_refused_frame_changes_nothing(
    s: StoreView,
    catalog: Map<u32, Seq<u16>>,
    spdu_timeout: u64,
    frame: Frame,
    now: u64,
)
    requires
        !spec_consistent(catalog, frame),
    ensures
        spec_update(s, catalog, spdu_timeout, frame, now) == s,
{
}

/// Two reports for a flight without a track, both with a valid position,
/// leave one stored report where the positions are the same, and both
/// reports in their order where they differ.
pub proof fn lemma_two_reports(
    first: PositionReportView,
    second: PositionReportView,
    at_first: u64,
    at_second: u64,
)
    requires
        first.position.spec_is_valid(),
        second.position.spec_is_valid(),
    ensures
        spec_track_after(spec_track_after(None, first, at_first), second, at_second) == Some(
            PositionReportsView {
                last_heard: at_second,
                positions: if second.position == first.position {
                    seq![first]
                } else {
                    seq![first, second]
                },
            },
        ),
{
    let one = spec_track_after(None, first, at_first).unwrap();
    assert(one.positions.last() == first);
    if second.position != first.position {
        assert(one.positions.push(second) =~= seq![first, second]);
    }
}

/// A clean-up takes away the tracks that were not heard for more than the
/// timeout, and keeps every other track as it is.
pub proof fn lemma_clean_up(
    flights: Map<Seq<char>, PositionReportsView>,
    now: u64,
    ac_timeout: u64,
    flight: Seq<char>,
)
    requires
        flights.dom().contains(flight),
    ensures
        spec_elapsed(now, flights[flight].last_heard) > ac_timeout ==> !spec_clean_up(
            flights,
            now,
            ac_timeout,
        ).dom().contains(flight),
        spec_elapsed(now, flights[flight].last_heard) <= ac_timeout ==> spec_clean_up(
            flights,
            now,
            ac_timeout,
        ).dom().contains(flight) && spec_clean_up(flights, now, ac_timeout)[flight]
            == flights[flight],
{
}

/// What a broadcast says of a station outranks evidence of propagation:
/// the active bands that a broadcast at second `then` gave a station are
/// not replaced by evidence at second `now`, unless more than `spdu_timeout`
/// seconds lie between the two.
pub proof fn lemma_broadcast_outranks_evidence(
    info: Map<u8, GroundStationInfoView>,
    catalog: Map<u32, Seq<u16>>,
    status: Seq<crate::hfdl::GroundStation>,
    data: Seq<FrequencyData>,
    then: u64,
    now: u64,
    spdu_timeout: u64,
    id: u8,
)
    requires
        info.dom().contains(id),
        spec_last_status(status, id) matches Some(s) && s.freqs.len() > 0,
        spec_elapsed(now, then) <= spdu_timeout,
    ensures
        spec_info_after_evidence(
            spec_info_after_status(info, catalog, status, then),
            catalog,
            data,
            now,
            spdu_timeout,
        )[id] == spec_info_after_status(info, catalog, status, then)[id],
{
}

/// `v` with `x` at its end, unless it holds `x` already.
fn push_unique(v: &mut Vec<u32>, x: u32)
    ensures
        final(v)@ == spec_push_unique(old(v)@, x),
{
    let mut i: usize = 0;
    while i < v.len()
        invariant
            i <= v.len(),
            v@ == old(v)@,
            forall|j: int| 0 <= j < i ==> v[j] != x,
        decreases v.len() - i,
    {
        if v[i] == x {
            return ;
        }
        i += 1;
    }
    v.push(x);
}

/// Whether each of `freqs` belongs to a band of `catalog`.
fn all_known(catalog: &FrequencyBandMap, freqs: &Vec<Frequency>) -> (r: bool)
    requires
        catalog.wf(),
    ensures
        r == spec_all_known(catalog@, freqs@),
{
    let mut i: usize = 0;
    while i < freqs.len()
        invariant
            catalog.wf(),
            i <= freqs.len(),
            forall|j: int|
                0 <= j < i ==> crate::bands::spec_has_freq(catalog@, (#[trigger] freqs[j]).freq as int),
        decreases freqs.len() - i,
    {
        if catalog.freq_to_band(freqs[i].freq).is_none() {
            return false;
        }
        i += 1;
    }
    true
}

/// The band of each of `freqs`, in their order.
fn bands_of(catalog: &FrequencyBandMap, freqs: &Vec<Frequency>) -> (r: Vec<u32>)
    requires
        catalog.wf(),
        spec_all_known(catalog@, freqs@),
    ensures
        r@ == spec_bands_of(catalog@, freqs@),
{
    let mut out: Vec<u32> = Vec::new();
    let mut i: usize = 0;
    while i < freqs.len()
        invariant
            catalog.wf(),
            spec_all_known(catalog@, freqs@),
            i <= freqs.len(),
            out.len() == i,
            forall|j: int|
                0 <= j < i ==> out[j] == crate::bands::spec_freq_to_band(
                    catalog@,
                    freqs[j].freq as int,
                ).unwrap(),
        decreases freqs.len() - i,
    {
        assert(crate::bands::spec_has_freq(catalog@, freqs[i as int].freq as int));
        match catalog.freq_to_band(freqs[i].freq) {
            Some(id) => {
                out.push(id);
            },
            None => {},
        }
        i += 1;
    }
    assert(out@ =~= spec_bands_of(catalog@, freqs@));
    out
}

/// Whether every frequency that the broadcast `status` reports is known.
fn status_known(catalog: &FrequencyBandMap, status: &Vec<crate::hfdl::GroundStation>) -> (r: bool)
    requires
        catalog.wf(),
    ensures
        r == spec_status_known(catalog@, status@),
{
    let mut i: usize = 0;
    while i < status.len()
        invariant
            catalog.wf(),
            i <= status.len(),
            forall|j: int| 0 <= j < i ==> spec_all_known(catalog@, (#[trigger] status[j]).freqs@),
        decreases status.len() - i,
    {
        if !all_known(catalog, &status[i].freqs) {
            return false;
        }
        i += 1;
    }
    true
}

/// Whether every frequency on which `data` says a station was heard is
/// known.
fn evidence_known(catalog: &FrequencyBandMap, data: &Vec<FrequencyData>) -> (r: bool)
    requires
        catalog.wf(),
    ensures
        r == spec_evidence_known(catalog@, data@),
{
    let mut i: usize = 0;
    while i < data.len()
        invariant
            catalog.wf(),
            i <= data.len(),
            forall|j: int|
                0 <= j < i ==> spec_all_known(catalog@, (#[trigger] data[j]).heard_on_freqs@),
        decreases data.len() - i,
    {
        if !all_known(catalog, &data[i].heard_on_freqs) {
            return false;
        }
        i += 1;
    }
    true
}

/// The payload of `lpdu` that the store looks at.
fn payload(lpdu: &LPDU) -> (r: Option<&HFNPDU>)
    ensures
        r.is_some() == spec_payload(*lpdu).is_some(),
        r matches Some(h) ==> *h == spec_payload(*lpdu).unwrap(),
{
    match &lpdu.hfnpdu {
        Some(h) => if h.acars.is_none() {
            Some(h)
        } else {
            None
        },
        None => None,
    }
}

/// Whether every frequency that `frame` reports belongs to a band of
/// `catalog`.
pub fn consistent(catalog: &FrequencyBandMap, frame: &Frame) -> (r: bool)
    requires
        catalog.wf(),
    ensures
        r == spec_consistent(catalog@, *frame),
{
    match &frame.hfdl.spdu {
        Some(spdu) => status_known(catalog, &spdu.gs_status),
        None => match &frame.hfdl.lpdu {
            Some(lpdu) => match payload(lpdu) {
                Some(h) => match &h.freq_data {
                    Some(d) => evidence_known(catalog, d),
                    None => true,
                },
                None => true,
            },
            None => true,
        },
    }
}


/// The last station of `stations` with the identifier `id`.
pub open spec fn spec_last_station(stations: Seq<crate::config::GroundStation>, id: u8) -> Option<
    crate::config::GroundStation,
>
    decreases stations.len(),
{
    if stations.len() == 0 {
        None
    } else if stations.last().id == id {
        Some(stations.last())
    } else {
        spec_last_station(stations.drop_last(), id)
    }
}

/// What is known of the station `gs` before any frame: no active bands, and
/// never heard.
pub open spec fn spec_fresh_info(gs: crate::config::GroundStation) -> GroundStationInfoView {
    GroundStationInfoView {
        name: gs.name@,
        position: gs.position,
        assigned_bands: gs.assigned@,
        active_bands: Seq::empty(),
        last_heard: None,
    }
}

/// The counters of the station `gs` before any frame.
pub open spec fn spec_fresh_stat(gs: crate::config::GroundStation) -> GroundStationStatView {
    GroundStationStatView {
        name: gs.name@,
        to_msgs: 0,
        to_freqs: Seq::empty(),
        from_msgs: 0,
        from_freqs: Seq::empty(),
        last_heard: None,
    }
}

/// The table of stations before any frame: one entry for each identifier
/// among `stations`, made from the last station that has it.
pub open spec fn spec_initial_info(stations: Seq<crate::config::GroundStation>) -> Map<
    u8,
    GroundStationInfoView,
> {
    Map::new(
        |id: u8| spec_last_station(stations, id).is_some(),
        |id: u8| spec_fresh_info(spec_last_station(stations, id).unwrap()),
    )
}

/// The table of counters before any frame.
pub open spec fn spec_initial_stats(stations: Seq<crate::config::GroundStation>) -> Map<
    u8,
    GroundStationStatView,
> {
    Map::new(
        |id: u8| spec_last_station(stations, id).is_some(),
        |id: u8| spec_fresh_stat(spec_last_station(stations, id).unwrap()),
    )
}

/// The store before any frame.
pub open spec fn spec_initial(stations: Seq<crate::config::GroundStation>) -> StoreView {
    StoreView {
        session: SessionStateView { band: 0, freqs: Seq::empty() },
        gs_info: spec_initial_info(stations),
        gs_stats: spec_initial_stats(stations),
        flights: Map::empty(),
        freq_stats: Map::empty(),
    }
}

/// The table of stations that the configuration gives.
pub fn gs_info_from_config(config: &Config) -> (m: Arc<GroundStationMap>)
    ensures
        gs_info_of(*m) == spec_initial_info(config.info.stations@),
{
    let mut m = Arc::new(gs_info_new());
    let stations = &config.info.stations;
    let mut i: usize = 0;
    assert(gs_info_of(*m) =~= spec_initial_info(stations@.take(0)));
    while i < stations.len()
        invariant
            i <= stations.len(),
            gs_info_of(*m) == spec_initial_info(stations@.take(i as int)),
        decreases stations.len() - i,
    {
        let gs = &stations[i];
        let assigned = gs.assigned.clone();
        assert(assigned@ =~= gs.assigned@);
        let info = GroundStationInfo {
            name: gs.name.clone(),
            position: gs.position,
            assigned_bands: assigned,
            active_bands: Vec::new(),
            last_heard: None,
        };
        assert(info@ == spec_fresh_info(*gs));
        gs_info_insert(&mut m, gs.id, info);
        proof {
            let before = stations@.take(i as int);
            let after = stations@.take(i + 1);
            assert(after.drop_last() == before);
            assert(after.last() == *gs);
            assert(gs_info_of(*m) =~= spec_initial_info(after));
        }
        i += 1;
    }
    assert(stations@.take(stations.len() as int) == stations@);
    m
}

/// The table of counters that the configuration gives.
pub fn gs_stats_from_config(config: &Config) -> (m: Arc<GroundStationStats>)
    ensures
        gs_stats_of(*m) == spec_initial_stats(config.info.stations@),
{
    let mut m = Arc::new(gs_stats_new());
    let stations = &config.info.stations;
    let mut i: usize = 0;
    assert(gs_stats_of(*m) =~= spec_initial_stats(stations@.take(0)));
    while i < stations.len()
        invariant
            i <= stations.len(),
            gs_stats_of(*m) == spec_initial_stats(stations@.take(i as int)),
        decreases stations.len() - i,
    {
        let gs = &stations[i];
        let stat = GroundStationStat {
            name: gs.name.clone(),
            to_msgs: 0,
            to_freqs: Vec::new(),
            from_msgs: 0,
            from_freqs: Vec::new(),
            last_heard: None,
        };
        assert(stat@ == spec_fresh_stat(*gs));
        gs_stats_insert(&mut m, gs.id, stat);
        proof {
            let before = stations@.take(i as int);
            let after = stations@.take(i + 1);
            assert(after.drop_last() == before);
            assert(after.last() == *gs);
            assert(gs_stats_of(*m) =~= spec_initial_stats(after));
        }
        i += 1;
    }
    assert(stations@.take(stations.len() as int) == stations@);
    m
}

impl SharedState {
    /// The catalog that frames are checked against.
    pub closed spec fn spec_bands(&self) -> Map<u32, Seq<u16>> {
        self.bands@
    }

    /// The seconds after which a broadcast's bands are stale.
    pub closed spec fn spec_spdu_timeout(&self) -> u64 {
        self.spdu_timeout
    }

    /// The seconds after which a flight is stale.
    pub closed spec fn spec_ac_timeout(&self) -> u64 {
        self.ac_timeout
    }

    /// Whether the store's catalog is well formed.
    pub closed spec fn wf(&self) -> bool {
        self.bands.wf()
    }

    /// Whether the store has the catalog and the timeouts of `other`.
    pub closed spec fn spec_same_settings(&self, other: &SharedState) -> bool {
        &&& self.bands == other.bands
        &&& self.spdu_timeout == other.spdu_timeout
        &&& self.ac_timeout == other.ac_timeout
    }

    /// Stores with the same settings agree on all that the settings decide.
    pub proof fn lemma_same_settings(&self, other: &SharedState)
        requires
            self.spec_same_settings(other),
        ensures
            self.spec_bands() == other.spec_bands(),
            self.spec_spdu_timeout() == other.spec_spdu_timeout(),
            self.spec_ac_timeout() == other.spec_ac_timeout(),
            self.wf() == other.wf(),
    {
    }

    /// The store for the configuration `config`, before any frame.
    pub fn new(config: &Config) -> (s: SharedState)
        requires
            config.wf(),
        ensures
            s.wf(),
            s@ == spec_initial(config.info.stations@),
            s.spec_bands() == config.info.bands@,
            s.spec_spdu_timeout() == config.spdu_timeout,
            s.spec_ac_timeout() == config.ac_timeout,
    {
        SharedState {
            bands: config.info.bands.duplicate(),
            spdu_timeout: config.spdu_timeout,
            ac_timeout: config.ac_timeout,
            session: SessionState { band: 0, freqs: Vec::new() },
            gs_info: gs_info_from_config(config),
            gs_stats: gs_stats_from_config(config),
            flight_posrpt: Arc::new(flights_new()),
            freq_stats: Arc::new(freq_stats_new()),
        }
    }

    /// The seconds after which a broadcast's bands are stale.
    pub fn spdu_timeout(&self) -> (r: u64)
        ensures
            r == self.spec_spdu_timeout(),
    {
        self.spdu_timeout
    }

    /// The seconds after which a flight is stale.
    pub fn ac_timeout(&self) -> (r: u64)
        ensures
            r == self.spec_ac_timeout(),
    {
        self.ac_timeout
    }

    /// The band that holds the frequency `freq`, given in kHz.
    pub fn freq_to_band(&self, freq: u32) -> (r: Option<u32>)
        requires
            self.wf(),
        ensures
            r == crate::bands::spec_freq_to_band(self.spec_bands(), freq as int),
    {
        self.bands.freq_to_band(freq)
    }

    /// The band that is tuned and its frequencies.
    pub fn session(&self) -> (r: &SessionState)
        ensures
            r@ == self@.session,
    {
        &self.session
    }

    /// Notes that `freqs` are tuned now. Nothing changes where `freqs` is
    /// empty or its first frequency belongs to no band.
    pub fn update_current_band(&mut self, freqs: &Vec<u16>)
        requires
            old(self).wf(),
        ensures
            final(self).wf(),
            final(self).spec_same_settings(old(self)),
            final(self)@ == (if freqs.len() > 0 {
                match crate::bands::spec_freq_to_band(old(self).spec_bands(), freqs[0] as int) {
                    Some(band) => StoreView {
                        session: SessionStateView { band, freqs: freqs@ },
                        ..old(self)@
                    },
                    None => old(self)@,
                }
            } else {
                old(self)@
            }),
    {
        if freqs.len() > 0 {
            match self.bands.freq_to_band(freqs[0] as u32) {
                Some(band) => {
                    let copy = freqs.clone();
                    assert(copy@ =~= freqs@);
                    self.session = SessionState { band, freqs: copy };
                },
                None => {},
            }
        }
    }

    /// What is known of the station `id`.
    pub fn ground_station(&self, id: u8) -> (r: Option<GroundStationInfo>)
        ensures
            r.is_some() == self@.gs_info.dom().contains(id),
            r matches Some(v) ==> v@ == self@.gs_info[id],
    {
        gs_info_get(&self.gs_info, id)
    }

    /// The message counters of the station `id`.
    pub fn station_stats(&self, id: u8) -> (r: Option<GroundStationStat>)
        ensures
            r.is_some() == self@.gs_stats.dom().contains(id),
            r matches Some(v) ==> v@ == self@.gs_stats[id],
    {
        gs_stats_get(&self.gs_stats, id)
    }

    /// How many frames the frequency `freq`, in Hz, carried.
    pub fn frequency_count(&self, freq: u32) -> (r: Option<u32>)
        ensures
            r.is_some() == self@.freq_stats.dom().contains(freq),
            r matches Some(v) ==> v == self@.freq_stats[freq],
    {
        freq_stats_get(&self.freq_stats, freq)
    }

    /// The frequencies, in Hz, that carried a frame, each once, in no
    /// stated order.
    pub fn frequencies(&self) -> (r: Vec<u32>)
        ensures
            forall|k: u32| self@.freq_stats.dom().contains(k) <==> r@.contains(k),
            forall|i: int, j: int| 0 <= i < j < r.len() ==> r[i] != r[j],
    {
        freq_stats_keys(&self.freq_stats)
    }

    /// The stations of which something is known, each once, in no stated
    /// order.
    pub fn stations(&self) -> (r: Vec<u8>)
        ensures
            forall|k: u8| self@.gs_info.dom().contains(k) <==> r@.contains(k),
            forall|i: int, j: int| 0 <= i < j < r.len() ==> r[i] != r[j],
    {
        gs_info_keys(&self.gs_info)
    }

    /// The stations whose messages are counted, each once, in no stated
    /// order.
    pub fn counted_stations(&self) -> (r: Vec<u8>)
        ensures
            forall|k: u8| self@.gs_stats.dom().contains(k) <==> r@.contains(k),
            forall|i: int, j: int| 0 <= i < j < r.len() ==> r[i] != r[j],
    {
        gs_stats_keys(&self.gs_stats)
    }

    /// The track of the flight kept under `flight`.
    pub fn flight(&self, flight: &str) -> (r: Option<PositionReports>)
        ensures
            r.is_some() == self@.flights.dom().contains(flight@),
            r matches Some(v) ==> v@ == self@.flights[flight@],
    {
        flights_get(&self.flight_posrpt, flight)
    }

    /// The flights that have a track, each once, in no stated order.
    pub fn flights(&self) -> (r: Vec<String>)
        ensures
            forall|k: Seq<char>|
                self@.flights.dom().contains(k) <==> exists|i: int|
                    0 <= i < r.len() && (#[trigger] r[i])@ == k,
            forall|i: int, j: int| 0 <= i < j < r.len() ==> r[i]@ != r[j]@,
    {
        flights_keys(&self.flight_posrpt)
    }

    /// Counts one more frame on `freq`.
    fn count_frame(&mut self, freq: u32)
        ensures
            final(self).spec_same_settings(old(self)),
            final(self)@ == (StoreView {
                freq_stats: spec_bump(old(self)@.freq_stats, freq),
                ..old(self)@
            }),
    {
        let next: u32 = match freq_stats_get(&self.freq_stats, freq) {
            Some(n) => if n < u32::MAX {
                n + 1
            } else {
                n
            },
            None => 1,
        };
        freq_stats_insert(&mut self.freq_stats, freq, next);
    }

    /// Counts one more message from the station `id`.
    fn count_from(&mut self, id: u8, freq: u32, now: u64)
        ensures
            final(self).spec_same_settings(old(self)),
            final(self)@ == (StoreView {
                gs_stats: spec_count_from(old(self)@.gs_stats, id, freq, now),
                ..old(self)@
            }),
    {
        match gs_stats_get(&self.gs_stats, id) {
            Some(mut stat) => {
                if stat.from_msgs < u64::MAX {
                    stat.from_msgs = stat.from_msgs + 1;
                }
                push_unique(&mut stat.from_freqs, freq);
                stat.last_heard = Some(now);
                gs_stats_insert(&mut self.gs_stats, id, stat);
                assert(self@.gs_stats =~= spec_count_from(old(self)@.gs_stats, id, freq, now));
            },
            None => {},
        }
    }

    /// Counts one more message to the station `id`.
    fn count_to(&mut self, id: u8, freq: u32, now: u64)
        ensures
            final(self).spec_same_settings(old(self)),
            final(self)@ == (StoreView {
                gs_stats: spec_count_to(old(self)@.gs_stats, id, freq, now),
                ..old(self)@
            }),
    {
        match gs_stats_get(&self.gs_stats, id) {
            Some(mut stat) => {
                if stat.to_msgs < u64::MAX {
                    stat.to_msgs = stat.to_msgs + 1;
                }
                push_unique(&mut stat.to_freqs, freq);
                stat.last_heard = Some(now);
                gs_stats_insert(&mut self.gs_stats, id, stat);
                assert(self@.gs_stats =~= spec_count_to(old(self)@.gs_stats, id, freq, now));
            },
            None => {},
        }
    }

    /// Sets the active bands of the stations that the broadcast `status`
    /// names.
    fn apply_status(&mut self, status: &Vec<crate::hfdl::GroundStation>, now: u64)
        requires
            old(self).wf(),
            spec_status_known(old(self).spec_bands(), status@),
        ensures
            final(self).spec_same_settings(old(self)),
            final(self)@ == (StoreView {
                gs_info: spec_info_after_status(
                    old(self)@.gs_info,
                    old(self).spec_bands(),
                    status@,
                    now,
                ),
                ..old(self)@
            }),
    {
        let ghost start = self@.gs_info;
        let ghost catalog = self.bands@;
        let mut i: usize = 0;
        assert(start =~= spec_info_after_status(start, catalog, status@.take(0), now));
        while i < status.len()
            invariant
                i <= status.len(),
                self.wf(),
                self.spec_same_settings(old(self)),
                catalog == self.bands@,
                start == old(self)@.gs_info,
                spec_status_known(catalog, status@),
                self@ == (StoreView {
                    gs_info: spec_info_after_status(start, catalog, status@.take(i as int), now),
                    ..old(self)@
                }),
            decreases status.len() - i,
        {
            let entry = &status[i];
            let bands = bands_of(&self.bands, &entry.freqs);
            match gs_info_get(&self.gs_info, entry.gs.id) {
                Some(mut info) => {
                    info.active_bands = bands;
                    info.last_heard = Some(now);
                    gs_info_insert(&mut self.gs_info, entry.gs.id, info);
                },
                None => {},
            }
            proof {
                let before = status@.take(i as int);
                let after = status@.take(i + 1);
                assert(after.drop_last() == before);
                assert(after.last() == *entry);
                assert(self@.gs_info =~= spec_info_after_status(start, catalog, after, now));
            }
            i += 1;
        }
        assert(status@.take(status.len() as int) == status@);
    }

    /// Takes in the evidence of propagation `data`, and returns the stations
    /// of the table that it says were heard.
    fn apply_evidence(&mut self, data: &Vec<FrequencyData>, now: u64) -> (r: Vec<PropagationReport>)
        requires
            old(self).wf(),
            spec_evidence_known(old(self).spec_bands(), data@),
        ensures
            final(self).spec_same_settings(old(self)),
            final(self)@ == (StoreView {
                gs_info: spec_info_after_evidence(
                    old(self)@.gs_info,
                    old(self).spec_bands(),
                    data@,
                    now,
                    old(self).spec_spdu_timeout(),
                ),
                ..old(self)@
            }),
            spec_propagation_views(r@) == spec_propagation(
                old(self)@.gs_info,
                old(self).spec_bands(),
                data@,
            ),
    {
        let ghost start = self@.gs_info;
        let ghost catalog = self.bands@;
        let ghost timeout = self.spdu_timeout;
        let mut out: Vec<PropagationReport> = Vec::new();
        let mut i: usize = 0;
        assert(start =~= spec_info_after_evidence(start, catalog, data@.take(0), now, timeout));
        assert(spec_propagation_views(out@) =~= spec_propagation(start, catalog, data@.take(0)));
        while i < data.len()
            invariant
                i <= data.len(),
                self.wf(),
                self.spec_same_settings(old(self)),
                catalog == self.bands@,
                timeout == self.spdu_timeout,
                start == old(self)@.gs_info,
                spec_evidence_known(catalog, data@),
                self@ == (StoreView {
                    gs_info: spec_info_after_evidence(
                        start,
                        catalog,
                        data@.take(i as int),
                        now,
                        timeout,
                    ),
                    ..old(self)@
                }),
                spec_propagation_views(out@) == spec_propagation(
                    start,
                    catalog,
                    data@.take(i as int),
                ),
            decreases data.len() - i,
        {
            let d = &data[i];
            let ghost before = data@.take(i as int);
            let ghost after = data@.take(i + 1);
            let ghost seen = spec_propagation_views(out@);
            let ghost prev = self@.gs_info;
            proof {
                assert(after.drop_last() == before);
                assert(after.last() == *d);
            }
            if d.heard_on_freqs.len() > 0 {
                let heard = bands_of(&self.bands, &d.heard_on_freqs);
                match gs_info_get(&self.gs_info, d.gs.id) {
                    Some(mut info) => {
                        let copy = heard.clone();
                        assert(copy@ =~= heard@);
                        let report = PropagationReport {
                            id: d.gs.id,
                            name: info.name.clone(),
                            location: info.position,
                            bands: copy,
                        };
                        out.push(report);
                        assert(spec_propagation_views(out@) =~= seen.push(report@));
                        let stale = match info.last_heard {
                            Some(t) => elapsed(now, t) > self.spdu_timeout,
                            None => false,
                        };
                        if info.active_bands.len() == 0 || stale {
                            info.active_bands = heard;
                            info.last_heard = Some(now);
                            gs_info_insert(&mut self.gs_info, d.gs.id, info);
                        }
                    },
                    None => {},
                }
            }
            proof {
                lemma_first_evidence(before, d.gs.id);
                let wanted = spec_info_after_evidence(start, catalog, after, now, timeout);
                assert forall|k: u8| start.dom().contains(k) implies self@.gs_info[k] == wanted[k] by {
                    if k != d.gs.id {
                        assert(self@.gs_info[k] == prev[k]);
                    }
                }
                assert(self@.gs_info =~= wanted);
            }
            i += 1;
        }
        assert(data@.take(data.len() as int) == data@);
        out
    }

    /// Takes in the report that the flight `flight_id` is at `position`.
    fn apply_position(
        &mut self,
        flight_id: &String,
        position: Position,
        freq: u32,
        propagation: Vec<PropagationReport>,
        now: u64,
    )
        ensures
            final(self).spec_same_settings(old(self)),
            final(self)@ == (StoreView {
                flights: spec_flights_after(
                    old(self)@.flights,
                    spec_flight_key(flight_id@),
                    PositionReportView {
                        position,
                        freq,
                        propagation: spec_propagation_views(propagation@),
                    },
                    now,
                ),
                ..old(self)@
            }),
    {
        let key: String = if flight_id.as_str().is_empty() {
            EMPTY_CALLSIGN.to_owned()
        } else {
            flight_id.clone()
        };
        let report = PositionReport { position, freq, propagation };
        match flights_get(&self.flight_posrpt, key.as_str()) {
            Some(mut track) => {
                let ghost stored = spec_position_views(track.positions@);
                let n = track.positions.len();
                if position.is_valid() && (n == 0 || track.positions[n - 1].position != position) {
                    track.positions.push(report);
                    assert(spec_position_views(track.positions@) =~= stored.push(report@));
                }
                track.last_heard = now;
                flights_insert(&mut self.flight_posrpt, key, track);
            },
            None => {
                if position.is_valid() {
                    let mut positions: Vec<PositionReport> = Vec::new();
                    positions.push(report);
                    assert(spec_position_views(positions@) =~= seq![report@]);
                    flights_insert(
                        &mut self.flight_posrpt,
                        key,
                        PositionReports { last_heard: now, positions },
                    );
                }
            },
        }
    }

    /// Takes in a consistent point-to-point frame on `freq`.
    fn update_lpdu(&mut self, freq: u32, lpdu: &LPDU, now: u64)
        requires
            old(self).wf(),
            spec_evidence_known(old(self).spec_bands(), spec_evidence(*lpdu)),
        ensures
            final(self).spec_same_settings(old(self)),
            final(self)@ == spec_update_lpdu(
                old(self)@,
                old(self).spec_bands(),
                old(self).spec_spdu_timeout(),
                freq,
                *lpdu,
                now,
            ),
    {
        if lpdu.src.entity_name.is_some() {
            self.count_from(lpdu.src.id, freq, now);
        }
        if lpdu.dst.entity_name.is_some() {
            self.count_to(lpdu.dst.id, freq, now);
        }
        let ghost counted = self@;
        match payload(lpdu) {
            Some(h) => {
                let propagation = match &h.freq_data {
                    Some(d) => self.apply_evidence(d, now),
                    None => {
                        assert(self@.gs_info =~= spec_info_after_evidence(
                            self@.gs_info,
                            self.bands@,
                            Seq::empty(),
                            now,
                            self.spdu_timeout,
                        ));
                        Vec::new()
                    },
                };
                assert(spec_propagation_views(propagation@) =~= spec_propagation(
                    old(self)@.gs_info,
                    self.bands@,
                    spec_evidence(*lpdu),
                ));
                match (&h.flight_id, h.pos) {
                    (Some(flight_id), Some(position)) => {
                        self.apply_position(flight_id, position, freq, propagation, now);
                    },
                    _ => {},
                }
            },
            None => {
                assert(self@.gs_info =~= spec_info_after_evidence(
                    self@.gs_info,
                    self.bands@,
                    Seq::empty(),
                    now,
                    self.spdu_timeout,
                ));
            },
        }
    }

    /// Takes the frame `frame`, received at second `now`, into the store.
    /// A frame that reports a frequency of no band is refused, and nothing
    /// changes.
    pub fn update_at(&mut self, frame: &Frame, now: u64) -> (r: Result<(), StateError>)
        requires
            old(self).wf(),
        ensures
            final(self).wf(),
            final(self).spec_same_settings(old(self)),
            r.is_ok() == spec_consistent(old(self).spec_bands(), *frame),
            final(self)@ == spec_update(
                old(self)@,
                old(self).spec_bands(),
                old(self).spec_spdu_timeout(),
                *frame,
                now,
            ),
    {
        if !consistent(&self.bands, frame) {
            return Err(StateError::UnknownFrequency);
        }
        self.count_frame(frame.hfdl.freq);
        match &frame.hfdl.spdu {
            Some(spdu) => {
                self.apply_status(&spdu.gs_status, now);
                self.count_from(spdu.src.id, frame.hfdl.freq, now);
            },
            None => match &frame.hfdl.lpdu {
                Some(lpdu) => {
                    self.update_lpdu(frame.hfdl.freq, lpdu, now);
                },
                None => {},
            },
        }
        Ok(())
    }

    /// Takes the frame `frame` into the store, as received at the time the
    /// clock shows.
    pub fn update(&mut self, frame: &Frame) -> (r: Result<(), StateError>)
        requires
            old(self).wf(),
        ensures
            final(self).wf(),
            final(self).spec_same_settings(old(self)),
            r.is_ok() == spec_consistent(old(self).spec_bands(), *frame),
            exists|now: u64|
                final(self)@ == #[trigger] spec_update(
                    old(self)@,
                    old(self).spec_bands(),
                    old(self).spec_spdu_timeout(),
                    *frame,
                    now,
                ),
    {
        let clock = read_clock();
        self.update_at(frame, clock.secs)
    }

    /// Takes away the tracks of the flights that were not heard for more
    /// than the store's flight timeout, counted back from second `now`.
    pub fn clean_up_at(&mut self, now: u64)
        requires
            old(self).wf(),
        ensures
            final(self).wf(),
            final(self).spec_same_settings(old(self)),
            final(self)@ == (StoreView {
                flights: spec_clean_up(old(self)@.flights, now, old(self).spec_ac_timeout()),
                ..old(self)@
            }),
    {
        let keys = flights_keys(&self.flight_posrpt);
        let ghost start = self@.flights;
        let ghost timeout = self.ac_timeout;
        let mut i: usize = 0;
        assert(self@.flights =~= spec_swept(start, keys@, 0, now, timeout));
        while i < keys.len()
            invariant
                i <= keys.len(),
                self.wf(),
                self.spec_same_settings(old(self)),
                timeout == self.ac_timeout,
                start == old(self)@.flights,
                self@ == (StoreView {
                    flights: spec_swept(start, keys@, i as int, now, timeout),
                    ..old(self)@
                }),
            decreases keys.len() - i,
        {
            let key = keys[i].as_str();
            match flights_get(&self.flight_posrpt, key) {
                Some(track) => {
                    if elapsed(now, track.last_heard) > self.ac_timeout {
                        flights_remove(&mut self.flight_posrpt, key);
                    }
                },
                None => {},
            }
            proof {
                assert(self@.flights =~= spec_swept(start, keys@, i + 1, now, timeout)) by {
                    assert forall|k: Seq<char>| spec_swept_away(start, keys@, i + 1, now, timeout, k)
                        == (spec_swept_away(start, keys@, i as int, now, timeout, k) || (k == key@
                        && start.dom().contains(k) && spec_elapsed(now, start[k].last_heard) > timeout)) by {
                        if spec_swept_away(start, keys@, i + 1, now, timeout, k) {
                            let j = choose|j: int| 0 <= j < i + 1 && (#[trigger] keys@[j])@ == k;
                            if j < i {
                                assert(spec_swept_away(start, keys@, i as int, now, timeout, k));
                            }
                        }
                        if k == key@ && start.dom().contains(k) && spec_elapsed(
                            now,
                            start[k].last_heard,
                        ) > timeout {
                            assert(keys@[i as int]@ == k);
                        }
                        if spec_swept_away(start, keys@, i as int, now, timeout, k) {
                            let j = choose|j: int| 0 <= j < i && (#[trigger] keys@[j])@ == k;
                            assert(keys@[j]@ == k);
                        }
                    }
                }
            }
            i += 1;
        }
        proof {
            assert(self@.flights =~= spec_clean_up(start, now, timeout)) by {
                assert forall|k: Seq<char>| start.dom().contains(k) && spec_elapsed(
                    now,
                    start[k].last_heard,
                ) > timeout implies spec_swept_away(start, keys@, i as int, now, timeout, k) by {
                    let j = choose|j: int| 0 <= j < keys.len() && (#[trigger] keys[j])@ == k;
                    assert(keys@[j]@ == k);
                }
            }
        }
    }

    /// Takes away the tracks of the flights that were not heard for more
    /// than the store's flight timeout, counted back from the time the clock
    /// shows.
    pub fn clean_up(&mut self)
        requires
            old(self).wf(),
        ensures
            final(self).wf(),
            final(self).spec_same_settings(old(self)),
            final(self)@ == (StoreView { flights: final(self)@.flights, ..old(self)@ }),
            exists|now: u64|
                final(self)@.flights == #[trigger] spec_clean_up(
                    old(self)@.flights,
                    now,
                    old(self).spec_ac_timeout(),
                ),
    {
        let clock = read_clock();
        self.clean_up_at(clock.secs);
    }
}

/// The first evidence for a station names it and says where it was heard.
proof fn lemma_first_evidence(data: Seq<FrequencyData>, id: u8)
    ensures
        spec_first_evidence(data, id) matches Some(d) ==> d.gs.id == id && d.heard_on_freqs.len() > 0,
    decreases data.len(),
{
    if data.len() > 0 {
        lemma_first_evidence(data.drop_last(), id);
    }
}

/// Whether the track kept under `k` is stale and among the first `n` of
/// `keys`.
spec fn spec_swept_away(
    flights: Map<Seq<char>, PositionReportsView>,
    keys: Seq<String>,
    n: int,
    now: u64,
    ac_timeout: u64,
    k: Seq<char>,
) -> bool {
    &&& flights.dom().contains(k)
    &&& spec_elapsed(now, flights[k].last_heard) > ac_timeout
    &&& exists|j: int| 0 <= j < n && (#[trigger] keys[j])@ == k
}

/// The tracks that are left when the stale ones among the first `n` of
/// `keys` are taken away.
spec fn spec_swept(
    flights: Map<Seq<char>, PositionReportsView>,
    keys: Seq<String>,
    n: int,
    now: u64,
    ac_timeout: u64,
) -> Map<Seq<char>, PositionReportsView> {
    Map::new(
        |k: Seq<char>| flights.dom().contains(k) && !spec_swept_away(flights, keys, n, now, ac_timeout, k),
        |k: Seq<char>| flights[k],
    )
}

} // verus!

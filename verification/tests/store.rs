use hfdl_autopilot::args::{Args, Props};
use hfdl_autopilot::bands::band_id;
use hfdl_autopilot::chooser::tracker::{tracker_candidates, TrackerChooserPlugin};
use hfdl_autopilot::chooser::{ChooserError, ChooserPlugin};
use hfdl_autopilot::config::{Config, HFDLInfo};
use hfdl_autopilot::hfdl::{
    Entity, Frame, Frequency, FrequencyData, GroundStation, PDUType, Position, Time, ACARS, HFDL,
    HFNPDU, LPDU, SPDU,
};
use hfdl_autopilot::state::{
    consistent, gs_info_from_config, gs_stats_from_config, GroundStationInfo, SharedState,
    StateError,
};
use hfdl_autopilot::utils::systable::{StationRecord, SystemTable};

const SPDU_TIMEOUT: u64 = 900;
const AC_TIMEOUT: u64 = 1800;

fn config() -> Config {
    let records = vec![
        StationRecord {
            id: 1,
            name: "San Francisco, California".to_string(),
            lat: 37_512_777,
            lon: -122_331_666,
            frequencies: vec![5000, 8000, 13000],
        },
        StationRecord {
            id: 2,
            name: "Molokai, Hawaii".to_string(),
            lat: 21_184_444,
            lon: -157_186_388,
            frequencies: vec![8010, 17000],
        },
        StationRecord {
            id: 7,
            name: "Shannon, Ireland".to_string(),
            lat: 52_730_000,
            lon: -8_926_388,
            frequencies: vec![5010],
        },
    ];
    let table = SystemTable::new(51, records).unwrap();
    let info = HFDLInfo::new(&table, 250_000, String::new()).unwrap();
    let args = Args {
        verbose: false,
        quiet: false,
        bin: String::new(),
        sys_table: String::new(),
        max_bandwidth: 250_000,
        swarm: false,
        host: String::new(),
        port: 0,
        spdu_timeout: SPDU_TIMEOUT,
        ac_timeout: AC_TIMEOUT,
        end_session_wait: 0,
        timeout: 150,
        chooser: String::new(),
        chooser_args: String::new(),
        additional_args: Vec::new(),
    };
    Config::from_args(&args, info)
}

fn band_5() -> u32 {
    band_id(5000, 5010)
}

fn band_8() -> u32 {
    band_id(8000, 8010)
}

fn station(id: u8, name: Option<&str>) -> Entity {
    Entity {
        id,
        entity_type: "Ground station".to_string(),
        entity_name: name.map(|n| n.to_string()),
    }
}

fn aircraft(id: u8) -> Entity {
    Entity { id, entity_type: "Aircraft".to_string(), entity_name: None }
}

fn freqs(list: &[u32]) -> Vec<Frequency> {
    list.iter().enumerate().map(|(i, f)| Frequency { id: i as u8, freq: *f }).collect()
}

fn frame(freq: u32, spdu: Option<SPDU>, lpdu: Option<LPDU>) -> Frame {
    Frame {
        hfdl: HFDL { t: Time { sec: 1, usec: 2 }, freq, bit_rate: 300, sig_level: -253, spdu, lpdu },
    }
}

fn broadcast(freq: u32, src: u8, status: Vec<(u8, Vec<u32>)>) -> Frame {
    let gs_status = status
        .into_iter()
        .map(|(id, f)| GroundStation { gs: station(id, None), utc_sync: true, freqs: freqs(&f) })
        .collect();
    frame(freq, Some(SPDU { err: false, src: station(src, Some("Source")), gs_status }), None)
}

fn payload() -> HFNPDU {
    HFNPDU {
        err: false,
        pdu_type: PDUType { id: 209, name: "Performance data".to_string() },
        flight_id: None,
        pos: None,
        acars: None,
        freq_data: None,
        version: None,
        systable_partial: None,
        frequency: None,
        request_data: None,
    }
}

fn message(freq: u32, src: Entity, dst: Entity, hfnpdu: Option<HFNPDU>) -> Frame {
    let lpdu = LPDU {
        err: false,
        src,
        dst,
        msg_type: PDUType { id: 13, name: "Unnumbered data".to_string() },
        ac_info: None,
        reason: None,
        assigned_ac_id: None,
        hfnpdu,
    };
    frame(freq, None, Some(lpdu))
}

fn position(freq: u32, flight: &str, lat: i32, lon: i32) -> Frame {
    let mut h = payload();
    h.flight_id = Some(flight.to_string());
    h.pos = Some(Position { lat, lon });
    message(freq, aircraft(40), station(1, Some("San Francisco")), Some(h))
}

fn heard(id: u8, on: &[u32]) -> FrequencyData {
    FrequencyData { gs: station(id, None), listening_on_freqs: Vec::new(), heard_on_freqs: freqs(on) }
}

fn evidence(freq: u32, data: Vec<FrequencyData>) -> Frame {
    let mut h = payload();
    h.freq_data = Some(data);
    message(freq, aircraft(40), aircraft(41), Some(h))
}

#[test]
fn a_new_store_knows_the_stations_and_nothing_else() {
    let config = config();
    let store = SharedState::new(&config);
    let sfo = store.ground_station(1).unwrap();
    assert_eq!(sfo.name, "San Francisco, California");
    assert_eq!(sfo.position, Position { lat: 37_512_777, lon: -122_331_666 });
    assert_eq!(sfo.assigned_bands, vec![band_5(), band_8(), 13000]);
    assert!(sfo.active_bands.is_empty());
    assert_eq!(sfo.last_heard, None);
    assert!(store.ground_station(3).is_none());
    let stat = store.station_stats(7).unwrap();
    assert_eq!(stat.name, "Shannon, Ireland");
    assert_eq!((stat.to_msgs, stat.from_msgs, stat.last_heard), (0, 0, None));
    assert!(stat.to_freqs.is_empty() && stat.from_freqs.is_empty());
    assert!(store.station_stats(0).is_none());
    assert!(store.flights().is_empty());
    assert!(store.frequencies().is_empty());
    assert_eq!(store.frequency_count(8_000_000), None);
    assert_eq!(store.session().band(), 0);
    assert!(store.session().freqs().is_empty());
    assert_eq!(store.spdu_timeout(), SPDU_TIMEOUT);
    assert_eq!(store.ac_timeout(), AC_TIMEOUT);
    assert_eq!(store.freq_to_band(8010), Some(band_8()));
    assert_eq!(store.freq_to_band(8011), None);
    assert_eq!(gs_info_from_config(&config).len(), 3);
    assert_eq!(gs_stats_from_config(&config).len(), 3);
    assert_eq!(store.gs_info.len(), 3);
    assert_eq!(store.gs_stats.len(), 3);
    assert_eq!(store.flight_posrpt.len(), 0);
    assert_eq!(store.freq_stats.len(), 0);
}

#[test]
fn the_tuned_band_is_noted() {
    let config = config();
    let mut store = SharedState::new(&config);
    store.update_current_band(&vec![8010, 8000]);
    assert_eq!(store.session().band(), band_8());
    assert_eq!(store.session().freqs(), &vec![8010, 8000]);
    store.update_current_band(&vec![]);
    assert_eq!(store.session().band(), band_8());
    store.update_current_band(&vec![9999, 8000]);
    assert_eq!(store.session().band(), band_8());
    assert_eq!(store.session().freqs(), &vec![8010, 8000]);
    store.update_current_band(&vec![13000]);
    assert_eq!(store.session().band(), 13000);
}

#[test]
fn a_broadcast_sets_the_active_bands() {
    let config = config();
    let mut store = SharedState::new(&config);
    let f = broadcast(
        8_000_000,
        1,
        vec![(1, vec![8000, 13000, 8010]), (2, vec![17000]), (9, vec![5000]), (7, vec![])],
    );
    assert!(consistent(&config.info.bands, &f));
    assert_eq!(store.update_at(&f, 100), Ok(()));
    let sfo = store.ground_station(1).unwrap();
    assert_eq!(sfo.active_bands, vec![band_8(), 13000, band_8()]);
    assert_eq!(sfo.last_heard, Some(100));
    assert_eq!(sfo.assigned_bands, vec![band_5(), band_8(), 13000]);
    assert_eq!(store.ground_station(2).unwrap().active_bands, vec![17000]);
    let snn = store.ground_station(7).unwrap();
    assert!(snn.active_bands.is_empty());
    assert_eq!(snn.last_heard, Some(100));
    assert!(store.ground_station(9).is_none());
    let stat = store.station_stats(1).unwrap();
    assert_eq!((stat.from_msgs, stat.to_msgs), (1, 0));
    assert_eq!(stat.from_freqs, vec![8_000_000]);
    assert_eq!(stat.last_heard, Some(100));
    assert_eq!(store.station_stats(2).unwrap().from_msgs, 0);
    assert_eq!(store.frequency_count(8_000_000), Some(1));
    assert_eq!(store.frequencies(), vec![8_000_000]);
}

#[test]
fn the_last_entry_for_a_station_counts() {
    let config = config();
    let mut store = SharedState::new(&config);
    let f = broadcast(8_000_000, 2, vec![(1, vec![8000]), (1, vec![13000])]);
    assert_eq!(store.update_at(&f, 100), Ok(()));
    assert_eq!(store.ground_station(1).unwrap().active_bands, vec![13000]);
}

#[test]
fn a_broadcast_with_a_frequency_of_no_band_changes_nothing() {
    let config = config();
    let mut store = SharedState::new(&config);
    let good = broadcast(8_000_000, 1, vec![(1, vec![8000]), (2, vec![17000])]);
    assert_eq!(store.update_at(&good, 100), Ok(()));
    let bad = broadcast(8_010_000, 2, vec![(1, vec![13000]), (2, vec![17000, 9999])]);
    assert!(!consistent(&config.info.bands, &bad));
    assert_eq!(store.update_at(&bad, 200), Err(StateError::UnknownFrequency));
    let sfo = store.ground_station(1).unwrap();
    assert_eq!(sfo.active_bands, vec![band_8()]);
    assert_eq!(sfo.last_heard, Some(100));
    let mkk = store.ground_station(2).unwrap();
    assert_eq!(mkk.active_bands, vec![17000]);
    assert_eq!(mkk.last_heard, Some(100));
    assert_eq!(store.station_stats(2).unwrap().from_msgs, 0);
    assert_eq!(store.station_stats(1).unwrap().from_msgs, 1);
    assert_eq!(store.frequency_count(8_010_000), None);
    assert_eq!(store.frequency_count(8_000_000), Some(1));
    assert!(store.flights().is_empty());
}

#[test]
fn evidence_with_a_frequency_of_no_band_changes_nothing() {
    let config = config();
    let mut store = SharedState::new(&config);
    let mut h = payload();
    h.freq_data = Some(vec![heard(1, &[8000]), heard(2, &[17000, 1])]);
    h.flight_id = Some("AB123".to_string());
    h.pos = Some(Position { lat: 1, lon: 2 });
    let f = message(8_000_000, station(1, Some("San Francisco")), station(2, Some("Molokai")), Some(h));
    assert_eq!(store.update_at(&f, 100), Err(StateError::UnknownFrequency));
    assert!(store.ground_station(1).unwrap().active_bands.is_empty());
    assert_eq!(store.station_stats(1).unwrap().from_msgs, 0);
    assert_eq!(store.station_stats(2).unwrap().to_msgs, 0);
    assert!(store.flights().is_empty());
    assert!(store.frequencies().is_empty());
}

#[test]
fn messages_are_counted_for_named_stations() {
    let config = config();
    let mut store = SharedState::new(&config);
    let f = message(8_000_000, station(1, Some("San Francisco")), station(2, Some("Molokai")), None);
    assert_eq!(store.update_at(&f, 100), Ok(()));
    assert_eq!(store.update_at(&f, 110), Ok(()));
    let g = message(13_000_000, station(2, Some("Molokai")), station(1, None), None);
    assert_eq!(store.update_at(&g, 120), Ok(()));
    let h = message(13_000_000, aircraft(7), station(9, Some("Unknown")), None);
    assert_eq!(store.update_at(&h, 130), Ok(()));
    let sfo = store.station_stats(1).unwrap();
    assert_eq!((sfo.from_msgs, sfo.to_msgs), (2, 0));
    assert_eq!(sfo.from_freqs, vec![8_000_000]);
    assert_eq!(sfo.last_heard, Some(110));
    let mkk = store.station_stats(2).unwrap();
    assert_eq!((mkk.from_msgs, mkk.to_msgs), (1, 2));
    assert_eq!(mkk.to_freqs, vec![8_000_000]);
    assert_eq!(mkk.from_freqs, vec![13_000_000]);
    assert_eq!(mkk.last_heard, Some(120));
    assert_eq!(store.station_stats(7).unwrap().to_msgs, 0);
    assert_eq!(store.frequency_count(8_000_000), Some(2));
    assert_eq!(store.frequency_count(13_000_000), Some(2));
    let mut all = store.frequencies();
    all.sort();
    assert_eq!(all, vec![8_000_000, 13_000_000]);
}

#[test]
fn a_station_that_talks_to_itself_is_counted_twice() {
    let config = config();
    let mut store = SharedState::new(&config);
    let f = message(8_000_000, station(1, Some("a")), station(1, Some("a")), None);
    assert_eq!(store.update_at(&f, 100), Ok(()));
    let sfo = store.station_stats(1).unwrap();
    assert_eq!((sfo.from_msgs, sfo.to_msgs), (1, 1));
}

#[test]
fn evidence_fills_in_where_no_broadcast_is_at_hand() {
    let config = config();
    let mut store = SharedState::new(&config);
    let f = evidence(8_000_000, vec![heard(1, &[8000, 5010]), heard(2, &[]), heard(1, &[13000])]);
    assert_eq!(store.update_at(&f, 100), Ok(()));
    let sfo = store.ground_station(1).unwrap();
    assert_eq!(sfo.active_bands, vec![band_8(), band_5()]);
    assert_eq!(sfo.last_heard, Some(100));
    let mkk = store.ground_station(2).unwrap();
    assert!(mkk.active_bands.is_empty());
    assert_eq!(mkk.last_heard, None);
}

#[test]
fn a_broadcast_outranks_evidence_until_it_is_stale() {
    let config = config();
    let mut store = SharedState::new(&config);
    assert_eq!(store.update_at(&broadcast(8_000_000, 1, vec![(1, vec![13000])]), 1000), Ok(()));
    let f = evidence(8_000_000, vec![heard(1, &[8000])]);
    assert_eq!(store.update_at(&f, 1000 + SPDU_TIMEOUT), Ok(()));
    let sfo = store.ground_station(1).unwrap();
    assert_eq!(sfo.active_bands, vec![13000]);
    assert_eq!(sfo.last_heard, Some(1000));
    assert_eq!(store.update_at(&f, 1001 + SPDU_TIMEOUT), Ok(()));
    let sfo = store.ground_station(1).unwrap();
    assert_eq!(sfo.active_bands, vec![band_8()]);
    assert_eq!(sfo.last_heard, Some(1001 + SPDU_TIMEOUT));
    // A broadcast always counts.
    assert_eq!(store.update_at(&broadcast(8_000_000, 1, vec![(1, vec![5000])]), 2000), Ok(()));
    assert_eq!(store.ground_station(1).unwrap().active_bands, vec![band_5()]);
}

#[test]
fn a_report_with_the_last_position_is_not_stored_again() {
    let config = config();
    let mut store = SharedState::new(&config);
    assert_eq!(store.update_at(&position(8_000_000, "AB123", 10, 20), 100), Ok(()));
    assert_eq!(store.update_at(&position(13_000_000, "AB123", 10, 20), 200), Ok(()));
    let track = store.flight("AB123").unwrap();
    assert_eq!(track.positions.len(), 1);
    assert_eq!(track.positions[0].position, Position { lat: 10, lon: 20 });
    assert_eq!(track.positions[0].freq, 8_000_000);
    assert_eq!(track.last_heard, 200);
    assert_eq!(store.flights(), vec!["AB123"]);
}

#[test]
fn reports_with_other_positions_are_stored_in_their_order() {
    let config = config();
    let mut store = SharedState::new(&config);
    assert_eq!(store.update_at(&position(8_000_000, "AB123", 10, 20), 100), Ok(()));
    assert_eq!(store.update_at(&position(13_000_000, "AB123", 10, 21), 200), Ok(()));
    assert_eq!(store.update_at(&position(13_000_000, "AB123", 10, 20), 300), Ok(()));
    assert_eq!(store.update_at(&position(5_000_000, "CD456", 10, 20), 400), Ok(()));
    let track = store.flight("AB123").unwrap();
    let path: Vec<(i32, i32, u32)> =
        track.positions.iter().map(|p| (p.position.lat, p.position.lon, p.freq)).collect();
    assert_eq!(path, vec![(10, 20, 8_000_000), (10, 21, 13_000_000), (10, 20, 13_000_000)]);
    assert_eq!(track.last_heard, 300);
    assert_eq!(store.flight("CD456").unwrap().positions.len(), 1);
    let mut flights = store.flights();
    flights.sort();
    assert_eq!(flights, vec!["AB123", "CD456"]);
}

#[test]
fn a_position_off_the_globe_is_heard_but_not_stored() {
    let config = config();
    let mut store = SharedState::new(&config);
    assert_eq!(store.update_at(&position(8_000_000, "AB123", 90_000_000, 20), 100), Ok(()));
    assert!(store.flight("AB123").is_none());
    assert_eq!(store.update_at(&position(8_000_000, "AB123", 10, 20), 200), Ok(()));
    assert_eq!(store.update_at(&position(8_000_000, "AB123", 10, -180_000_000), 300), Ok(()));
    let track = store.flight("AB123").unwrap();
    assert_eq!(track.positions.len(), 1);
    assert_eq!(track.last_heard, 300);
    assert!(!Position { lat: -90_000_000, lon: 0 }.is_valid());
    assert!(!Position { lat: 0, lon: 180_000_000 }.is_valid());
    assert!(Position { lat: 89_999_999, lon: -179_999_999 }.is_valid());
}

#[test]
fn a_flight_without_a_name_is_kept_under_a_placeholder() {
    let config = config();
    let mut store = SharedState::new(&config);
    assert_eq!(store.update_at(&position(8_000_000, "", 10, 20), 100), Ok(()));
    assert_eq!(store.flights(), vec!["EMPTY_CALLSIGN"]);
    assert_eq!(store.flight("EMPTY_CALLSIGN").unwrap().positions.len(), 1);
    assert!(store.flight("").is_none());
}

#[test]
fn a_report_needs_a_flight_and_a_position() {
    let config = config();
    let mut store = SharedState::new(&config);
    let mut h = payload();
    h.flight_id = Some("AB123".to_string());
    assert_eq!(store.update_at(&message(8_000_000, aircraft(1), aircraft(2), Some(h)), 100), Ok(()));
    let mut h = payload();
    h.pos = Some(Position { lat: 1, lon: 2 });
    assert_eq!(store.update_at(&message(8_000_000, aircraft(1), aircraft(2), Some(h)), 100), Ok(()));
    assert!(store.flights().is_empty());
}

#[test]
fn a_payload_with_an_acars_message_is_not_looked_at() {
    let config = config();
    let mut store = SharedState::new(&config);
    let mut h = payload();
    h.flight_id = Some("AB123".to_string());
    h.pos = Some(Position { lat: 1, lon: 2 });
    h.freq_data = Some(vec![heard(1, &[8000, 4])]);
    h.acars = Some(ACARS {
        reg: ".N123".to_string(),
        label: "H1".to_string(),
        blk_id: "1".to_string(),
        ack: "!".to_string(),
        flight: None,
        msg_num: None,
        msg_num_seq: None,
    });
    let f = message(8_000_000, aircraft(1), station(2, Some("Molokai")), Some(h));
    assert_eq!(store.update_at(&f, 100), Ok(()));
    assert!(store.flights().is_empty());
    assert!(store.ground_station(1).unwrap().active_bands.is_empty());
    assert_eq!(store.station_stats(2).unwrap().to_msgs, 1);
    assert_eq!(store.frequency_count(8_000_000), Some(1));
}

#[test]
fn a_report_names_the_stations_that_heard_the_aircraft() {
    let config = config();
    let mut store = SharedState::new(&config);
    let mut h = payload();
    h.flight_id = Some("AB123".to_string());
    h.pos = Some(Position { lat: 1, lon: 2 });
    h.freq_data = Some(vec![heard(2, &[17000]), heard(9, &[8000]), heard(7, &[]), heard(1, &[5010, 8010])]);
    let f = message(8_000_000, aircraft(1), aircraft(2), Some(h));
    assert_eq!(store.update_at(&f, 100), Ok(()));
    let track = store.flight("AB123").unwrap();
    let report = &track.positions[0];
    assert_eq!(report.propagation.len(), 2);
    assert_eq!(report.propagation[0].id, 2);
    assert_eq!(report.propagation[0].name, "Molokai, Hawaii");
    assert_eq!(report.propagation[0].location, Position { lat: 21_184_444, lon: -157_186_388 });
    assert_eq!(report.propagation[0].bands, vec![17000]);
    assert_eq!(report.propagation[1].id, 1);
    assert_eq!(report.propagation[1].bands, vec![band_5(), band_8()]);
}

#[test]
fn a_broadcast_comes_before_a_message_in_one_frame() {
    let config = config();
    let mut store = SharedState::new(&config);
    let mut f = position(8_000_000, "AB123", 1, 2);
    f.hfdl.spdu = broadcast(8_000_000, 2, vec![(1, vec![8000])]).hfdl.spdu;
    assert_eq!(store.update_at(&f, 100), Ok(()));
    assert!(store.flights().is_empty());
    assert_eq!(store.ground_station(1).unwrap().active_bands, vec![band_8()]);
    assert_eq!(store.station_stats(1).unwrap().to_msgs, 0);
    assert_eq!(store.station_stats(2).unwrap().from_msgs, 1);
}

#[test]
fn a_frame_without_content_is_counted_on_its_frequency() {
    let config = config();
    let mut store = SharedState::new(&config);
    for _ in 0..3 {
        assert_eq!(store.update_at(&frame(21_000_000, None, None), 100), Ok(()));
    }
    assert_eq!(store.frequency_count(21_000_000), Some(3));
}

#[test]
fn stale_tracks_are_cleaned_up() {
    let config = config();
    let mut store = SharedState::new(&config);
    assert_eq!(store.update_at(&position(8_000_000, "OLD", 1, 2), 1000), Ok(()));
    assert_eq!(store.update_at(&position(8_000_000, "EDGE", 1, 2), 2000), Ok(()));
    assert_eq!(store.update_at(&position(8_000_000, "NEW", 1, 2), 3000), Ok(()));
    store.clean_up_at(2000 + AC_TIMEOUT);
    let mut flights = store.flights();
    flights.sort();
    assert_eq!(flights, vec!["EDGE", "NEW"]);
    store.clean_up_at(2001 + AC_TIMEOUT);
    assert_eq!(store.flights(), vec!["NEW"]);
    // A clock that runs backwards makes nothing stale.
    store.clean_up_at(0);
    assert_eq!(store.flights(), vec!["NEW"]);
    store.clean_up_at(u64::MAX);
    assert!(store.flights().is_empty());
    assert_eq!(store.frequency_count(8_000_000), Some(3));
}

#[test]
fn the_store_reads_the_clock() {
    let config = config();
    let mut store = SharedState::new(&config);
    assert_eq!(store.update(&position(8_000_000, "AB123", 1, 2)), Ok(()));
    assert_eq!(store.update(&broadcast(8_000_000, 1, vec![(1, vec![8000, 9])])), Err(StateError::UnknownFrequency));
    let heard = store.flight("AB123").unwrap().last_heard;
    assert!(heard > 1_577_836_800);
    store.clean_up();
    assert_eq!(store.flights(), vec!["AB123"]);
}

#[test]
fn the_tracker_resolves_its_target() {
    let config = config();
    for (text, ok) in [
        ("target=2", true),
        ("target=+7", true),
        ("target=3", false),
        ("target=0", false),
        ("target=molokai", true),
        ("target=S", true),
        ("target=Hawaii", false),
        ("target=256", false),
    ] {
        let props = Props::parse(text);
        let r = TrackerChooserPlugin::new_at(&config, &props, 50);
        assert_eq!(r.is_ok(), ok, "{}", text);
        if !ok {
            assert_eq!(r.err(), Some(ChooserError::UnknownStation));
        }
    }
    let props = Props::parse("station=2");
    assert_eq!(
        TrackerChooserPlugin::new(&config, &props).err(),
        Some(ChooserError::MissingProperty)
    );
}

#[test]
fn the_tracker_falls_back_to_the_assigned_bands() {
    let config = config();
    let mut store = SharedState::new(&config);
    let props = Props::parse("target=san");
    let mut tracker = TrackerChooserPlugin::new_at(&config, &props, 50).ok().unwrap();
    let assigned = vec![vec![5000, 5010], vec![8000, 8010], vec![13000]];
    let mut last: Option<Vec<u16>> = None;
    let mut seen: Vec<Vec<u16>> = Vec::new();
    for _ in 0..200 {
        let band = tracker.choose_band_at(&store, 100).unwrap();
        assert!(assigned.contains(&band));
        assert_ne!(Some(band.clone()), last);
        if !seen.contains(&band) {
            seen.push(band.clone());
        }
        last = Some(band);
    }
    assert_eq!(seen.len(), 3);
    // Fresh active bands are followed.
    assert_eq!(store.update_at(&broadcast(8_000_000, 1, vec![(1, vec![13000])]), 1000), Ok(()));
    assert_eq!(tracker.choose_band_at(&store, 1000 + SPDU_TIMEOUT), Ok(vec![13000]));
    assert_eq!(tracker.choose_band_at(&store, 1000 + SPDU_TIMEOUT), Ok(vec![13000]));
    // Stale ones are not: the tuned band is left for another assigned one.
    let band = tracker.choose_band_at(&store, 1001 + SPDU_TIMEOUT).unwrap();
    assert!(band == vec![5000, 5010] || band == vec![8000, 8010]);
}

#[test]
fn the_candidates_leave_out_the_tuned_band() {
    let info = GroundStationInfo {
        name: "San Francisco".to_string(),
        position: Position { lat: 0, lon: 0 },
        assigned_bands: vec![1, 2, 3, 2],
        active_bands: vec![7, 8],
        last_heard: Some(1000),
    };
    assert_eq!(tracker_candidates(&info, None, 1900, 900), vec![7, 8]);
    assert_eq!(tracker_candidates(&info, Some(7), 1900, 900), vec![8]);
    assert_eq!(tracker_candidates(&info, Some(2), 1901, 900), vec![1, 3]);
    assert_eq!(tracker_candidates(&info, Some(9), 1901, 900), vec![1, 2, 3, 2]);
    let one = GroundStationInfo { assigned_bands: vec![4, 4], active_bands: vec![], ..info.clone() };
    assert_eq!(tracker_candidates(&one, Some(4), 0, 900), vec![4, 4]);
    let unheard = GroundStationInfo { last_heard: None, ..info.clone() };
    assert_eq!(tracker_candidates(&unheard, None, 5000, 900), vec![7, 8]);
    let none = GroundStationInfo { assigned_bands: vec![], active_bands: vec![], ..info };
    assert!(tracker_candidates(&none, Some(4), 0, 900).is_empty());
}

#[test]
fn the_tracker_settles_on_the_first_band() {
    let config = config();
    let props = Props::parse("target=1");
    let mut tracker = TrackerChooserPlugin::new_at(&config, &props, 50).ok().unwrap();
    assert_eq!(tracker.settle(&vec![]), Err(ChooserError::NoCandidate));
    assert_eq!(tracker.settle(&vec![13000, band_8()]), Ok(vec![13000]));
    assert_eq!(tracker.settle(&vec![13, 13000]), Err(ChooserError::InvalidBand(13)));
}

#[test]
fn the_tracker_loses_a_station_that_is_not_heard() {
    let config = config();
    let store = SharedState::new(&config);
    let props = Props::parse("target=2,last_heard_timeout=60");
    let mut tracker = TrackerChooserPlugin::new_at(&config, &props, 1000).ok().unwrap();
    let other = message(8_000_000, station(1, Some("a")), aircraft(3), None);
    let to = message(8_000_000, aircraft(3), station(2, None), None);
    let from = message(8_000_000, station(2, None), aircraft(3), None);
    let cast = broadcast(8_000_000, 2, vec![]);
    let not_a_station = message(8_000_000, aircraft(2), aircraft(2), None);
    assert!(!tracker.on_recv_frame_at(&other, 1060));
    assert!(tracker.on_recv_frame_at(&other, 1061));
    assert!(tracker.on_recv_frame_at(&not_a_station, 1061));
    assert!(!tracker.on_recv_frame_at(&to, 1061));
    assert!(!tracker.on_recv_frame_at(&other, 1121));
    assert!(tracker.on_recv_frame_at(&other, 1122));
    assert!(!tracker.on_recv_frame_at(&from, 2000));
    assert!(tracker.on_recv_frame_at(&other, 2061));
    assert!(!tracker.on_recv_frame_at(&cast, 3000));
    assert!(!tracker.on_recv_frame_at(&other, 3060));
    assert!(tracker.on_timeout());
    assert!(tracker.choose_band(&store).is_ok());
    assert!(!tracker.on_recv_frame(&to));
}

#[test]
fn the_tracker_waits_a_third_of_the_broadcast_timeout() {
    let config = config();
    let props = Props::parse("target=2");
    let mut tracker = TrackerChooserPlugin::new_at(&config, &props, 1000).ok().unwrap();
    let other = frame(8_000_000, None, None);
    assert!(!tracker.on_recv_frame_at(&other, 1000 + SPDU_TIMEOUT / 3));
    assert!(tracker.on_recv_frame_at(&other, 1001 + SPDU_TIMEOUT / 3));
}

#[test]
fn the_tracker_refuses_a_timeout_that_is_no_number() {
    let config = config();
    for text in [
        "target=2,last_heard_timeout=soon",
        "target=2,last_heard_timeout=",
        "target=2,last_heard_timeout=-1",
        "target=2,last_heard_timeout=18446744073709551616",
    ] {
        let props = Props::parse(text);
        assert_eq!(
            TrackerChooserPlugin::new_at(&config, &props, 1000).err(),
            Some(ChooserError::InvalidNumber)
        );
        assert_eq!(
            TrackerChooserPlugin::new(&config, &props).err(),
            Some(ChooserError::InvalidNumber)
        );
    }
    // The target is looked at first.
    let props = Props::parse("target=3,last_heard_timeout=soon");
    assert_eq!(
        TrackerChooserPlugin::new_at(&config, &props, 1000).err(),
        Some(ChooserError::UnknownStation)
    );
    let props = Props::parse("target=2,last_heard_timeout=0");
    let mut tracker = TrackerChooserPlugin::new_at(&config, &props, 1000).ok().unwrap();
    assert!(!tracker.on_recv_frame_at(&frame(8_000_000, None, None), 1000));
    assert!(tracker.on_recv_frame_at(&frame(8_000_000, None, None), 1001));
}

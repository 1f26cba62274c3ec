use hfdl_autopilot::args::Args;
use hfdl_autopilot::config::{Config, HFDLInfo};
use hfdl_autopilot::hfdl::{
    Entity, Frame, Frequency, FrequencyData, PDUType, Position, Time, HFDL, HFNPDU, LPDU,
};
use hfdl_autopilot::http::{
    api_flights_detail, api_flights_detail_at, api_flights_list, api_flights_list_at,
    api_freq_stats, api_gs_list, api_gs_stats, api_session_list, flight_detail, flight_info,
};
use hfdl_autopilot::state::{PositionReport, PositionReports, PropagationReport, SharedState};
use hfdl_autopilot::utils::systable::{StationRecord, SystemTable};

fn config() -> Config {
    let records = vec![
        StationRecord {
            id: 1,
            name: "San Francisco, California".to_string(),
            lat: 37_512_777,
            lon: -122_331_666,
            frequencies: vec![5000, 8000],
        },
        StationRecord {
            id: 2,
            name: "Molokai, Hawaii".to_string(),
            lat: 21_184_444,
            lon: -157_186_388,
            frequencies: vec![13000],
        },
    ];
    let table = SystemTable::new(51, records).unwrap();
    let info = HFDLInfo::new(&table, 250_000, String::new()).unwrap();
    let args = Args {
        verbose: false,
        quiet: false,
        bin: String::new(),
        sys_table: String::new(),
        max_bandwidth: 250_000,
        swarm: false,
        host: String::new(),
        port: 0,
        spdu_timeout: 900,
        ac_timeout: 1800,
        end_session_wait: 0,
        timeout: 150,
        chooser: String::new(),
        chooser_args: String::new(),
        additional_args: Vec::new(),
    };
    Config::from_args(&args, info)
}

fn report(freq: u32, flight: &str, lat: i32, heard: Vec<(u8, Vec<u32>)>) -> Frame {
    let aircraft = Entity { id: 40, entity_type: "Aircraft".to_string(), entity_name: None };
    let data: Vec<FrequencyData> = heard
        .into_iter()
        .map(|(id, on)| FrequencyData {
            gs: Entity { id, entity_type: "Ground station".to_string(), entity_name: None },
            listening_on_freqs: vec![],
            heard_on_freqs: on.into_iter().map(|f| Frequency { id: 0, freq: f }).collect(),
        })
        .collect();
    let h = HFNPDU {
        err: false,
        pdu_type: PDUType { id: 209, name: "Performance data".to_string() },
        flight_id: Some(flight.to_string()),
        pos: Some(Position { lat, lon: 7 }),
        acars: None,
        freq_data: Some(data),
        version: None,
        systable_partial: None,
        frequency: None,
        request_data: None,
    };
    let lpdu = LPDU {
        err: false,
        src: aircraft.clone(),
        dst: Entity {
            id: 1,
            entity_type: "Ground station".to_string(),
            entity_name: Some("San Francisco".to_string()),
        },
        msg_type: PDUType { id: 13, name: "Unnumbered data".to_string() },
        ac_info: None,
        reason: None,
        assigned_ac_id: None,
        hfnpdu: Some(h),
    };
    Frame {
        hfdl: HFDL {
            t: Time { sec: 0, usec: 0 },
            freq,
            bit_rate: 300,
            sig_level: -250,
            spdu: None,
            lpdu: Some(lpdu),
        },
    }
}

fn filled() -> SharedState {
    let config = config();
    let mut store = SharedState::new(&config);
    store.update_at(&report(8_000_000, "AB123", 1, vec![(2, vec![13000])]), 100).unwrap();
    store.update_at(&report(5_000_000, "AB123", 2, vec![(1, vec![8000, 5000]), (2, vec![13000])]), 200).unwrap();
    store.update_at(&report(13_000_000, "CD456", 3, vec![]), 300).unwrap();
    store.update_current_band(&vec![8000]);
    store
}

#[test]
fn flights_in_short() {
    let store = filled();
    let mut list = api_flights_list_at(&store.flight_posrpt, 1000);
    list.sort_by(|a, b| a.callsign.cmp(&b.callsign));
    assert_eq!(list.len(), 2);
    assert_eq!(list[0].callsign, "AB123");
    assert_eq!(list[0].last_heard_on, Some(5_000_000));
    assert_eq!(list[0].last_seen_secs, 800);
    assert_eq!(list[0].path, vec![Position { lat: 1, lon: 7 }, Position { lat: 2, lon: 7 }]);
    assert_eq!(list[1].callsign, "CD456");
    assert_eq!(list[1].last_heard_on, Some(13_000_000));
    assert_eq!(list[1].last_seen_secs, 700);
    assert_eq!(api_flights_list(&store.flight_posrpt).len(), 2);
    assert!(api_flights_list_at(&SharedState::new(&config()).flight_posrpt, 0).is_empty());
}

#[test]
fn a_flight_in_full() {
    let store = filled();
    let detail = api_flights_detail_at(&store.flight_posrpt, "AB123", 250).unwrap();
    assert_eq!(detail.callsign, "AB123");
    assert_eq!(detail.last_seen_secs, 50);
    assert_eq!(detail.reports.len(), 2);
    assert_eq!(detail.reports[0].location, Position { lat: 1, lon: 7 });
    assert_eq!(detail.reports[0].heard_on, 8_000_000);
    assert_eq!(detail.reports[0].stations.len(), 1);
    let second = &detail.reports[1];
    assert_eq!(second.heard_on, 5_000_000);
    assert_eq!(second.stations.len(), 2);
    assert_eq!(second.stations[0].id, 1);
    assert_eq!(second.stations[0].name, "San Francisco, California");
    assert_eq!(second.stations[0].bands, vec![8000, 5000]);
    assert_eq!(
        second.stations[0].path,
        vec![Position { lat: 2, lon: 7 }, Position { lat: 37_512_777, lon: -122_331_666 }]
    );
    assert_eq!(second.stations[1].id, 2);
    assert_eq!(
        second.stations[1].path,
        vec![Position { lat: 2, lon: 7 }, Position { lat: 21_184_444, lon: -157_186_388 }]
    );
    assert!(api_flights_detail_at(&store.flight_posrpt, "ab123", 250).is_none());
    assert!(api_flights_detail(&store.flight_posrpt, "CD456").is_some());
    assert!(api_flights_detail(&store.flight_posrpt, "").is_none());
}

#[test]
fn a_track_without_reports() {
    let track = PositionReports { last_heard: 500, positions: vec![] };
    let info = flight_info("EMPTY", &track, 400);
    assert_eq!(info.callsign, "EMPTY");
    assert_eq!(info.last_heard_on, None);
    assert_eq!(info.last_seen_secs, 0);
    assert!(info.path.is_empty());
    let detail = flight_detail("EMPTY", &track, 501);
    assert_eq!(detail.last_seen_secs, 1);
    assert!(detail.reports.is_empty());
    let one = PositionReports {
        last_heard: 0,
        positions: vec![PositionReport {
            position: Position { lat: 5, lon: 6 },
            freq: 9,
            propagation: vec![PropagationReport {
                id: 3,
                name: "Reykjavik".to_string(),
                location: Position { lat: 7, lon: 8 },
                bands: vec![1, 2],
            }],
        }],
    };
    let detail = flight_detail("ONE", &one, u64::MAX);
    assert_eq!(detail.last_seen_secs, u64::MAX);
    assert_eq!(detail.reports[0].stations[0].path, vec![Position { lat: 5, lon: 6 }, Position { lat: 7, lon: 8 }]);
    assert_eq!(detail.reports[0].stations[0].bands, vec![1, 2]);
}

#[test]
fn stations_counters_and_session() {
    let store = filled();
    let mut stations = api_gs_list(&store.gs_info);
    stations.sort_by_key(|s| s.0);
    assert_eq!(stations.len(), 2);
    assert_eq!(stations[0].0, 1);
    assert_eq!(stations[0].1.name, "San Francisco, California");
    assert_eq!(stations[0].1.active_bands, vec![8000, 5000]);
    assert_eq!(stations[0].1.last_heard, Some(200));
    assert_eq!(stations[1].1.active_bands, vec![13000]);
    assert_eq!(stations[1].1.last_heard, Some(100));
    let mut stats = api_gs_stats(&store.gs_stats);
    stats.sort_by_key(|s| s.0);
    assert_eq!(stats.len(), 2);
    assert_eq!(stats[0].1.to_msgs, 3);
    assert_eq!(stats[0].1.to_freqs, vec![8_000_000, 5_000_000, 13_000_000]);
    assert_eq!(stats[1].1.to_msgs, 0);
    let mut freqs = api_freq_stats(&store.freq_stats);
    freqs.sort();
    assert_eq!(freqs, vec![(5_000_000, 1), (8_000_000, 1), (13_000_000, 1)]);
    assert_eq!(api_session_list(&store).band(), 8000);
    assert_eq!(api_session_list(&store).freqs(), &vec![8000]);
    let mut ids = store.stations();
    ids.sort();
    assert_eq!(ids, vec![1, 2]);
    let mut ids = store.counted_stations();
    ids.sort();
    assert_eq!(ids, vec![1, 2]);
}

use hfdl_autopilot::args::Args;
use hfdl_autopilot::autopilot::state::{InvalidMaxBandwidth, OpsState};
use hfdl_autopilot::bands::{band_id, EmptyCatalog};
use hfdl_autopilot::config::{assigned_bands, Config, HFDLInfo};
use hfdl_autopilot::hfdl::Position;
use hfdl_autopilot::utils::systable::{
    short_name, GroundStation, StationRecord, SystemTable, SystemTableError,
};

fn record(id: u8, name: &str, frequencies: Vec<u16>) -> StationRecord {
    StationRecord { id, name: name.to_string(), lat: 37_512_777, lon: -122_331_666, frequencies }
}

fn table() -> SystemTable {
    SystemTable::new(
        51,
        vec![
            record(1, "San Francisco, California", vec![21934, 17919, 13276, 11327, 10081, 8927]),
            record(2, "Molokai, Hawaii", vec![21937, 17919, 13312, 13324, 11348, 8936]),
            record(7, "Shannon, Ireland", vec![11384, 10081, 8942, 8843, 6532, 5547, 3455, 2998]),
        ],
    )
    .unwrap()
}

#[test]
fn a_station_needs_sound_values() {
    let ok = GroundStation::new(1, "San Francisco", 37_512_777, -122_331_666, vec![8927]);
    let gs = ok.unwrap();
    assert_eq!(gs.id, 1);
    assert_eq!(gs.name, "San Francisco");
    assert_eq!(gs.short, "SFO");
    assert_eq!(gs.position, Position { lat: 37_512_777, lon: -122_331_666 });
    assert_eq!(gs.frequencies, vec![8927]);

    assert!(GroundStation::new(0, "San Francisco", 0, 0, vec![8927]).is_none());
    assert!(GroundStation::new(1, "", 0, 0, vec![8927]).is_none());
    assert!(GroundStation::new(1, "San Francisco", 90_000_000, 0, vec![8927]).is_none());
    assert!(GroundStation::new(1, "San Francisco", -90_000_000, 0, vec![8927]).is_none());
    assert!(GroundStation::new(1, "San Francisco", 0, 180_000_000, vec![8927]).is_none());
    assert!(GroundStation::new(1, "San Francisco", 0, -180_000_000, vec![8927]).is_none());
    assert!(GroundStation::new(1, "San Francisco", 0, 0, vec![]).is_none());
    assert!(GroundStation::new(1, "San Francisco", 0, 0, vec![8927, 0]).is_none());
    assert!(GroundStation::new(1, "San Francisco", 89_999_999, 179_999_999, vec![8927]).is_some());
    assert!(GroundStation::new(1, "San Francisco", -89_999_999, -179_999_999, vec![1]).is_some());
}

#[test]
fn short_names() {
    assert_eq!(short_name(1), "SFO");
    assert_eq!(short_name(7), "SNN");
    assert_eq!(short_name(17), "LPA");
    assert_eq!(short_name(12), "???");
    assert_eq!(short_name(0), "???");
    assert_eq!(short_name(255), "???");
    let all: Vec<&str> = (1..=17).map(short_name).collect();
    assert_eq!(
        all,
        vec![
            "SFO", "MKK", "RKV", "FOK", "AKL", "HDY", "SNN", "JNB", "BRW", "MWX", "PTY", "???",
            "VVI", "KJA", "BAH", "GUM", "LPA"
        ]
    );
}

#[test]
fn an_old_table_is_refused() {
    let r = SystemTable::new(50, vec![record(1, "San Francisco", vec![8927])]);
    assert_eq!(r.err(), Some(SystemTableError::VersionTooOld));
    let r = SystemTable::new(0, vec![record(0, "", vec![])]);
    assert_eq!(r.err(), Some(SystemTableError::VersionTooOld));
}

#[test]
fn the_first_malformed_station_is_reported() {
    let r = SystemTable::new(
        51,
        vec![
            record(1, "San Francisco", vec![8927]),
            record(0, "Nowhere", vec![8927]),
            record(3, "", vec![8927]),
        ],
    );
    assert_eq!(r.err(), Some(SystemTableError::MalformedStation(1)));
}

#[test]
fn a_table_is_looked_up_by_id_and_by_name() {
    let t = table();
    assert_eq!(t.get_version(), 51);
    assert_eq!(t.stations().len(), 3);
    assert_eq!(t.by_id(2).unwrap().name, "Molokai, Hawaii");
    assert_eq!(t.by_id(7).unwrap().short, "SNN");
    assert!(t.by_id(3).is_none());
    assert_eq!(t.by_name("shannon, ireland").unwrap().id, 7);
    assert!(t.by_name("Shannon").is_none());
    let empty = SystemTable::new(200, vec![]).unwrap();
    assert!(empty.by_id(1).is_none());
    assert!(empty.bands(512_000).is_err());
}

#[test]
fn a_table_gives_its_bands() {
    let t = table();
    let catalog = t.bands(512_000).unwrap();
    assert_eq!(catalog.get(band_id(8843, 8942)), Some(&vec![8843, 8927, 8936, 8942]));
    assert_eq!(catalog.get(band_id(13276, 13324)), Some(&vec![13276, 13312, 13324]));
    assert_eq!(catalog.get(band_id(2998, 3455)), Some(&vec![2998, 3455]));
}

#[test]
fn the_static_picture_assigns_bands_to_stations() {
    let t = table();
    let info = HFDLInfo::new(&t, 512_000, "raw text".to_string()).unwrap();
    assert_eq!(info.raw, "raw text");
    assert_eq!(info.stations.len(), 3);
    assert_eq!(info.stations[1].id, 2);
    assert_eq!(info.stations[1].name, "Molokai, Hawaii");
    assert_eq!(
        info.stations[1].assigned,
        vec![
            band_id(21934, 21937),
            17919,
            band_id(13276, 13324),
            band_id(11327, 11384),
            band_id(8843, 8942)
        ]
    );
    assert_eq!(
        assigned_bands(&info.bands, &vec![8927, 8936, 1, 13312, 8942]),
        vec![band_id(8843, 8942), band_id(13276, 13324)]
    );
    assert_eq!(HFDLInfo::new(&t, 0, String::new()).err(), Some(EmptyCatalog));
}

#[test]
fn the_configuration_takes_over_the_arguments() {
    let args = Args {
        verbose: true,
        quiet: false,
        bin: "/usr/bin/dumphfdl".to_string(),
        sys_table: "/etc/systable.conf".to_string(),
        max_bandwidth: 512_000,
        swarm: true,
        host: "0.0.0.0".to_string(),
        port: 7271,
        spdu_timeout: 901,
        ac_timeout: 1801,
        end_session_wait: 3,
        timeout: 151,
        chooser: "single:band=13".to_string(),
        chooser_args: String::new(),
        additional_args: vec!["--soapysdr".to_string(), "driver=sdrplay".to_string()],
    };
    let info = HFDLInfo::new(&table(), 512_000, String::new()).unwrap();
    let config = Config::from_args(&args, info);
    assert_eq!(config.bin, "/usr/bin/dumphfdl");
    assert_eq!(config.timeout, 151);
    assert_eq!(config.spdu_timeout, 901);
    assert_eq!(config.ac_timeout, 1801);
    assert_eq!(config.end_session_wait, 3);
    assert_eq!(config.additional_args, vec!["--soapysdr", "driver=sdrplay"]);
    assert!(config.swarm);
    assert_eq!(config.host, "0.0.0.0");
    assert_eq!(config.port, 7271);
    assert_eq!(config.max_bad_child_reads, 1);
    assert_eq!(config.info.stations.len(), 3);
}

#[test]
fn the_supervisors_state_follows_the_bandwidth() {
    let mut state = OpsState::init(table(), 512_000, vec![250_000, 500_000]).unwrap();
    assert_eq!(state.max_bandwidth(), 512_000);
    assert_eq!(state.sampling_rates(), &vec![250_000, 500_000]);
    assert_eq!(state.systable().get_version(), 51);
    assert!(state.bands().contains_key(band_id(8843, 8942)));
    assert!(state.set_max_bandwidth(20_000));
    assert_eq!(state.max_bandwidth(), 20_000);
    assert!(!state.bands().contains_key(band_id(8843, 8942)));
    assert!(state.bands().contains_key(band_id(8927, 8942)));
    assert!(!state.set_max_bandwidth(0));
    assert_eq!(state.max_bandwidth(), 20_000);
    assert!(state.bands().contains_key(band_id(8927, 8942)));
    assert_eq!(
        OpsState::init(table(), 0, vec![]).err(),
        Some(InvalidMaxBandwidth(0))
    );
}

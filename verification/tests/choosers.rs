use hfdl_autopilot::args::{Args, Props};
use hfdl_autopilot::bands::band_id;
use hfdl_autopilot::chooser::rotate::RotateChooserPlugin;
use hfdl_autopilot::chooser::schedule::{insert_trigger, trigger_of, ScheduleChooserPlugin};
use hfdl_autopilot::chooser::single::SingleChooserPlugin;
use hfdl_autopilot::chooser::{get, get_at, Chooser, ChooserError, ChooserPlugin};
use hfdl_autopilot::clock::ClockReading;
use hfdl_autopilot::config::{Config, HFDLInfo};
use hfdl_autopilot::hfdl::{Frame, Time, HFDL};
use hfdl_autopilot::state::SharedState;
use hfdl_autopilot::utils::systable::{StationRecord, SystemTable};

const A: u32 = 5000;
const B: u32 = 8000;
const C: u32 = 13000;

fn config_with(frequencies: Vec<Vec<u16>>) -> Config {
    let records: Vec<StationRecord> = frequencies
        .into_iter()
        .enumerate()
        .map(|(i, f)| StationRecord {
            id: (i + 1) as u8,
            name: format!("Station {}", i + 1),
            lat: 1_000_000,
            lon: 2_000_000,
            frequencies: f,
        })
        .collect();
    let table = SystemTable::new(51, records).unwrap();
    let info = HFDLInfo::new(&table, 250_000, String::new()).unwrap();
    let args = Args {
        verbose: false,
        quiet: false,
        bin: String::new(),
        sys_table: String::new(),
        max_bandwidth: 250_000,
        swarm: false,
        host: String::new(),
        port: 0,
        spdu_timeout: 900,
        ac_timeout: 1800,
        end_session_wait: 0,
        timeout: 150,
        chooser: String::new(),
        chooser_args: String::new(),
        additional_args: Vec::new(),
    };
    Config::from_args(&args, info)
}

fn three_bands() -> Config {
    config_with(vec![vec![5000, 8000, 13000]])
}

fn at(hour: u8, minute: u8) -> ClockReading {
    ClockReading { secs: 1_700_000_000, hour, minute }
}

fn empty_frame() -> Frame {
    Frame {
        hfdl: HFDL {
            t: Time { sec: 0, usec: 0 },
            freq: 8_000_000,
            bit_rate: 300,
            sig_level: -250,
            spdu: None,
            lpdu: None,
        },
    }
}

#[test]
fn single_always_chooses_its_band() {
    let config = three_bands();
    let store = SharedState::new(&config);
    let props = Props::parse("band=8000");
    let mut chooser = SingleChooserPlugin::new(&config.info.bands, &props);
    for _ in 0..5 {
        assert_eq!(chooser.choose_band(&store), Ok(vec![8000]));
        assert!(!chooser.on_recv_frame(&empty_frame()));
        assert!(!chooser.on_timeout());
    }
}

#[test]
fn single_needs_a_band_of_the_catalog() {
    let config = three_bands();
    let store = SharedState::new(&config);
    let props = Props::parse("band=13");
    let mut chooser = SingleChooserPlugin::new(&config.info.bands, &props);
    assert_eq!(chooser.choose_band(&store), Err(ChooserError::InvalidBand(13)));
    let props = Props::parse("start=8000");
    let mut chooser = SingleChooserPlugin::new(&config.info.bands, &props);
    assert_eq!(chooser.choose_band(&store), Err(ChooserError::MissingProperty));
    let props = Props::parse("band=eight");
    let mut chooser = SingleChooserPlugin::new(&config.info.bands, &props);
    assert_eq!(chooser.choose_band(&store), Err(ChooserError::InvalidNumber));
    let props = Props::parse("band=4294967296");
    let mut chooser = SingleChooserPlugin::new(&config.info.bands, &props);
    assert_eq!(chooser.choose_band(&store), Err(ChooserError::InvalidNumber));
}

#[test]
fn rotate_goes_up_round_the_bands() {
    let config = three_bands();
    let props = Props::parse("type=inc,start=5000");
    let mut chooser = RotateChooserPlugin::new_at(&config.info.bands, &props, &at(12, 0)).ok().unwrap();
    let mut seen = Vec::new();
    for i in 0..7 {
        seen.push(chooser.choose_band_from(&at(12, 0), i).unwrap());
    }
    assert_eq!(
        seen,
        vec![
            vec![5000],
            vec![8000],
            vec![13000],
            vec![5000],
            vec![8000],
            vec![13000],
            vec![5000]
        ]
    );
}

#[test]
fn rotate_goes_down_round_the_bands() {
    let config = three_bands();
    let props = Props::parse("type=dec,start=8000");
    let mut chooser = RotateChooserPlugin::new_at(&config.info.bands, &props, &at(12, 0)).ok().unwrap();
    let mut seen = Vec::new();
    for i in 0..5 {
        seen.push(chooser.choose_band_from(&at(12, 0), i).unwrap());
    }
    assert_eq!(seen, vec![vec![8000], vec![5000], vec![13000], vec![8000], vec![5000]]);
}

#[test]
fn rotate_starts_on_the_first_band_where_no_start_is_given() {
    let config = three_bands();
    for text in ["", "type=unknown", "ignore_last=3", "prefer=nonsense"] {
        let props = Props::parse(text);
        let mut chooser =
            RotateChooserPlugin::new_at(&config.info.bands, &props, &at(12, 0)).ok().unwrap();
        assert_eq!(chooser.choose_band_from(&at(12, 0), 0), Ok(vec![5000]));
        assert_eq!(chooser.choose_band_from(&at(12, 0), 0), Ok(vec![8000]));
    }
}

#[test]
fn rotate_starts_on_the_preferred_band_where_no_start_is_given() {
    let config = three_bands();
    let props = Props::parse("prefer=06:00@13000/18:00@8000");
    let mut chooser =
        RotateChooserPlugin::new_at(&config.info.bands, &props, &at(19, 0)).ok().unwrap();
    assert_eq!(chooser.choose_band_from(&at(19, 0), 0), Ok(vec![8000]));
    let props = Props::parse("prefer=06:00@13000/18:00@8000,start=5000");
    let mut chooser =
        RotateChooserPlugin::new_at(&config.info.bands, &props, &at(19, 0)).ok().unwrap();
    assert_eq!(chooser.choose_band_from(&at(19, 0), 0), Ok(vec![5000]));
}

#[test]
fn rotate_refuses_a_property_that_is_no_number() {
    let config = three_bands();
    for text in [
        "start=x",
        "start=",
        "start=-5000",
        "start=4294967296",
        "ignore_last=many",
        "ignore_last=-1",
        "start=5000,ignore_last=",
        "start=13,ignore_last=x",
        "ignore_last=99999999999999999999999",
    ] {
        let props = Props::parse(text);
        assert_eq!(
            RotateChooserPlugin::new_at(&config.info.bands, &props, &at(12, 0)).err(),
            Some(ChooserError::InvalidNumber),
            "{}",
            text
        );
        assert_eq!(
            RotateChooserPlugin::new(&config.info.bands, &props).err(),
            Some(ChooserError::InvalidNumber)
        );
    }
}

#[test]
fn rotate_refuses_a_start_that_the_catalog_does_not_have() {
    let config = three_bands();
    for (text, band) in [("start=13", 13), ("start=0", 0), ("start=5001,type=dec", 5001), ("start=+8001", 8001)] {
        let props = Props::parse(text);
        assert_eq!(
            RotateChooserPlugin::new_at(&config.info.bands, &props, &at(12, 0)).err(),
            Some(ChooserError::InvalidBand(band))
        );
    }
    let props = Props::parse("start=13");
    assert_eq!(get("rotate", &config, &props).err(), Some(ChooserError::InvalidBand(13)));
    let props = Props::parse("start=+0013000,ignore_last=0");
    assert!(RotateChooserPlugin::new(&config.info.bands, &props).is_ok());
}

#[test]
fn rotate_by_chance_draws_among_the_bands_not_chosen_lately() {
    let config = config_with(vec![vec![1000, 2000, 3000, 4000, 5000]]);
    let props = Props::parse("type=random,ignore_last=2,start=3000");
    let mut chooser = RotateChooserPlugin::new_at(&config.info.bands, &props, &at(12, 0)).ok().unwrap();
    assert_eq!(chooser.choose_band_from(&at(12, 0), 9), Ok(vec![3000]));
    // Left out: 3000. To draw from: 1000, 2000, 4000, 5000; the draw 6 counts round to place 2.
    assert_eq!(chooser.choose_band_from(&at(12, 0), 6), Ok(vec![4000]));
    // Left out: 3000, 4000. To draw from: 1000, 2000, 5000.
    assert_eq!(chooser.choose_band_from(&at(12, 0), 2), Ok(vec![5000]));
    // Left out: 4000, 5000. To draw from: 1000, 2000, 3000.
    assert_eq!(chooser.choose_band_from(&at(12, 0), 2), Ok(vec![3000]));
    assert_eq!(chooser.choose_band_from(&at(12, 0), 0), Ok(vec![1000]));
}

#[test]
fn rotate_by_chance_does_not_repeat_a_band_within_its_window() {
    let config = config_with(vec![vec![1000, 2000, 3000, 4000, 5000]]);
    let store = SharedState::new(&config);
    let props = Props::parse("type=random,ignore_last=2");
    let mut chooser = RotateChooserPlugin::new(&config.info.bands, &props).ok().unwrap();
    let mut seen: Vec<Vec<u16>> = Vec::new();
    for _ in 0..100 {
        let band = chooser.choose_band(&store).unwrap();
        let n = seen.len();
        if n >= 1 {
            assert_ne!(seen[n - 1], band);
        }
        if n >= 2 {
            assert_ne!(seen[n - 2], band);
        }
        seen.push(band);
    }
    let mut distinct = seen.clone();
    distinct.sort();
    distinct.dedup();
    assert_eq!(distinct.len(), 5);
}

#[test]
fn rotate_by_chance_makes_do_with_few_bands() {
    let config = config_with(vec![vec![1000, 2000]]);
    let props = Props::parse("type=random,ignore_last=8,start=1000");
    let mut chooser = RotateChooserPlugin::new_at(&config.info.bands, &props, &at(12, 0)).ok().unwrap();
    let mut seen = Vec::new();
    for i in 0..6 {
        seen.push(chooser.choose_band_from(&at(12, 0), i).unwrap());
    }
    assert_eq!(
        seen,
        vec![vec![1000], vec![2000], vec![1000], vec![2000], vec![1000], vec![2000]]
    );
    let config = config_with(vec![vec![1000]]);
    let store = SharedState::new(&config);
    let mut chooser = RotateChooserPlugin::new(&config.info.bands, &props).ok().unwrap();
    for _ in 0..4 {
        assert_eq!(chooser.choose_band(&store), Ok(vec![1000]));
    }
}

#[test]
fn rotate_without_a_window_may_repeat() {
    let config = config_with(vec![vec![1000, 2000]]);
    let props = Props::parse("type=random,ignore_last=0,start=2000");
    let mut chooser = RotateChooserPlugin::new_at(&config.info.bands, &props, &at(12, 0)).ok().unwrap();
    assert_eq!(chooser.choose_band_from(&at(12, 0), 0), Ok(vec![2000]));
    assert_eq!(chooser.choose_band_from(&at(12, 0), 1), Ok(vec![2000]));
    assert_eq!(chooser.choose_band_from(&at(12, 0), 2), Ok(vec![1000]));
}

#[test]
fn rotate_follows_its_preferred_bands() {
    let config = three_bands();
    let props = Props::parse("type=inc,prefer=06:00@13000/18:00@5000/bad/25:00@8000/07:00@1");
    let mut chooser = RotateChooserPlugin::new_at(&config.info.bands, &props, &at(7, 0)).ok().unwrap();
    // Made at 07:00, the chooser prefers 13000 and starts there.
    assert!(!chooser.determine_preferred_band_change_at(&at(7, 30)));
    assert_eq!(chooser.choose_band_from(&at(7, 30), 0), Ok(vec![13000]));
    assert_eq!(chooser.choose_band_from(&at(8, 0), 0), Ok(vec![5000]));
    assert_eq!(chooser.choose_band_from(&at(9, 0), 0), Ok(vec![8000]));
    // At 18:00 it prefers 5000: a frame brings the change about.
    assert!(chooser.determine_preferred_band_change_at(&at(18, 0)));
    assert!(!chooser.determine_preferred_band_change_at(&at(18, 1)));
    assert_eq!(chooser.choose_band_from(&at(18, 1), 0), Ok(vec![5000]));
    assert_eq!(chooser.choose_band_from(&at(18, 2), 0), Ok(vec![8000]));
    // Before 06:00 the last trigger of the day holds on.
    assert!(!chooser.determine_preferred_band_change_at(&at(2, 0)));
    // At 06:00 the choice itself looks at the schedule first.
    assert_eq!(chooser.choose_band_from(&at(6, 0), 0), Ok(vec![13000]));
    assert!(chooser.on_timeout_at(&at(6, 1)));
}

#[test]
fn rotate_asks_for_a_change_on_every_timeout() {
    let config = three_bands();
    let store = SharedState::new(&config);
    let props = Props::parse("type=inc");
    let mut chooser = RotateChooserPlugin::new(&config.info.bands, &props).ok().unwrap();
    assert_eq!(chooser.choose_band(&store), Ok(vec![5000]));
    assert!(chooser.on_timeout());
    assert!(!chooser.on_recv_frame(&empty_frame()));
    assert_eq!(chooser.choose_band(&store), Ok(vec![8000]));
}

#[test]
fn schedule_selects_by_the_time_of_day() {
    let config = three_bands();
    let props = Props::parse("18:00=8000,06:00=5000");
    let mut chooser = ScheduleChooserPlugin::new(&config.info.bands, &props).ok().unwrap();
    assert_eq!(chooser.choose_band_at(&at(7, 0)), Ok(vec![5000]));
    assert_eq!(chooser.choose_band_at(&at(19, 0)), Ok(vec![8000]));
    assert_eq!(chooser.choose_band_at(&at(2, 0)), Ok(vec![8000]));
}

#[test]
fn schedule_asks_for_a_change_when_the_selection_changes() {
    let config = three_bands();
    let props = Props::parse("06:00=5000,18:00=8000");
    let mut chooser = ScheduleChooserPlugin::new(&config.info.bands, &props).ok().unwrap();
    let frame = empty_frame();
    assert!(chooser.on_recv_frame_at(&frame, &at(7, 0)));
    assert_eq!(chooser.choose_band_at(&at(7, 0)), Ok(vec![5000]));
    assert!(!chooser.on_recv_frame_at(&frame, &at(7, 1)));
    assert!(!chooser.on_recv_frame_at(&frame, &at(17, 59)));
    assert!(chooser.on_recv_frame_at(&frame, &at(18, 0)));
    assert!(chooser.on_recv_frame_at(&frame, &at(2, 0)));
    assert_eq!(chooser.choose_band_at(&at(18, 0)), Ok(vec![8000]));
    assert!(!chooser.on_recv_frame_at(&frame, &at(2, 0)));
    assert!(!chooser.on_timeout());
}

#[test]
fn schedule_reads_the_clock() {
    let config = three_bands();
    let store = SharedState::new(&config);
    let props = Props::parse("00:00=13000");
    let mut chooser = ScheduleChooserPlugin::new(&config.info.bands, &props).ok().unwrap();
    assert!(chooser.on_recv_frame(&empty_frame()));
    assert_eq!(chooser.choose_band(&store), Ok(vec![13000]));
    assert!(!chooser.on_recv_frame(&empty_frame()));
}

#[test]
fn schedule_takes_the_first_trigger_for_a_time() {
    let config = three_bands();
    let props = Props::parse("12:00=5000,12:0=8000,+12:00=13000,11:00=13000");
    let mut chooser = ScheduleChooserPlugin::new(&config.info.bands, &props).ok().unwrap();
    assert_eq!(chooser.choose_band_at(&at(12, 0)), Ok(vec![5000]));
    assert_eq!(chooser.choose_band_at(&at(11, 30)), Ok(vec![13000]));
}

#[test]
fn schedule_needs_a_valid_trigger() {
    let config = three_bands();
    for text in ["", "band=5000", "24:00=5000", "12:60=5000", "12:00=13", "12=5000", "1:2:3=5000", "a:b=5000"] {
        let props = Props::parse(text);
        assert_eq!(
            ScheduleChooserPlugin::new(&config.info.bands, &props).err(),
            Some(ChooserError::NoValidTriggers)
        );
    }
}

#[test]
fn triggers_are_kept_sorted() {
    let config = three_bands();
    assert_eq!(trigger_of(&config.info.bands, "06:30", "8000"), Some((6, 30, 8000)));
    assert_eq!(trigger_of(&config.info.bands, "06:30", "8001"), None);
    assert_eq!(trigger_of(&config.info.bands, "0630", "8000"), None);
    let mut triggers = Vec::new();
    for t in [(12, 0, A), (6, 30, B), (12, 0, C), (6, 5, C), (23, 59, A), (0, 0, B)] {
        insert_trigger(&mut triggers, t);
    }
    assert_eq!(triggers, vec![(0, 0, B), (6, 5, C), (6, 30, B), (12, 0, A), (23, 59, A)]);
}

#[test]
fn the_registry_knows_four_choosers() {
    let config = three_bands();
    let store = SharedState::new(&config);
    let props = Props::parse("band=8000,06:00=5000,target=1");
    let clock = at(12, 0);
    assert!(matches!(get_at("single", &config, &props, &clock), Ok(Chooser::Single(_))));
    assert!(matches!(get_at("rotate", &config, &props, &clock), Ok(Chooser::Rotate(_))));
    assert!(matches!(get_at("schedule", &config, &props, &clock), Ok(Chooser::Schedule(_))));
    assert!(matches!(get_at("tracker", &config, &props, &clock), Ok(Chooser::Tracker(_))));
    assert_eq!(get_at("Single", &config, &props, &clock).err(), Some(ChooserError::UnknownPlugin));
    assert_eq!(get("", &config, &props).err(), Some(ChooserError::UnknownPlugin));
    let none = Props::new();
    assert_eq!(get("schedule", &config, &none).err(), Some(ChooserError::NoValidTriggers));
    assert_eq!(get("tracker", &config, &none).err(), Some(ChooserError::MissingProperty));

    let mut single = get("single", &config, &props).ok().unwrap();
    assert_eq!(single.choose_band(&store), Ok(vec![8000]));
    assert!(!single.on_recv_frame(&empty_frame()));
    assert!(!single.on_timeout());
    let mut schedule = get_at("schedule", &config, &props, &clock).ok().unwrap();
    assert_eq!(schedule.choose_band_at(&store, &clock), Ok(vec![5000]));
    assert!(!schedule.on_recv_frame_at(&empty_frame(), &clock));
    assert!(!schedule.on_timeout_at(&clock));
    let mut rotate = get_at("rotate", &config, &props, &clock).ok().unwrap();
    assert_eq!(rotate.choose_band_at(&store, &clock), Ok(vec![5000]));
    assert_eq!(rotate.choose_band_at(&store, &clock), Ok(vec![8000]));
    assert!(rotate.on_timeout_at(&clock));
    assert!(!rotate.on_recv_frame_at(&empty_frame(), &clock));
    let mut tracker = get_at("tracker", &config, &props, &clock).ok().unwrap();
    assert!(tracker.on_timeout_at(&clock));
    assert!(tracker.choose_band_at(&store, &clock).is_ok());
    assert_eq!(band_id(5000, 5000), A);
}

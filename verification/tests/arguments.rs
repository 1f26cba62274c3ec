use hfdl_autopilot::args::{Args, ArgsError, Props};
use hfdl_autopilot::utils::airframes::{
    add_airframes_feeder_args, FeederError, AIRFRAMESIO_DUMPHFDL_OUTPUT,
};

fn args(chooser: &str, chooser_args: &str, additional: &[&str]) -> Args {
    Args {
        verbose: false,
        quiet: false,
        bin: "/usr/bin/dumphfdl".to_string(),
        sys_table: "/etc/systable.conf".to_string(),
        max_bandwidth: 512_000,
        swarm: false,
        host: "127.0.0.1".to_string(),
        port: 7270,
        spdu_timeout: 900,
        ac_timeout: 1800,
        end_session_wait: 0,
        timeout: 150,
        chooser: chooser.to_string(),
        chooser_args: chooser_args.to_string(),
        additional_args: additional.iter().map(|s| s.to_string()).collect(),
    }
}

fn pairs(props: &Props) -> Vec<(String, String)> {
    (0..props.len())
        .map(|i| (props.entry(i).key.clone(), props.entry(i).value.clone()))
        .collect()
}

fn owned(list: &[(&str, &str)]) -> Vec<(String, String)> {
    list.iter().map(|(k, v)| (k.to_string(), v.to_string())).collect()
}

fn strings(list: &[&str]) -> Vec<String> {
    list.iter().map(|s| s.to_string()).collect()
}

#[test]
fn chooser_params_splits_name_and_properties() {
    let (name, props) = args("single:band=13", "", &[]).chooser_params();
    assert_eq!(name, "single");
    assert_eq!(pairs(&props), owned(&[("band", "13")]));

    let (name, props) = args("rotate:type=random,ignore_last=2,start=5000", "", &[]).chooser_params();
    assert_eq!(name, "rotate");
    assert_eq!(
        pairs(&props),
        owned(&[("type", "random"), ("ignore_last", "2"), ("start", "5000")])
    );
}

#[test]
fn chooser_params_without_properties() {
    let (name, props) = args("tracker", "", &[]).chooser_params();
    assert_eq!(name, "tracker");
    assert_eq!(props.len(), 0);

    let (name, props) = args("tracker:", "", &[]).chooser_params();
    assert_eq!(name, "tracker");
    assert_eq!(pairs(&props), owned(&[("", "")]));
}

#[test]
fn chooser_params_keeps_colons_and_equal_signs_of_values() {
    let (name, props) = args("schedule:06:00=100,18:00=200,flag,a=b=c", "", &[]).chooser_params();
    assert_eq!(name, "schedule");
    assert_eq!(
        pairs(&props),
        owned(&[("06:00", "100"), ("18:00", "200"), ("flag", ""), ("a", "b=c")])
    );
}

#[test]
fn a_later_value_replaces_an_earlier_one() {
    let props = Props::parse("a=1,b=2,a=3");
    assert_eq!(pairs(&props), owned(&[("a", "3"), ("b", "2")]));
    assert_eq!(props.get("a"), Some("3"));
    assert_eq!(props.get("b"), Some("2"));
    assert_eq!(props.get("c"), None);
    assert!(props.contains_key("a"));
    assert!(!props.contains_key("A"));
}

#[test]
fn props_insert_and_get() {
    let mut props = Props::new();
    assert_eq!(props.len(), 0);
    assert_eq!(props.get("band"), None);
    props.insert("band".to_string(), "13".to_string());
    props.insert("type".to_string(), "inc".to_string());
    props.insert("band".to_string(), "21".to_string());
    assert_eq!(pairs(&props), owned(&[("band", "21"), ("type", "inc")]));
}

#[test]
fn chooser_config_reads_the_chooser_args() {
    let (name, props) = args("rotate", "type=dec,start=8000", &[]).chooser_config();
    assert_eq!(name, "rotate");
    assert_eq!(pairs(&props), owned(&[("type", "dec"), ("start", "8000")]));
    let (_, props) = args("rotate", "", &[]).chooser_config();
    assert_eq!(pairs(&props), owned(&[("", "")]));
}

#[test]
fn sample_rates_of_a_named_radio() {
    let a = args("single", "", &["--station-id", "X", "--SoapySDR", "driver=sdrplay,serial=1"]);
    assert_eq!(a.soapysdr_sample_rates(), Ok(vec![250_000, 500_000, 5_000_000, 6_000_000]));
    let a = args("single", "", &["--soapysdr", "serial=1,driver=airspyhf", "--soapysdr", "x"]);
    assert_eq!(a.soapysdr_sample_rates(), Ok(vec![250_000, 500_000, 5_000_000, 6_000_000]));
}

#[test]
fn sample_rates_need_the_radio() {
    let a = args("single", "", &["--station-id", "X"]);
    assert_eq!(a.soapysdr_sample_rates(), Err(ArgsError::MissingSoapySdr));
    let a = args("single", "", &[]);
    assert_eq!(a.soapysdr_sample_rates(), Err(ArgsError::MissingSoapySdr));
}

#[test]
fn sample_rates_need_the_radios_options() {
    let a = args("single", "", &["--station-id", "X", "--soapysdr"]);
    assert_eq!(a.soapysdr_sample_rates(), Err(ArgsError::MissingSoapySdrValue));
}

#[test]
fn sample_rates_need_a_driver() {
    let a = args("single", "", &["--soapysdr", "serial=1,Driver=sdrplay"]);
    assert_eq!(a.soapysdr_sample_rates(), Err(ArgsError::MissingDriver));
    let a = args("single", "", &["--soapysdr", "", "--soapysdr", "driver=x"]);
    assert_eq!(a.soapysdr_sample_rates(), Err(ArgsError::MissingDriver));
}

#[test]
fn feeding_adds_the_output() {
    let given = strings(&["--soapysdr", "driver=sdrplay", "--Station-Id", "AA-KEWR-HFDL"]);
    let mut wanted = given.clone();
    wanted.push("--output".to_string());
    wanted.push(AIRFRAMESIO_DUMPHFDL_OUTPUT.to_string());
    assert_eq!(add_airframes_feeder_args(&given), Ok(wanted));
}

#[test]
fn feeding_keeps_an_output_that_is_given() {
    let given = strings(&[
        "--soapysdr",
        "driver=sdrplay",
        "--station-id",
        "AA-KEWR-HFDL",
        "--OUTPUT",
        "DECODED:json:tcp:address=feed.acars.io,port=5556",
    ]);
    assert_eq!(add_airframes_feeder_args(&given), Ok(given.clone()));
}

#[test]
fn feeding_needs_four_arguments() {
    let given = strings(&["--station-id", "AA-KEWR-HFDL", "--soapysdr"]);
    assert_eq!(add_airframes_feeder_args(&given), Err(FeederError::TooFewArguments));
    assert_eq!(add_airframes_feeder_args(&Vec::new()), Err(FeederError::TooFewArguments));
}

#[test]
fn feeding_needs_a_station() {
    let given = strings(&["--soapysdr", "driver=sdrplay", "--station", "AA-KEWR-HFDL"]);
    assert_eq!(add_airframes_feeder_args(&given), Err(FeederError::MissingStationId));
}

#[test]
fn feeding_refuses_a_misplaced_output() {
    let given = strings(&[
        AIRFRAMESIO_DUMPHFDL_OUTPUT,
        "--soapysdr",
        "driver=sdrplay",
        "--station-id",
        "AA-KEWR-HFDL",
    ]);
    assert_eq!(add_airframes_feeder_args(&given), Err(FeederError::MisplacedOutput));
    let given = strings(&[
        "--soapysdr",
        "driver=sdrplay",
        "--station-id",
        "AA-KEWR-HFDL",
        AIRFRAMESIO_DUMPHFDL_OUTPUT,
        "--output",
        AIRFRAMESIO_DUMPHFDL_OUTPUT,
    ]);
    assert_eq!(add_airframes_feeder_args(&given), Err(FeederError::MisplacedOutput));
}

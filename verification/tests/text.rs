use hfdl_autopilot::clock::{elapsed, read_clock, reading_of, ClockReading};
use hfdl_autopilot::text::{
    chars_of, eq_ignore_ascii_case, find_from, parse_u32, parse_u64, parse_u8,
    parse_unsigned_chars, position_ignore_case, split, starts_with, starts_with_ignore_ascii_case,
    str_eq,
};

#[test]
fn numbers_are_read_as_the_standard_library_reads_them() {
    let texts = [
        "", "0", "7", "007", "+7", "+", "-", "-7", "+-7", "++7", "255", "256", "0255", "4294967295",
        "4294967296", "18446744073709551615", "18446744073709551616", "99999999999999999999999",
        " 7", "7 ", "7a", "a7", "٣", "1_000", "0x10", "1e3", "12.5",
    ];
    for t in texts {
        assert_eq!(parse_u8(t), t.parse::<u8>().ok());
        assert_eq!(parse_u32(t), t.parse::<u32>().ok());
        assert_eq!(parse_u64(t), t.parse::<u64>().ok());
    }
}

#[test]
fn numbers_have_their_decimal_value() {
    assert_eq!(parse_u8("255"), Some(255));
    assert_eq!(parse_u32("13"), Some(13));
    assert_eq!(parse_u32("+0013"), Some(13));
    assert_eq!(parse_u64("18446744073709551615"), Some(u64::MAX));
    assert_eq!(parse_unsigned_chars(&vec!['4', '2'], 42), Some(42));
    assert_eq!(parse_unsigned_chars(&vec!['4', '3'], 42), None);
    assert_eq!(parse_unsigned_chars(&vec!['0'], 0), Some(0));
    assert_eq!(parse_unsigned_chars(&vec!['1'], 0), None);
}

#[test]
fn split_cuts_at_every_separator() {
    assert_eq!(split("a,b,c", ','), vec!["a", "b", "c"]);
    assert_eq!(split("", ','), vec![""]);
    assert_eq!(split(",", ','), vec!["", ""]);
    assert_eq!(split("a,", ','), vec!["a", ""]);
    assert_eq!(split(",a", ','), vec!["", "a"]);
    assert_eq!(split("06:00", ':'), vec!["06", "00"]);
    assert_eq!(split("no separator", ':'), vec!["no separator"]);
    assert_eq!(split("ä/ö/ü", '/'), vec!["ä", "ö", "ü"]);
    for t in ["", "a", ",", ",,", "a,b", "a,,b,", ",a,b,,"] {
        let std: Vec<String> = t.split(',').map(|p| p.to_string()).collect();
        assert_eq!(split(t, ','), std);
    }
}

#[test]
fn chars_and_find() {
    assert_eq!(chars_of("aä€"), vec!['a', 'ä', '€']);
    assert_eq!(chars_of(""), Vec::<char>::new());
    let chars = chars_of("a=b=c");
    assert_eq!(find_from(&chars, 0, '='), 1);
    assert_eq!(find_from(&chars, 2, '='), 3);
    assert_eq!(find_from(&chars, 4, '='), 5);
    assert_eq!(find_from(&chars, 5, '='), 5);
}

#[test]
fn comparison_without_regard_to_ascii_case() {
    assert!(eq_ignore_ascii_case("--Station-ID", "--station-id"));
    assert!(eq_ignore_ascii_case("", ""));
    assert!(!eq_ignore_ascii_case("a", "ab"));
    assert!(!eq_ignore_ascii_case("a", "b"));
    assert!(!eq_ignore_ascii_case("Ä", "ä"));
    assert!(eq_ignore_ascii_case("äZ", "äz"));
    assert!(!eq_ignore_ascii_case("@", "`"));
    assert!(!eq_ignore_ascii_case("[", "{"));
    for (a, b) in [("Az", "aZ"), ("@", "`"), ("A", "a"), ("Z", "z"), ("[", "{"), ("é", "É")] {
        assert_eq!(eq_ignore_ascii_case(a, b), a.eq_ignore_ascii_case(b));
    }
}

#[test]
fn prefixes() {
    assert!(starts_with("driver=sdrplay", "driver="));
    assert!(starts_with("driver=", "driver="));
    assert!(starts_with("driver=", ""));
    assert!(!starts_with("drive", "driver="));
    assert!(!starts_with("Driver=x", "driver="));
    assert!(starts_with_ignore_ascii_case("San Francisco, California", "san fran"));
    assert!(starts_with_ignore_ascii_case("San Francisco", ""));
    assert!(!starts_with_ignore_ascii_case("San", "San Francisco"));
    assert!(!starts_with_ignore_ascii_case("Shannon", "San"));
}

#[test]
fn equal_strings() {
    assert!(str_eq("random", "random"));
    assert!(str_eq("", ""));
    assert!(!str_eq("random", "Random"));
    assert!(!str_eq("random", "rando"));
}

#[test]
fn position_of_an_argument() {
    let args: Vec<String> = ["--a", "--B", "--b"].iter().map(|s| s.to_string()).collect();
    assert_eq!(position_ignore_case(&args, "--b"), Some(1));
    assert_eq!(position_ignore_case(&args, "--A"), Some(0));
    assert_eq!(position_ignore_case(&args, "--c"), None);
    assert_eq!(position_ignore_case(&Vec::new(), "--c"), None);
}

#[test]
fn elapsed_never_runs_backwards() {
    assert_eq!(elapsed(10, 4), 6);
    assert_eq!(elapsed(4, 4), 0);
    assert_eq!(elapsed(4, 10), 0);
    assert_eq!(elapsed(u64::MAX, 0), u64::MAX);
}

#[test]
fn the_clock_shows_a_time_of_day() {
    let clock = read_clock();
    assert!(clock.hour < 24);
    assert!(clock.minute < 60);
    // The first of January 2020.
    assert!(clock.secs > 1_577_836_800);
    let later = read_clock();
    assert!(elapsed(later.secs, clock.secs) < 60);
}

#[test]
fn a_reading_is_made_from_what_the_clock_shows() {
    assert_eq!(
        reading_of(1_700_000_000, 7, 30),
        ClockReading { secs: 1_700_000_000, hour: 7, minute: 30 }
    );
    assert_eq!(reading_of(0, 0, 0), ClockReading { secs: 0, hour: 0, minute: 0 });
    assert_eq!(reading_of(-1, 23, 59), ClockReading { secs: 0, hour: 23, minute: 59 });
    assert_eq!(reading_of(i64::MIN, 12, 0), ClockReading { secs: 0, hour: 12, minute: 0 });
    assert_eq!(
        reading_of(i64::MAX, 12, 0),
        ClockReading { secs: i64::MAX as u64, hour: 12, minute: 0 }
    );
}

use hfdl_autopilot::hfdl::Position;
use hfdl_autopilot::text::{
    count_char, decimal, digits_value, first_piece, pad_left, remove_char,
};
use hfdl_autopilot::utils::systable::{
    khz_list, parse_degrees, parse_khz, SystemTable, SystemTableError,
};

const TABLE: &str = "# HFDL system table\r\n\
version = 51;\r\n\
stations = (\r\n\
  {\r\n\
    id = 1;\r\n\
    name : \"San Francisco, California\"\r\n\
    lat = 38.384459;\r\n\
    lon = -121.759232;\r\n\
    frequencies = ( 21934.0, 17919.0, 13276, 8927.0 );\r\n\
  },\n\
  { id=7; name:\"Shannon - Ireland\" lat=52.73; lon=-8.926388; frequencies=(11384,10081.0,8942); }\n\
);\n";

#[test]
fn a_table_is_read_from_text() {
    let table = SystemTable::load(TABLE).unwrap();
    assert_eq!(table.get_version(), 51);
    assert_eq!(table.stations().len(), 2);
    let sfo = table.by_id(1).unwrap();
    assert_eq!(sfo.name, "San Francisco, California");
    assert_eq!(sfo.short, "SFO");
    assert_eq!(sfo.position, Position { lat: 38_384_459, lon: -121_759_232 });
    assert_eq!(sfo.frequencies, vec![21934, 17919, 13276, 8927]);
    let snn = table.by_name("shannon - ireland").unwrap();
    assert_eq!(snn.id, 7);
    assert_eq!(snn.position, Position { lat: 52_730_000, lon: -8_926_388 });
    assert_eq!(snn.frequencies, vec![11384, 10081, 8942]);
}

#[test]
fn a_text_that_is_no_table_is_refused() {
    assert_eq!(SystemTable::load("").err(), Some(SystemTableError::Malformed));
    assert_eq!(SystemTable::load("version = 51;").err(), Some(SystemTableError::Malformed));
    assert_eq!(
        SystemTable::load("version = x; stations = ( { } );").err(),
        Some(SystemTableError::Malformed)
    );
    assert_eq!(
        SystemTable::load("stations = ( { } ); version = 51;").err(),
        Some(SystemTableError::Malformed)
    );
}

#[test]
fn an_old_table_is_refused_when_read() {
    let old = TABLE.replace("version = 51", "version = 50");
    assert_eq!(SystemTable::load(&old).err(), Some(SystemTableError::VersionTooOld));
    let huge = TABLE.replace("version = 51", "version = 256");
    assert_eq!(SystemTable::load(&huge).err(), Some(SystemTableError::VersionTooOld));
    let new = TABLE.replace("version = 51", "version = 255");
    assert_eq!(SystemTable::load(&new).unwrap().get_version(), 255);
}

#[test]
fn a_malformed_station_is_refused_when_read() {
    let zero = TABLE.replace("id=7", "id=0");
    assert_eq!(SystemTable::load(&zero).err(), Some(SystemTableError::MalformedStation(1)));
    let pole = TABLE.replace("lat = 38.384459", "lat = 90");
    assert_eq!(SystemTable::load(&pole).err(), Some(SystemTableError::MalformedStation(0)));
    let dangling = TABLE.replace("8942);", "8942, );");
    assert_eq!(SystemTable::load(&dangling).err(), Some(SystemTableError::MalformedStation(1)));
    let tab = TABLE.replace("13276, 8927.0", "13276,\t8927.0");
    assert_eq!(SystemTable::load(&tab).err(), Some(SystemTableError::MalformedStation(0)));
}

#[test]
fn a_record_that_reads_as_no_station_is_refused() {
    let text = "version=51; stations=( { id=1; name=\"with equal sign\"; } );";
    assert_eq!(SystemTable::load(text).err(), Some(SystemTableError::UnmatchedStation));
    let one_of_two = TABLE.replace("id=7;", "id=seven;");
    assert_eq!(SystemTable::load(&one_of_two).err(), Some(SystemTableError::UnmatchedStation));
    let old = text.replace("version=51", "version=50");
    assert_eq!(SystemTable::load(&old).err(), Some(SystemTableError::VersionTooOld));
}

#[test]
fn a_list_without_records_gives_a_table_without_stations() {
    let table = SystemTable::load("version=51; stations=( none );").unwrap();
    assert_eq!(table.stations().len(), 0);
}

#[test]
fn occurrences_are_counted() {
    assert_eq!(count_char("", '{'), 0);
    assert_eq!(count_char("{", '{'), 1);
    assert_eq!(count_char("a{b{{c}", '{'), 3);
    assert_eq!(count_char("no bracket", '{'), 0);
}

#[test]
fn a_table_is_made_from_what_was_captured() {
    let groups = |list: [&str; 5]| -> Vec<String> { list.iter().map(|s| s.to_string()).collect() };
    let stations = vec![
        groups(["1", "A", "1.5", "-2.25", "8927.0, 8912"]),
        groups(["2", "B", "0", "0", "10000"]),
    ];
    let table = SystemTable::from_captures("51", &stations).unwrap();
    assert_eq!(table.stations()[0].position, Position { lat: 1_500_000, lon: -2_250_000 });
    assert_eq!(table.stations()[0].frequencies, vec![8927, 8912]);
    assert_eq!(table.stations()[1].short, "MKK");
    assert_eq!(
        SystemTable::from_captures("50", &stations).err(),
        Some(SystemTableError::VersionTooOld)
    );
    assert_eq!(
        SystemTable::from_captures("", &stations).err(),
        Some(SystemTableError::VersionTooOld)
    );
    let short = vec![vec!["1".to_string(), "A".to_string()]];
    assert_eq!(
        SystemTable::from_captures("51", &short).err(),
        Some(SystemTableError::MalformedStation(0))
    );
    let unreadable = vec![groups(["1", "A", "north", "0", "8927"])];
    assert_eq!(
        SystemTable::from_captures("51", &unreadable).err(),
        Some(SystemTableError::MalformedStation(0))
    );
    assert_eq!(SystemTable::from_captures("51", &Vec::new()).unwrap().stations().len(), 0);
}

#[test]
fn degrees_are_read_in_millionths() {
    assert_eq!(parse_degrees("38.384459"), Some(38_384_459));
    assert_eq!(parse_degrees("-121.759232"), Some(-121_759_232));
    assert_eq!(parse_degrees("52.73"), Some(52_730_000));
    assert_eq!(parse_degrees("0"), Some(0));
    assert_eq!(parse_degrees("-0"), Some(0));
    assert_eq!(parse_degrees("7.000001"), Some(7_000_001));
    assert_eq!(parse_degrees("007.5"), Some(7_500_000));
    assert_eq!(parse_degrees("999.999999"), Some(999_999_999));
    assert_eq!(parse_degrees("-999.999999"), Some(-999_999_999));
    for text in ["", "-", ".", ".5", "5.", "1000", "1.0000001", "+5", "--5", "5.-1", "1.2.3", "1e2", " 5", "5,5"] {
        assert_eq!(parse_degrees(text), None, "{}", text);
    }
}

#[test]
fn frequencies_are_read_in_khz() {
    assert_eq!(parse_khz("8927"), 8927);
    assert_eq!(parse_khz("8927.0"), 8927);
    assert_eq!(parse_khz("8927."), 8927);
    assert_eq!(parse_khz("8927.000"), 8927);
    assert_eq!(parse_khz("65535"), 65535);
    assert_eq!(parse_khz("65536"), 65535);
    assert_eq!(parse_khz("99999.0"), 65535);
    assert_eq!(parse_khz("999999999"), 65535);
    assert_eq!(parse_khz("0008927"), 8927);
    for text in ["", ".", ".0", "8927.5", "8927.01", "-8927", "+8927", "8927 ", "89a7", "1000000000", "8927.0.0"] {
        assert_eq!(parse_khz(text), 0, "{}", text);
    }
    assert_eq!(khz_list("21934.0, 17919.0,13276 , 8927"), vec![21934, 17919, 13276, 8927]);
    assert_eq!(khz_list("8927,"), vec![8927, 0]);
    assert_eq!(khz_list(""), vec![0]);
    assert_eq!(khz_list("89 27"), vec![8927]);
}

#[test]
fn text_helpers() {
    assert_eq!(remove_char("a b  c ", ' '), "abc");
    assert_eq!(remove_char("", ' '), "");
    assert_eq!(remove_char("\r\na\r\nb\n", '\n'), "\ra\rb");
    assert_eq!(decimal(0), "0");
    assert_eq!(decimal(9), "9");
    assert_eq!(decimal(10), "10");
    assert_eq!(decimal(8977), "8977");
    assert_eq!(decimal(u64::MAX), "18446744073709551615");
    assert_eq!(pad_left("N123", 7), "   N123");
    assert_eq!(pad_left("N123456", 7), "N123456");
    assert_eq!(pad_left("N1234567", 7), "N1234567");
    assert_eq!(pad_left("", 3), "   ");
    assert_eq!(pad_left("äö", 4), "  äö");
    assert_eq!(first_piece("San Francisco, California", ','), "San Francisco");
    assert_eq!(first_piece("Shannon", ','), "Shannon");
    assert_eq!(first_piece(",x", ','), "");
    let chars: Vec<char> = "12a456".chars().collect();
    assert_eq!(digits_value(&chars, 0, 2), Some(12));
    assert_eq!(digits_value(&chars, 0, 3), None);
    assert_eq!(digits_value(&chars, 3, 6), Some(456));
    assert_eq!(digits_value(&chars, 3, 3), Some(0));
}

//! The system table: the static list of ground stations and their
//! frequencies.
//!
//! Coordinates are whole millionths of a degree, frequencies whole kHz.

use crate::bands::{EmptyCatalog, FrequencyBandMap};
use crate::hfdl::{Position, LAT_LIMIT, LON_LIMIT};
use crate::pattern::{
    captures, captures_iter, spec_captures, spec_captures_iter, spec_matches_views,
};
use crate::text::{
    chars_of, count_char, digits_value, eq_ignore_ascii_case, find_from, lemma_pow10_grows,
    parse_u8, remove_char, spec_all_digits, spec_count, spec_decimal_value, spec_eq_ignore_case,
    spec_first_index, spec_parse_unsigned, spec_pow10, spec_remove, spec_split, spec_views, split,
};
use vstd::prelude::*;

verus! {

/// The oldest system table version that is accepted.
pub const MIN_VERSION: u8 = 51;

/// A ground station of the system table.
#[derive(Debug, Clone)]
pub struct GroundStation {
    pub id: u8,
    pub name: String,
    pub short: String,
    pub position: Position,
    pub frequencies: Vec<u16>,
}

/// The system table: a version and the stations it lists.
#[derive(Debug, Clone)]
pub struct SystemTable {
    version: u8,
    stations: Vec<GroundStation>,
}

/// What a system table looks like: a version, and the list of stations in
/// round brackets.
pub const SYSTABLE_FMT: &'static str =
    "\\s*version\\s*=\\s*([0-9]+)\\s*;\\s*stations\\s*=\\s*\\((.+)\\)\\s*;";

/// What a station of a system table looks like: in curly brackets its
/// identifier, name, latitude, longitude and frequencies.
pub const STATIONS_FMT: &'static str =
    "\\{\\s*id\\s*=\\s*([0-9]+)\\s*;\\s*name\\s*:\\s*\"([\\w\\s,-]+?)\"\\s*lat\\s*=\\s*(-{0,1}[0-9]{1,2}(?:\\.[0-9]{1,6}){0,1})\\s*;\\s*lon\\s*=\\s*(-{0,1}[0-9]{1,3}(?:\\.[0-9]{1,6}){0,1})\\s*;\\s*frequencies\\s*=\\s*\\(\\s*((?:[0-9]{4,5}(?:\\.0){0,1}\\s*,{0,1}\\s*)+)\\)\\s*;\\s*\\}";

/// A hundred and eighty degrees, in millionths of a degree: what a
/// coordinate that cannot be read counts as.
pub const UNREADABLE_DEGREES: i32 = 180_000_000;

/// Why a system table was not accepted.
#[derive(Debug, Clone, Copy, PartialEq, Eq, Structural)]
pub enum SystemTableError {
    /// The text is no system table.
    Malformed,
    /// The version is older than `MIN_VERSION`.
    VersionTooOld,
    /// The station record at this place in the list is malformed.
    MalformedStation(usize),
    /// The list of stations holds a record that does not read as a station.
    UnmatchedStation,
}

/// One station as the table's text gives it, before it is checked.
#[derive(Debug, Clone)]
pub struct StationRecord {
    pub id: u8,
    pub name: String,
    pub lat: i32,
    pub lon: i32,
    pub frequencies: Vec<u16>,
}

/// The three-letter code of the station `id`; `???` for a station that has
/// none.
pub open spec fn spec_short_name(id: u8) -> Seq<char> {
    if id == 1 {
        "SFO"@
    } else if id == 2 {
        "MKK"@
    } else if id == 3 {
        "RKV"@
    } else if id == 4 {
        "FOK"@
    } else if id == 5 {
        "AKL"@
    } else if id == 6 {
        "HDY"@
    } else if id == 7 {
        "SNN"@
    } else if id == 8 {
        "JNB"@
    } else if id == 9 {
        "BRW"@
    } else if id == 10 {
        "MWX"@
    } else if id == 11 {
        "PTY"@
    } else if id == 13 {
        "VVI"@
    } else if id == 14 {
        "KJA"@
    } else if id == 15 {
        "BAH"@
    } else if id == 16 {
        "GUM"@
    } else if id == 17 {
        "LPA"@
    } else {
        "???"@
    }
}

/// The three-letter code of the station `id`.
pub fn short_name(id: u8) -> (r: &'static str)
    ensures
        r@ == spec_short_name(id),
{
    match id {
        1 => "SFO",
        2 => "MKK",
        3 => "RKV",
        4 => "FOK",
        5 => "AKL",
        6 => "HDY",
        7 => "SNN",
        8 => "JNB",
        9 => "BRW",
        10 => "MWX",
        11 => "PTY",
        13 => "VVI",
        14 => "KJA",
        15 => "BAH",
        16 => "GUM",
        17 => "LPA",
        _ => "???",
    }
}

/// Whether a station with these values is well formed: an identifier other
/// than 0, a name, a latitude strictly between -90 and 90 degrees, a
/// longitude strictly between -180 and 180 degrees, and at least one
/// frequency, none of them 0.
pub open spec fn spec_valid_station(
    id: u8,
    name: Seq<char>,
    lat: i32,
    lon: i32,
    frequencies: Seq<u16>,
) -> bool {
    &&& id != 0
    &&& name.len() > 0
    &&& -LAT_LIMIT < lat < LAT_LIMIT
    &&& -LON_LIMIT < lon < LON_LIMIT
    &&& frequencies.len() > 0
    &&& forall|i: int| 0 <= i < frequencies.len() ==> frequencies[i] != 0
}

impl GroundStation {
    /// The station with these values, if they are well formed.
    pub fn new(id: u8, name: &str, lat: i32, lon: i32, frequencies: Vec<u16>) -> (r: Option<
        GroundStation,
    >)
        ensures
            r.is_some() == spec_valid_station(id, name@, lat, lon, frequencies@),
            r matches Some(gs) ==> {
                &&& gs.id == id
                &&& gs.name@ == name@
                &&& gs.short@ == spec_short_name(id)
                &&& gs.position == (Position { lat, lon })
                &&& gs.frequencies@ == frequencies@
            },
    {
        if id == 0 {
            return None;
        }
        if name.is_empty() {
            return None;
        }
        if lat >= LAT_LIMIT || lat <= -LAT_LIMIT {
            return None;
        }
        if lon >= LON_LIMIT || lon <= -LON_LIMIT {
            return None;
        }
        if frequencies.is_empty() {
            return None;
        }
        let mut i: usize = 0;
        while i < frequencies.len()
            invariant
                i <= frequencies.len(),
                forall|j: int| 0 <= j < i ==> frequencies[j] != 0,
            decreases frequencies.len() - i,
        {
            if frequencies[i] == 0 {
                return None;
            }
            i += 1;
        }
        Some(
            GroundStation {
                id,
                name: name.to_owned(),
                short: short_name(id).to_owned(),
                position: Position { lat, lon },
                frequencies,
            },
        )
    }

    /// Whether the station is as `new` makes one.
    pub open spec fn wf(&self) -> bool {
        spec_valid_station(
            self.id,
            self.name@,
            self.position.lat,
            self.position.lon,
            self.frequencies@,
        )
    }
}

impl SystemTable {
    /// The table's version.
    pub closed spec fn spec_version(&self) -> u8 {
        self.version
    }

    /// The table's stations, in the order of the table.
    pub closed spec fn spec_stations(&self) -> Seq<GroundStation> {
        self.stations@
    }

    /// The table of the stations `records`, each checked as
    /// `GroundStation::new` checks it. A version below `MIN_VERSION` is
    /// refused before any record is looked at; else the first malformed
    /// record is reported.
    pub fn new(version: u8, records: Vec<StationRecord>) -> (r: Result<
        SystemTable,
        SystemTableError,
    >)
        ensures
            match r {
                Ok(table) => {
                    &&& version >= MIN_VERSION
                    &&& table.spec_version() == version
                    &&& table.spec_stations().len() == records.len()
                    &&& forall|i: int|
                        0 <= i < records.len() ==> {
                            &&& spec_record_valid(#[trigger] records[i])
                            &&& spec_station_of(table.spec_stations()[i], records[i])
                        }
                },
                Err(SystemTableError::Malformed) => false,
                Err(SystemTableError::UnmatchedStation) => false,
                Err(SystemTableError::VersionTooOld) => version < MIN_VERSION,
                Err(SystemTableError::MalformedStation(k)) => {
                    &&& version >= MIN_VERSION
                    &&& k < records.len()
                    &&& !spec_record_valid(records[k as int])
                    &&& forall|i: int| 0 <= i < k ==> spec_record_valid(#[trigger] records[i])
                },
            },
    {
        if version < MIN_VERSION {
            return Err(SystemTableError::VersionTooOld);
        }
        let mut stations: Vec<GroundStation> = Vec::new();
        let mut i: usize = 0;
        while i < records.len()
            invariant
                version >= MIN_VERSION,
                i <= records.len(),
                stations.len() == i,
                forall|j: int|
                    0 <= j < i ==> {
                        &&& spec_record_valid(#[trigger] records[j])
                        &&& spec_station_of(stations[j], records[j])
                    },
            decreases records.len() - i,
        {
            let rec = &records[i];
            let freqs = rec.frequencies.clone();
            assert(freqs@ =~= rec.frequencies@);
            match GroundStation::new(rec.id, rec.name.as_str(), rec.lat, rec.lon, freqs) {
                Some(gs) => {
                    stations.push(gs);
                },
                None => {
                    return Err(SystemTableError::MalformedStation(i));
                },
            }
            i += 1;
        }
        Ok(SystemTable { version, stations })
    }

    /// The table's version.
    pub fn get_version(&self) -> (v: u8)
        ensures
            v == self.spec_version(),
    {
        self.version
    }

    /// The table's stations.
    pub fn stations(&self) -> (r: &Vec<GroundStation>)
        ensures
            r@ == self.spec_stations(),
    {
        &self.stations
    }

    /// The first station of the table with the identifier `id`.
    pub fn by_id(&self, id: u8) -> (r: Option<&GroundStation>)
        ensures
            match r {
                Some(gs) => exists|i: int|
                    {
                        &&& 0 <= i < self.spec_stations().len()
                        &&& #[trigger] self.spec_stations()[i] == *gs
                        &&& gs.id == id
                        &&& forall|j: int| 0 <= j < i ==> self.spec_stations()[j].id != id
                    },
                None => forall|j: int|
                    0 <= j < self.spec_stations().len() ==> self.spec_stations()[j].id != id,
            },
    {
        let mut i: usize = 0;
        while i < self.stations.len()
            invariant
                i <= self.stations.len(),
                forall|j: int| 0 <= j < i ==> self.stations[j].id != id,
            decreases self.stations.len() - i,
        {
            if self.stations[i].id == id {
                assert(self.spec_stations()[i as int] == self.stations[i as int]);
                return Some(&self.stations[i]);
            }
            i += 1;
        }
        None
    }

    /// The first station of the table whose name is `name`, ASCII letters
    /// compared without regard to case.
    pub fn by_name(&self, name: &str) -> (r: Option<&GroundStation>)
        ensures
            match r {
                Some(gs) => exists|i: int|
                    {
                        &&& 0 <= i < self.spec_stations().len()
                        &&& #[trigger] self.spec_stations()[i] == *gs
                        &&& spec_eq_ignore_case(gs.name@, name@)
                        &&& forall|j: int|
                            0 <= j < i ==> !spec_eq_ignore_case(
                                (#[trigger] self.spec_stations()[j]).name@,
                                name@,
                            )
                    },
                None => forall|j: int|
                    0 <= j < self.spec_stations().len() ==> !spec_eq_ignore_case(
                        (#[trigger] self.spec_stations()[j]).name@,
                        name@,
                    ),
            },
    {
        let mut i: usize = 0;
        while i < self.stations.len()
            invariant
                i <= self.stations.len(),
                forall|j: int|
                    0 <= j < i ==> !spec_eq_ignore_case((#[trigger] self.stations[j]).name@, name@),
            decreases self.stations.len() - i,
        {
            if eq_ignore_ascii_case(self.stations[i].name.as_str(), name) {
                assert(self.spec_stations()[i as int] == self.stations[i as int]);
                return Some(&self.stations[i]);
            }
            i += 1;
        }
        None
    }

    /// The band catalog of the table's frequencies for a maximum bandwidth
    /// of `max_bandwidth` Hz.
    pub fn bands(&self, max_bandwidth: u32) -> (r: Result<FrequencyBandMap, EmptyCatalog>)
        ensures
            r.is_ok() == crate::bands::spec_can_build(self.spec_stations(), max_bandwidth),
            r matches Ok(catalog) ==> catalog.wf() && catalog.spec_groups(
                self.spec_stations(),
                max_bandwidth,
            ),
    {
        FrequencyBandMap::build(&self.stations, max_bandwidth)
    }
}

/// Whether the record `r` is well formed.
pub open spec fn spec_record_valid(r: StationRecord) -> bool {
    spec_valid_station(r.id, r.name@, r.lat, r.lon, r.frequencies@)
}

/// Whether the station `gs` holds what the record `r` gives.
pub open spec fn spec_station_of(gs: GroundStation, r: StationRecord) -> bool {
    &&& gs.id == r.id
    &&& gs.name@ == r.name@
    &&& gs.short@ == spec_short_name(r.id)
    &&& gs.position == (Position { lat: r.lat, lon: r.lon })
    &&& gs.frequencies@ == r.frequencies@
}


/// The number that `text` writes; 0 where it writes none up to 255.
pub open spec fn spec_small_number(text: Seq<char>) -> u8 {
    match spec_parse_unsigned(text, 255) {
        Some(v) => v as u8,
        None => 0,
    }
}

/// Where the whole number of `text` ends: at its first point, or at its
/// end.
pub open spec fn spec_point(text: Seq<char>) -> int {
    spec_first_index(text, '.')
}

/// `text` without one leading minus sign.
pub open spec fn spec_magnitude(text: Seq<char>) -> Seq<char> {
    if text.len() > 0 && text[0] == '-' {
        text.skip(1)
    } else {
        text
    }
}

/// The millionths of a degree that `text` writes: an optional minus sign,
/// one to three digits, and optionally a point and one to six digits more.
/// `None` for any other text.
pub open spec fn spec_parse_degrees(text: Seq<char>) -> Option<int> {
    let body = spec_magnitude(text);
    let k = spec_point(body);
    let whole = body.take(k);
    let parts = if k < body.len() {
        body.skip(k + 1)
    } else {
        Seq::empty()
    };
    if 1 <= whole.len() <= 3 && spec_all_digits(whole) && (k == body.len() || (1 <= parts.len() <= 6
        && spec_all_digits(parts))) {
        let value = spec_decimal_value(whole) * 1_000_000 + spec_decimal_value(parts) * spec_pow10(
            (6 - parts.len()) as nat,
        );
        Some(
            if body.len() < text.len() {
                -value
            } else {
                value
            },
        )
    } else {
        None
    }
}

/// The coordinate that `text` writes, and `UNREADABLE_DEGREES` where it
/// writes none.
pub open spec fn spec_degrees(text: Seq<char>) -> i32 {
    match spec_parse_degrees(text) {
        Some(v) => v as i32,
        None => UNREADABLE_DEGREES,
    }
}

/// Whether every character of `s` is a zero.
pub open spec fn spec_all_zeros(s: Seq<char>) -> bool {
    forall|i: int| 0 <= i < s.len() ==> s[i] == '0'
}

/// The frequency in kHz that `text` writes: one to nine digits, and
/// optionally a point and zeros; at most 65535. 0 for any other text.
pub open spec fn spec_parse_khz(text: Seq<char>) -> u16 {
    let k = spec_point(text);
    let whole = text.take(k);
    let parts = if k < text.len() {
        text.skip(k + 1)
    } else {
        Seq::empty()
    };
    if 1 <= whole.len() <= 9 && spec_all_digits(whole) && spec_all_zeros(parts) {
        if spec_decimal_value(whole) > 65535 {
            65535
        } else {
            spec_decimal_value(whole) as u16
        }
    } else {
        0
    }
}

/// The frequencies that `text` lists between commas, blanks left out.
pub open spec fn spec_khz_list(text: Seq<char>) -> Seq<u16> {
    let pieces = spec_split(spec_remove(text, ' '), ',');
    Seq::new(pieces.len(), |i: int| spec_parse_khz(pieces[i]))
}

/// Whether the station that the pattern captured as `groups` is well
/// formed.
pub open spec fn spec_capture_valid(groups: Seq<Seq<char>>) -> bool {
    groups.len() == 5 && spec_valid_station(
        spec_small_number(groups[0]),
        groups[1],
        spec_degrees(groups[2]),
        spec_degrees(groups[3]),
        spec_khz_list(groups[4]),
    )
}

/// Whether `gs` is the station that the pattern captured as `groups`.
pub open spec fn spec_station_from(gs: GroundStation, groups: Seq<Seq<char>>) -> bool {
    &&& gs.id == spec_small_number(groups[0])
    &&& gs.name@ == groups[1]
    &&& gs.short@ == spec_short_name(gs.id)
    &&& gs.position == (Position { lat: spec_degrees(groups[2]), lon: spec_degrees(groups[3]) })
    &&& gs.frequencies@ == spec_khz_list(groups[4])
}

/// Whether `r` is what the version `version` and the stations that the
/// pattern captured as `stations` give: the table's version is too old; or
/// the first station that is not well formed; or the table.
pub open spec fn spec_table_from(
    version: Seq<char>,
    stations: Seq<Seq<Seq<char>>>,
    r: Result<SystemTable, SystemTableError>,
) -> bool {
    match r {
        Ok(table) => {
            &&& spec_small_number(version) >= MIN_VERSION
            &&& table.spec_version() == spec_small_number(version)
            &&& table.spec_stations().len() == stations.len()
            &&& forall|i: int|
                0 <= i < stations.len() ==> {
                    &&& spec_capture_valid(#[trigger] stations[i])
                    &&& spec_station_from(table.spec_stations()[i], stations[i])
                }
        },
        Err(SystemTableError::Malformed) => false,
        Err(SystemTableError::UnmatchedStation) => false,
        Err(SystemTableError::VersionTooOld) => spec_small_number(version) < MIN_VERSION,
        Err(SystemTableError::MalformedStation(k)) => {
            &&& spec_small_number(version) >= MIN_VERSION
            &&& k < stations.len()
            &&& !spec_capture_valid(stations[k as int])
            &&& forall|i: int| 0 <= i < k ==> spec_capture_valid(#[trigger] stations[i])
        },
    }
}

/// Whether `r` is what the text `content` gives as a system table. Line
/// ends do not count. The text has to match `SYSTABLE_FMT`, which captures
/// the version and the list of stations; the stations are what
/// `STATIONS_FMT` matches in that list. Every record of the list has to be
/// matched: a table of a version that is accepted is refused where its list
/// opens more curly brackets than it has stations.
pub open spec fn spec_loaded(content: Seq<char>, r: Result<SystemTable, SystemTableError>) -> bool {
    let flat = spec_remove(spec_remove(content, '\r'), '\n');
    match spec_captures(SYSTABLE_FMT@, flat) {
        Some(groups) => if groups.len() == 2 {
            let stations = spec_captures_iter(STATIONS_FMT@, groups[1]);
            if spec_small_number(groups[0]) >= MIN_VERSION && spec_count(groups[1], '{')
                != stations.len() {
                r == Err::<SystemTable, SystemTableError>(SystemTableError::UnmatchedStation)
            } else {
                spec_table_from(groups[0], stations, r)
            }
        } else {
            r == Err::<SystemTable, SystemTableError>(SystemTableError::Malformed)
        },
        None => r == Err::<SystemTable, SystemTableError>(SystemTableError::Malformed),
    }
}

/// Reads `text` as a coordinate in millionths of a degree.
pub fn parse_degrees(text: &str) -> (r: Option<i32>)
    ensures
        r.is_some() == spec_parse_degrees(text@).is_some(),
        r matches Some(v) ==> spec_parse_degrees(text@) == Some(v as int),
{
    let chars = chars_of(text);
    let n = chars.len();
    let start: usize = if n > 0 && chars[0] == '-' {
        1
    } else {
        0
    };
    let ghost body = spec_magnitude(text@);
    assert(body == chars@.skip(start as int));
    let point = find_from(&chars, start, '.');
    let ghost k = spec_point(body);
    assert(k == point - start);
    let ghost whole = body.take(k);
    assert(whole == chars@.subrange(start as int, point as int));
    let whole_len = point - start;
    if whole_len < 1 || whole_len > 3 {
        return None;
    }
    let units = match digits_value(&chars, start, point) {
        Some(v) => v,
        None => {
            return None;
        },
    };
    proof {
        lemma_pow10_grows(whole_len as nat, 3);
        assert(spec_pow10(3) == 1000) by {
            reveal_with_fuel(spec_pow10, 4);
        }
    }
    let mut millionths: u64 = 0;
    if point < n {
        let ghost parts = body.skip(k + 1);
        assert(parts == chars@.subrange(point + 1, n as int));
        let len = n - (point + 1);
        if len < 1 || len > 6 {
            return None;
        }
        let mut value = match digits_value(&chars, point + 1, n) {
            Some(v) => v,
            None => {
                return None;
            },
        };
        proof {
            lemma_pow10_grows(len as nat, 6);
            assert(spec_pow10(6) == 1_000_000) by {
                reveal_with_fuel(spec_pow10, 7);
            }
        }
        let mut i: usize = len;
        while i < 6
            invariant
                len <= i <= 6,
                value as int == spec_decimal_value(parts) * spec_pow10((i - len) as nat),
                value < spec_pow10(i as nat),
                spec_pow10(i as nat) <= 1_000_000,
            decreases 6 - i,
        {
            proof {
                lemma_pow10_grows((i + 1) as nat, 6);
                assert(spec_pow10(6) == 1_000_000) by {
                    reveal_with_fuel(spec_pow10, 7);
                }
                assert(spec_decimal_value(parts) * spec_pow10((i + 1 - len) as nat) == 10 * (
                spec_decimal_value(parts) * spec_pow10((i - len) as nat))) by (nonlinear_arith)
                    requires
                        spec_pow10((i + 1 - len) as nat) == 10 * spec_pow10((i - len) as nat),
                ;
            }
            value = value * 10;
            i += 1;
        }
        millionths = value;
    } else {
        assert(spec_decimal_value(Seq::<char>::empty()) == 0);
    }
    let total = units * 1_000_000 + millionths;
    if start == 1 {
        Some(-(total as i32))
    } else {
        Some(total as i32)
    }
}

/// Reads `text` as a frequency in kHz.
pub fn parse_khz(text: &str) -> (r: u16)
    ensures
        r == spec_parse_khz(text@),
{
    let chars = chars_of(text);
    let n = chars.len();
    let point = find_from(&chars, 0, '.');
    assert(chars@.skip(0) == chars@);
    assert(text@.take(point as int) == chars@.subrange(0, point as int));
    if point < 1 || point > 9 {
        return 0;
    }
    let whole = match digits_value(&chars, 0, point) {
        Some(v) => v,
        None => {
            return 0;
        },
    };
    let mut i: usize = if point < n {
        point + 1
    } else {
        n
    };
    let first = i;
    let ghost parts = if point < n {
        text@.skip(point + 1)
    } else {
        Seq::<char>::empty()
    };
    while i < n
        invariant
            first <= i <= n,
            n == chars.len(),
            chars@ == text@,
            first == if point < n { point + 1 } else { n as int },
            parts == if point < n { text@.skip(point + 1) } else { Seq::<char>::empty() },
            forall|j: int| first <= j < i ==> chars[j] == '0',
            point <= n,
            point as int == spec_point(text@),
        decreases n - i,
    {
        if chars[i] != '0' {
            assert(point < n);
            assert(0 <= i - first < parts.len());
            assert(parts[i - first] == text@[i as int]);
            assert(!spec_all_zeros(parts));
            return 0;
        }
        i += 1;
    }
    assert forall|j: int| 0 <= j < parts.len() implies parts[j] == '0' by {
        assert(parts[j] == chars[j + first]);
    }
    if whole > 65535 {
        65535
    } else {
        whole as u16
    }
}

/// The frequencies that `text` lists.
pub fn khz_list(text: &str) -> (r: Vec<u16>)
    ensures
        r@ == spec_khz_list(text@),
{
    let packed = remove_char(text, ' ');
    let pieces = split(packed.as_str(), ',');
    let mut out: Vec<u16> = Vec::new();
    let mut i: usize = 0;
    while i < pieces.len()
        invariant
            i <= pieces.len(),
            out.len() == i,
            spec_views(pieces@) == spec_split(spec_remove(text@, ' '), ','),
            forall|j: int| 0 <= j < i ==> out[j] == spec_parse_khz(pieces[j]@),
        decreases pieces.len() - i,
    {
        out.push(parse_khz(pieces[i].as_str()));
        i += 1;
    }
    proof {
        let all = spec_split(spec_remove(text@, ' '), ',');
        assert forall|j: int| 0 <= j < out.len() implies out@[j] == spec_parse_khz(all[j]) by {
            assert(spec_views(pieces@)[j] == pieces[j]@);
        }
        assert(out@ =~= spec_khz_list(text@));
    }
    out
}

impl SystemTable {
    /// The table with the version that `version` writes and the stations
    /// that the pattern captured as `stations`.
    pub fn from_captures(version: &str, stations: &Vec<Vec<String>>) -> (r: Result<
        SystemTable,
        SystemTableError,
    >)
        ensures
            spec_table_from(version@, spec_matches_views(stations@), r),
    {
        let number = match parse_u8(version) {
            Some(v) => v,
            None => 0,
        };
        if number < MIN_VERSION {
            return Err(SystemTableError::VersionTooOld);
        }
        let ghost all = spec_matches_views(stations@);
        let mut out: Vec<GroundStation> = Vec::new();
        let mut i: usize = 0;
        while i < stations.len()
            invariant
                number == spec_small_number(version@),
                number >= MIN_VERSION,
                i <= stations.len(),
                out.len() == i,
                all == spec_matches_views(stations@),
                forall|j: int|
                    0 <= j < i ==> {
                        &&& spec_capture_valid(#[trigger] all[j])
                        &&& spec_station_from(out[j], all[j])
                    },
            decreases stations.len() - i,
        {
            let groups = &stations[i];
            assert(all[i as int] == spec_views(groups@));
            if groups.len() != 5 {
                return Err(SystemTableError::MalformedStation(i));
            }
            proof {
                assert(spec_views(groups@)[0] == groups[0]@);
                assert(spec_views(groups@)[1] == groups[1]@);
                assert(spec_views(groups@)[2] == groups[2]@);
                assert(spec_views(groups@)[3] == groups[3]@);
                assert(spec_views(groups@)[4] == groups[4]@);
            }
            let id = match parse_u8(groups[0].as_str()) {
                Some(v) => v,
                None => 0,
            };
            let lat = match parse_degrees(groups[2].as_str()) {
                Some(v) => v,
                None => UNREADABLE_DEGREES,
            };
            let lon = match parse_degrees(groups[3].as_str()) {
                Some(v) => v,
                None => UNREADABLE_DEGREES,
            };
            let frequencies = khz_list(groups[4].as_str());
            match GroundStation::new(id, groups[1].as_str(), lat, lon, frequencies) {
                Some(gs) => {
                    out.push(gs);
                },
                None => {
                    return Err(SystemTableError::MalformedStation(i));
                },
            }
            i += 1;
        }
        Ok(SystemTable { version: number, stations: out })
    }

    /// Reads the text `content` as a system table.
    pub fn load(content: &str) -> (r: Result<SystemTable, SystemTableError>)
        ensures
            spec_loaded(content@, r),
    {
        let flat = remove_char(remove_char(content, '\r').as_str(), '\n');
        let groups = match captures(SYSTABLE_FMT, flat.as_str()) {
            Some(groups) => groups,
            None => {
                return Err(SystemTableError::Malformed);
            },
        };
        if groups.len() != 2 {
            return Err(SystemTableError::Malformed);
        }
        assert(spec_views(groups@)[0] == groups[0]@);
        assert(spec_views(groups@)[1] == groups[1]@);
        let stations = captures_iter(STATIONS_FMT, groups[1].as_str());
        let version = match parse_u8(groups[0].as_str()) {
            Some(v) => v,
            None => 0,
        };
        assert(spec_matches_views(stations@).len() == stations.len());
        if version >= MIN_VERSION && count_char(groups[1].as_str(), '{') != stations.len() {
            return Err(SystemTableError::UnmatchedStation);
        }
        SystemTable::from_captures(groups[0].as_str(), &stations)
    }
}

} // verus!

//! Decoded frames, as the decoder reports them.
//!
//! Frequencies are whole kHz, except the frequency a frame was detected on,
//! which is in Hz. Coordinates are whole millionths of a degree, the signal
//! level is in tenths of a dB.

use crate::text::{
    concat, decimal, first_piece, pad_left, spec_decimal, spec_digit_char, spec_first_piece,
    spec_pad_left,
};
use vstd::prelude::*;
use vstd::string::StringExecFns;

verus! {

/// Ninety degrees, in millionths of a degree.
pub const LAT_LIMIT: i32 = 90_000_000;

/// A hundred and eighty degrees, in millionths of a degree.
pub const LON_LIMIT: i32 = 180_000_000;

/// A frequency slot of a ground station.
#[derive(Debug, Clone, Copy, PartialEq, Eq, Structural)]
pub struct Frequency {
    pub id: u8,
    pub freq: u32,
}

/// When a frame was received.
#[derive(Debug, Clone, Copy, PartialEq, Eq, Structural)]
pub struct Time {
    pub sec: u64,
    pub usec: u64,
}

/// The kind of a protocol data unit.
#[derive(Debug, Clone)]
pub struct PDUType {
    pub id: u16,
    pub name: String,
}

/// One end of a transmission: a ground station or an aircraft.
#[derive(Debug, Clone)]
pub struct Entity {
    pub id: u8,
    pub entity_type: String,
    pub entity_name: Option<String>,
}

/// A ground station as a broadcast reports it.
#[derive(Debug, Clone)]
pub struct GroundStation {
    pub gs: Entity,
    pub utc_sync: bool,
    pub freqs: Vec<Frequency>,
}

/// Which frequencies of a ground station an aircraft listens to and has
/// heard.
#[derive(Debug, Clone)]
pub struct FrequencyData {
    pub gs: Entity,
    pub listening_on_freqs: Vec<Frequency>,
    pub heard_on_freqs: Vec<Frequency>,
}

/// What is known of the aircraft of a frame.
#[derive(Debug, Clone)]
pub struct AircraftInfo {
    pub icao: String,
}

/// A position on the globe.
#[derive(Debug, Clone, Copy, PartialEq, Eq, Structural)]
pub struct Position {
    pub lat: i32,
    pub lon: i32,
}

/// An ACARS message.
#[derive(Debug, Clone)]
pub struct ACARS {
    pub reg: String,
    pub label: String,
    pub blk_id: String,
    pub ack: String,
    pub flight: Option<String>,
    pub msg_num: Option<String>,
    pub msg_num_seq: Option<String>,
}

/// Which part of the system table a payload holds.
#[derive(Debug, Clone, Copy, PartialEq, Eq, Structural)]
pub struct SystablePartial {
    pub part_num: u8,
    pub parts_cnt: u8,
}

/// The frequency that performance data speaks of: its slot, and the
/// frequency in kHz where that is known.
#[derive(Debug, Clone, Copy, PartialEq, Eq, Structural)]
pub struct PerfDataFreq {
    pub id: u32,
    pub freq: Option<u32>,
}

/// The payload of a point-to-point frame.
#[derive(Debug, Clone)]
pub struct HFNPDU {
    pub err: bool,
    pub pdu_type: PDUType,
    pub flight_id: Option<String>,
    pub pos: Option<Position>,
    pub acars: Option<ACARS>,
    pub freq_data: Option<Vec<FrequencyData>>,
    pub version: Option<u8>,
    pub systable_partial: Option<SystablePartial>,
    pub frequency: Option<PerfDataFreq>,
    pub request_data: Option<u16>,
}

/// Why an aircraft was logged off.
#[derive(Debug, Clone)]
pub struct Reason {
    pub code: u32,
    pub descr: String,
}

/// A point-to-point frame.
#[derive(Debug, Clone)]
pub struct LPDU {
    pub err: bool,
    pub src: Entity,
    pub dst: Entity,
    pub msg_type: PDUType,
    pub ac_info: Option<AircraftInfo>,
    pub reason: Option<Reason>,
    pub assigned_ac_id: Option<u8>,
    pub hfnpdu: Option<HFNPDU>,
}

/// A broadcast status frame.
#[derive(Debug, Clone)]
pub struct SPDU {
    pub err: bool,
    pub src: Entity,
    pub gs_status: Vec<GroundStation>,
}

/// What every frame holds: when and how it was received, and a broadcast
/// or a point-to-point frame.
#[derive(Debug, Clone)]
pub struct HFDL {
    pub t: Time,
    pub freq: u32,
    pub bit_rate: u16,
    pub sig_level: i32,
    pub spdu: Option<SPDU>,
    pub lpdu: Option<LPDU>,
}

/// One decoded frame.
#[derive(Debug, Clone)]
pub struct Frame {
    pub hfdl: HFDL,
}

impl Position {
    /// Whether the latitude lies strictly between -90 and 90 degrees and the
    /// longitude strictly between -180 and 180 degrees.
    pub open spec fn spec_is_valid(&self) -> bool {
        -LAT_LIMIT < self.lat < LAT_LIMIT && -LON_LIMIT < self.lon < LON_LIMIT
    }

    /// Whether the position lies on the globe, the poles and the date line
    /// left out.
    pub fn is_valid(&self) -> (r: bool)
        ensures
            r == self.spec_is_valid(),
    {
        self.lat > -LAT_LIMIT && self.lat < LAT_LIMIT && self.lon > -LON_LIMIT && self.lon
            < LON_LIMIT
    }
}


/// The identifiers `ids` as a list: in square brackets, a comma and a space
/// between them.
pub open spec fn spec_id_list(ids: Seq<u8>) -> Seq<char> {
    "["@ + spec_joined(ids) + "]"@
}

/// The identifiers `ids` in decimal digits, a comma and a space between
/// them.
pub open spec fn spec_joined(ids: Seq<u8>) -> Seq<char>
    decreases ids.len(),
{
    if ids.len() == 0 {
        Seq::empty()
    } else if ids.len() == 1 {
        spec_decimal(ids[0] as nat)
    } else {
        spec_joined(ids.drop_last()) + ", "@ + spec_decimal(ids.last() as nat)
    }
}

/// Writes the identifiers `ids` as a list.
pub fn id_list(ids: &Vec<u8>) -> (r: String)
    ensures
        r@ == spec_id_list(ids@),
{
    let mut inner = String::new();
    let mut i: usize = 0;
    assert(ids@.take(0) =~= Seq::empty());
    while i < ids.len()
        invariant
            i <= ids.len(),
            inner@ == spec_joined(ids@.take(i as int)),
        decreases ids.len() - i,
    {
        proof {
            assert(ids@.take(i + 1).drop_last() == ids@.take(i as int));
            assert(ids@.take(i + 1).last() == ids[i as int]);
            assert(ids@.take(i + 1)[0] == ids[0]);
        }
        if i > 0 {
            inner.append(", ");
        }
        let digits = decimal(ids[i] as u64);
        inner.append(digits.as_str());
        proof {
            if i == 0 {
                assert(inner@ =~= spec_decimal(ids[0] as nat));
            }
        }
        i += 1;
    }
    assert(ids@.take(ids.len() as int) == ids@);
    let mut out = concat("[", inner.as_str());
    out.append("]");
    out
}

/// The three decimal digits of `n`, with leading zeros.
pub open spec fn spec_three_digits(n: nat) -> Seq<char> {
    seq![
        spec_digit_char((n / 100 % 10) as int),
        spec_digit_char((n / 10 % 10) as int),
        spec_digit_char((n % 10) as int),
    ]
}

impl SystablePartial {
    /// The part and the number of parts, a slash between them.
    pub open spec fn spec_text(&self) -> Seq<char> {
        spec_decimal(self.part_num as nat) + "/"@ + spec_decimal(self.parts_cnt as nat)
    }

    /// The part and the number of parts, a slash between them.
    pub fn to_string(&self) -> (r: String)
        ensures
            r@ == self.spec_text(),
    {
        let mut out = decimal(self.part_num as u64);
        out.append("/");
        out.append(decimal(self.parts_cnt as u64).as_str());
        out
    }
}

/// The identifiers of the stations that `data` speaks of, in order.
pub open spec fn spec_data_ids(data: Seq<FrequencyData>) -> Seq<u8> {
    Seq::new(data.len(), |i: int| data[i].gs.id)
}

/// The identifiers of the stations that `status` speaks of, in order.
pub open spec fn spec_status_ids(status: Seq<GroundStation>) -> Seq<u8> {
    Seq::new(status.len(), |i: int| status[i].gs.id)
}

impl HFNPDU {
    /// The name of the payload's kind.
    pub open spec fn spec_msg_type(&self) -> Seq<char> {
        if self.pdu_type.id == 208 {
            "SystablePart"@
        } else if self.pdu_type.id == 209 {
            "PerfData"@
        } else if self.pdu_type.id == 210 {
            "SystableReq"@
        } else if self.pdu_type.id == 213 {
            "FreqData"@
        } else {
            self.pdu_type.name@
        }
    }

    /// The name of the payload's kind.
    pub fn msg_type(&self) -> (r: &str)
        ensures
            r@ == self.spec_msg_type(),
    {
        match self.pdu_type.id {
            208 => "SystablePart",
            209 => "PerfData",
            210 => "SystableReq",
            213 => "FreqData",
            _ => self.pdu_type.name.as_str(),
        }
    }

    /// What the payload holds, in a few characters: of a part of the system
    /// table its version and which part it is, of performance data the
    /// frequency or its slot, of a request for the system table what is
    /// asked for, of frequency data the stations. Nothing of any other
    /// payload, and nothing where what a payload should hold is missing.
    pub open spec fn spec_short(&self) -> Seq<char> {
        if self.pdu_type.id == 208 {
            match self.systable_partial {
                Some(part) => "V:"@ + spec_decimal(
                    match self.version {
                        Some(v) => v as nat,
                        None => 0,
                    },
                ) + " ("@ + part.spec_text() + ")"@,
                None => Seq::empty(),
            }
        } else if self.pdu_type.id == 209 {
            match self.frequency {
                Some(f) => match f.freq {
                    Some(khz) => "F:"@ + spec_decimal(khz as nat),
                    None => "F:#"@ + spec_decimal(f.id as nat),
                },
                None => Seq::empty(),
            }
        } else if self.pdu_type.id == 210 {
            match self.request_data {
                Some(d) => "D:"@ + spec_decimal(d as nat),
                None => Seq::empty(),
            }
        } else if self.pdu_type.id == 213 {
            match self.freq_data {
                Some(data) => "GS:"@ + spec_id_list(spec_data_ids(data@)),
                None => Seq::empty(),
            }
        } else {
            Seq::empty()
        }
    }

    /// What the payload holds, in a few characters.
    pub fn short(&self) -> (r: String)
        ensures
            r@ == self.spec_short(),
    {
        match self.pdu_type.id {
            208 => match &self.systable_partial {
                Some(part) => {
                    let version: u64 = match self.version {
                        Some(v) => v as u64,
                        None => 0,
                    };
                    let mut out = concat("V:", decimal(version).as_str());
                    out.append(" (");
                    out.append(part.to_string().as_str());
                    out.append(")");
                    out
                },
                None => String::new(),
            },
            209 => match &self.frequency {
                Some(f) => match f.freq {
                    Some(khz) => concat("F:", decimal(khz as u64).as_str()),
                    None => concat("F:#", decimal(f.id as u64).as_str()),
                },
                None => String::new(),
            },
            210 => match self.request_data {
                Some(d) => concat("D:", decimal(d as u64).as_str()),
                None => String::new(),
            },
            213 => match &self.freq_data {
                Some(data) => {
                    let mut ids: Vec<u8> = Vec::new();
                    let mut i: usize = 0;
                    while i < data.len()
                        invariant
                            i <= data.len(),
                            ids@ == spec_data_ids(data@.take(i as int)),
                        decreases data.len() - i,
                    {
                        ids.push(data[i].gs.id);
                        assert(ids@ =~= spec_data_ids(data@.take(i + 1)));
                        i += 1;
                    }
                    assert(data@.take(data.len() as int) == data@);
                    concat("GS:", id_list(&ids).as_str())
                },
                None => String::new(),
            },
            _ => String::new(),
        }
    }
}

impl LPDU {
    /// How the end `entity` of the frame is shown: a named end by its name
    /// up to the first comma; else by the registration of the ACARS
    /// message, by the flight of the payload, by the address of the
    /// aircraft, or by its identifier, whichever the frame holds first, in
    /// a field of seven characters.
    pub open spec fn spec_fmt_entity(&self, entity: Entity) -> Seq<char> {
        match entity.entity_name {
            Some(name) => spec_first_piece(name@, ','),
            None => match self.spec_payload_tag() {
                Some(tag) => tag,
                None => match self.ac_info {
                    Some(info) => "Hex["@ + spec_pad_left(info.icao@, 7) + "]"@,
                    None => "Aci["@ + spec_pad_left(spec_decimal(entity.id as nat), 7) + "]"@,
                },
            },
        }
    }

    /// How the payload names the aircraft: by the registration of its ACARS
    /// message, else by its flight.
    pub open spec fn spec_payload_tag(&self) -> Option<Seq<char>> {
        match self.hfnpdu {
            Some(h) => match h.acars {
                Some(acars) => Some("Reg["@ + spec_pad_left(acars.reg@, 7) + "]"@),
                None => match h.flight_id {
                    Some(flight) => Some("Flt["@ + spec_pad_left(flight@, 7) + "]"@),
                    None => None,
                },
            },
            None => None,
        }
    }

    fn tagged(tag: &str, text: &str) -> (r: String)
        ensures
            r@ == tag@ + spec_pad_left(text@, 7) + "]"@,
    {
        let mut out = concat(tag, pad_left(text, 7).as_str());
        out.append("]");
        out
    }

    fn fmt_entity(&self, entity: &Entity) -> (r: String)
        ensures
            r@ == self.spec_fmt_entity(*entity),
    {
        match &entity.entity_name {
            Some(name) => {
                return first_piece(name.as_str(), ',');
            },
            None => {},
        }
        match &self.hfnpdu {
            Some(h) => match &h.acars {
                Some(acars) => {
                    return LPDU::tagged("Reg[", acars.reg.as_str());
                },
                None => match &h.flight_id {
                    Some(flight) => {
                        return LPDU::tagged("Flt[", flight.as_str());
                    },
                    None => {},
                },
            },
            None => {},
        }
        match &self.ac_info {
            Some(info) => LPDU::tagged("Hex[", info.icao.as_str()),
            None => LPDU::tagged("Aci[", decimal(entity.id as u64).as_str()),
        }
    }

    /// How the frame's source is shown.
    pub fn source(&self) -> (r: String)
        ensures
            r@ == self.spec_fmt_entity(self.src),
    {
        self.fmt_entity(&self.src)
    }

    /// How the frame's destination is shown.
    pub fn destination(&self) -> (r: String)
        ensures
            r@ == self.spec_fmt_entity(self.dst),
    {
        self.fmt_entity(&self.dst)
    }

    /// The name of the frame's kind.
    pub open spec fn spec_msg_type(&self) -> Seq<char> {
        if self.msg_type.id == 63 {
            "LogoffReq"@
        } else if self.msg_type.id == 79 {
            "LogonRes"@
        } else if self.msg_type.id == 159 {
            "LogonCfm"@
        } else if self.msg_type.id == 191 {
            "LogonReq"@
        } else {
            self.msg_type.name@
        }
    }

    /// The name of the frame's kind.
    pub fn msg_type(&self) -> (r: &str)
        ensures
            r@ == self.spec_msg_type(),
    {
        match self.msg_type.id {
            63 => "LogoffReq",
            79 => "LogonRes",
            159 => "LogonCfm",
            191 => "LogonReq",
            _ => self.msg_type.name.as_str(),
        }
    }

    /// What the frame holds, in a few characters: of a request to log off
    /// the reason, of a confirmed logon the identifier that the aircraft was
    /// given. Nothing of any other frame.
    pub open spec fn spec_short(&self) -> Seq<char> {
        if self.msg_type.id == 63 {
            match self.reason {
                Some(reason) => "R:"@ + reason.descr@,
                None => Seq::empty(),
            }
        } else if self.msg_type.id == 159 {
            match self.assigned_ac_id {
                Some(id) => "ID:#"@ + spec_decimal(id as nat),
                None => Seq::empty(),
            }
        } else {
            Seq::empty()
        }
    }

    /// What the frame holds, in a few characters.
    pub fn short(&self) -> (r: String)
        ensures
            r@ == self.spec_short(),
    {
        match self.msg_type.id {
            63 => match &self.reason {
                Some(reason) => concat("R:", reason.descr.as_str()),
                None => String::new(),
            },
            159 => match self.assigned_ac_id {
                Some(id) => concat("ID:#", decimal(id as u64).as_str()),
                None => String::new(),
            },
            _ => String::new(),
        }
    }
}

impl SPDU {
    /// The name of the broadcast's source, up to the first comma.
    pub fn source(&self) -> (r: String)
        requires
            self.src.entity_name.is_some(),
        ensures
            r@ == spec_first_piece(self.src.entity_name.unwrap()@, ','),
    {
        match &self.src.entity_name {
            Some(name) => first_piece(name.as_str(), ','),
            None => String::new(),
        }
    }

    /// The stations that the broadcast speaks of.
    pub fn short(&self) -> (r: String)
        ensures
            r@ == "GS:"@ + spec_id_list(spec_status_ids(self.gs_status@)),
    {
        let mut ids: Vec<u8> = Vec::new();
        let mut i: usize = 0;
        while i < self.gs_status.len()
            invariant
                i <= self.gs_status.len(),
                ids@ == spec_status_ids(self.gs_status@.take(i as int)),
            decreases self.gs_status.len() - i,
        {
            ids.push(self.gs_status[i].gs.id);
            assert(ids@ =~= spec_status_ids(self.gs_status@.take(i + 1)));
            i += 1;
        }
        assert(self.gs_status@.take(self.gs_status.len() as int) == self.gs_status@);
        concat("GS:", id_list(&ids).as_str())
    }
}

impl HFDL {
    /// The frequency in MHz, rounded to kHz, with three decimals.
    pub open spec fn spec_frequency(&self) -> Seq<char> {
        let khz = ((self.freq as nat) + 500) / 1000;
        spec_decimal(khz / 1000) + "."@ + spec_three_digits(khz % 1000)
    }

    /// The frequency in MHz, rounded to kHz, with three decimals.
    pub fn frequency(&self) -> (r: String)
        ensures
            r@ == self.spec_frequency(),
    {
        let khz: u64 = (self.freq as u64 + 500) / 1000;
        let rest = khz % 1000;
        let mut out = decimal(khz / 1000);
        out.append(".");
        let ghost before = out@;
        out.append(decimal(rest / 100 % 10).as_str());
        out.append(decimal(rest / 10 % 10).as_str());
        out.append(decimal(rest % 10).as_str());
        assert(out@ =~= before + spec_three_digits(rest as nat));
        out
    }

    /// The signal level in dB, with one decimal.
    pub open spec fn spec_signal(&self) -> Seq<char> {
        let tenths: nat = if self.sig_level < 0 {
            (-(self.sig_level as int)) as nat
        } else {
            self.sig_level as nat
        };
        let digits = spec_decimal(tenths / 10) + "."@ + spec_decimal(tenths % 10);
        if self.sig_level < 0 {
            "-"@ + digits
        } else {
            digits
        }
    }

    /// The signal level in dB, with one decimal.
    pub fn signal(&self) -> (r: String)
        ensures
            r@ == self.spec_signal(),
    {
        let negative = self.sig_level < 0;
        let tenths: u64 = if negative {
            (-(self.sig_level as i64)) as u64
        } else {
            self.sig_level as u64
        };
        let mut out = if negative {
            "-".to_owned()
        } else {
            String::new()
        };
        out.append(decimal(tenths / 10).as_str());
        out.append(".");
        out.append(decimal(tenths % 10).as_str());
        proof {
            if !negative {
                assert(out@ =~= spec_decimal((tenths / 10) as nat) + "."@ + spec_decimal(
                    (tenths % 10) as nat,
                ));
            } else {
                assert(out@ =~= "-"@ + (spec_decimal((tenths / 10) as nat) + "."@ + spec_decimal(
                    (tenths % 10) as nat,
                )));
            }
        }
        out
    }
}

} // verus!

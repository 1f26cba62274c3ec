use hfdl_autopilot::hfdl::{
    id_list, AircraftInfo, Entity, Frequency, FrequencyData, GroundStation, PDUType, PerfDataFreq,
    Reason, SystablePartial, Time, ACARS, HFDL, HFNPDU, LPDU, SPDU,
};

fn entity(id: u8, name: Option<&str>) -> Entity {
    Entity { id, entity_type: "Ground station".to_string(), entity_name: name.map(|n| n.to_string()) }
}

fn payload(id: u16) -> HFNPDU {
    HFNPDU {
        err: false,
        pdu_type: PDUType { id, name: "Enveloped data".to_string() },
        flight_id: None,
        pos: None,
        acars: None,
        freq_data: None,
        version: None,
        systable_partial: None,
        frequency: None,
        request_data: None,
    }
}

fn message(id: u16, hfnpdu: Option<HFNPDU>) -> LPDU {
    LPDU {
        err: false,
        src: entity(3, Some("Reykjavik, Iceland")),
        dst: entity(40, None),
        msg_type: PDUType { id, name: "Unnumbered data".to_string() },
        ac_info: None,
        reason: None,
        assigned_ac_id: None,
        hfnpdu,
    }
}

fn heard(id: u8) -> FrequencyData {
    FrequencyData { gs: entity(id, None), listening_on_freqs: vec![], heard_on_freqs: vec![] }
}

#[test]
fn payload_kinds_have_names() {
    assert_eq!(payload(208).msg_type(), "SystablePart");
    assert_eq!(payload(209).msg_type(), "PerfData");
    assert_eq!(payload(210).msg_type(), "SystableReq");
    assert_eq!(payload(213).msg_type(), "FreqData");
    assert_eq!(payload(255).msg_type(), "Enveloped data");
}

#[test]
fn payloads_in_short() {
    let mut h = payload(208);
    assert_eq!(h.short(), "");
    h.systable_partial = Some(SystablePartial { part_num: 2, parts_cnt: 13 });
    assert_eq!(h.short(), "V:0 (2/13)");
    h.version = Some(51);
    assert_eq!(h.short(), "V:51 (2/13)");
    assert_eq!(SystablePartial { part_num: 0, parts_cnt: 255 }.to_string(), "0/255");

    let mut h = payload(209);
    assert_eq!(h.short(), "");
    h.frequency = Some(PerfDataFreq { id: 7, freq: None });
    assert_eq!(h.short(), "F:#7");
    h.frequency = Some(PerfDataFreq { id: 7, freq: Some(8977) });
    assert_eq!(h.short(), "F:8977");

    let mut h = payload(210);
    assert_eq!(h.short(), "");
    h.request_data = Some(65535);
    assert_eq!(h.short(), "D:65535");

    let mut h = payload(213);
    assert_eq!(h.short(), "");
    h.freq_data = Some(vec![]);
    assert_eq!(h.short(), "GS:[]");
    h.freq_data = Some(vec![heard(1), heard(13), heard(255)]);
    assert_eq!(h.short(), "GS:[1, 13, 255]");

    let mut h = payload(1);
    h.request_data = Some(1);
    h.freq_data = Some(vec![heard(1)]);
    assert_eq!(h.short(), "");
}

#[test]
fn lists_of_identifiers() {
    assert_eq!(id_list(&vec![]), "[]");
    assert_eq!(id_list(&vec![0]), "[0]");
    assert_eq!(id_list(&vec![1, 2, 3]), "[1, 2, 3]");
    for ids in [vec![], vec![7u8], vec![255, 0, 10]] {
        assert_eq!(id_list(&ids), format!("{:?}", ids));
    }
}

#[test]
fn frame_kinds_have_names() {
    assert_eq!(message(63, None).msg_type(), "LogoffReq");
    assert_eq!(message(79, None).msg_type(), "LogonRes");
    assert_eq!(message(159, None).msg_type(), "LogonCfm");
    assert_eq!(message(191, None).msg_type(), "LogonReq");
    assert_eq!(message(13, None).msg_type(), "Unnumbered data");
}

#[test]
fn frames_in_short() {
    let mut m = message(63, None);
    assert_eq!(m.short(), "");
    m.reason = Some(Reason { code: 3, descr: "Not logged on".to_string() });
    m.assigned_ac_id = Some(9);
    assert_eq!(m.short(), "R:Not logged on");
    let mut m = message(159, None);
    assert_eq!(m.short(), "");
    m.assigned_ac_id = Some(201);
    m.reason = Some(Reason { code: 3, descr: "x".to_string() });
    assert_eq!(m.short(), "ID:#201");
    let mut m = message(79, None);
    m.assigned_ac_id = Some(201);
    assert_eq!(m.short(), "");
}

#[test]
fn the_ends_of_a_frame() {
    let mut m = message(13, None);
    assert_eq!(m.source(), "Reykjavik");
    assert_eq!(m.destination(), "Aci[     40]");
    m.ac_info = Some(AircraftInfo { icao: "A1B2C3".to_string() });
    assert_eq!(m.destination(), "Hex[ A1B2C3]");
    assert_eq!(m.source(), "Reykjavik");
    let mut h = payload(209);
    m.hfnpdu = Some(h.clone());
    assert_eq!(m.destination(), "Hex[ A1B2C3]");
    h.flight_id = Some("AB123".to_string());
    m.hfnpdu = Some(h.clone());
    assert_eq!(m.destination(), "Flt[  AB123]");
    h.acars = Some(ACARS {
        reg: ".N123AB".to_string(),
        label: "H1".to_string(),
        blk_id: "1".to_string(),
        ack: "!".to_string(),
        flight: None,
        msg_num: None,
        msg_num_seq: None,
    });
    m.hfnpdu = Some(h);
    assert_eq!(m.destination(), "Reg[.N123AB]");
    m.src = entity(3, None);
    assert_eq!(m.source(), "Reg[.N123AB]");
    m.src = entity(3, Some("No comma"));
    assert_eq!(m.source(), "No comma");
}

#[test]
fn a_broadcast_in_short() {
    let spdu = SPDU {
        err: false,
        src: entity(1, Some("San Francisco, California")),
        gs_status: vec![
            GroundStation { gs: entity(1, None), utc_sync: true, freqs: vec![Frequency { id: 1, freq: 8927 }] },
            GroundStation { gs: entity(17, None), utc_sync: false, freqs: vec![] },
        ],
    };
    assert_eq!(spdu.source(), "San Francisco");
    assert_eq!(spdu.short(), "GS:[1, 17]");
}

#[test]
fn frequency_and_signal() {
    let mut hfdl = HFDL {
        t: Time { sec: 0, usec: 0 },
        freq: 8_977_000,
        bit_rate: 1800,
        sig_level: -253,
        spdu: None,
        lpdu: None,
    };
    assert_eq!(hfdl.frequency(), "8.977");
    assert_eq!(hfdl.signal(), "-25.3");
    hfdl.freq = 21_997_000;
    hfdl.sig_level = 0;
    assert_eq!(hfdl.frequency(), "21.997");
    assert_eq!(hfdl.signal(), "0.0");
    hfdl.freq = 2_941_400;
    hfdl.sig_level = 7;
    assert_eq!(hfdl.frequency(), "2.941");
    assert_eq!(hfdl.signal(), "0.7");
    hfdl.freq = 999_500;
    hfdl.sig_level = -7;
    assert_eq!(hfdl.frequency(), "1.000");
    assert_eq!(hfdl.signal(), "-0.7");
    hfdl.freq = 0;
    hfdl.sig_level = i32::MIN;
    assert_eq!(hfdl.frequency(), "0.000");
    assert_eq!(hfdl.signal(), "-214748364.8");
    hfdl.freq = u32::MAX;
    hfdl.sig_level = i32::MAX;
    assert_eq!(hfdl.frequency(), "4294.967");
    assert_eq!(hfdl.signal(), "214748364.7");
    hfdl.freq = 10_005_000;
    assert_eq!(hfdl.frequency(), "10.005");
}

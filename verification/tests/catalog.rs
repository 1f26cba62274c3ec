use hfdl_autopilot::bands::{band_id, EmptyCatalog, FrequencyBandMap};
use hfdl_autopilot::utils::systable::GroundStation;

fn station(id: u8, name: &str, frequencies: Vec<u16>) -> GroundStation {
    GroundStation::new(id, name, 10_000_000, 20_000_000, frequencies).unwrap()
}

#[test]
fn build_groups_close_frequencies() {
    let stations = vec![
        station(1, "San Francisco", vec![8927, 8912, 13276]),
        station(2, "Molokai", vec![8936, 13312, 13324]),
    ];
    let catalog = FrequencyBandMap::build(&stations, 250_000).unwrap();
    assert_eq!(catalog.len(), 2);
    let low = band_id(8912, 8936);
    let high = band_id(13276, 13324);
    assert_eq!(catalog.get(low), Some(&vec![8912, 8927, 8936]));
    assert_eq!(catalog.get(high), Some(&vec![13276, 13312, 13324]));
    assert_eq!(catalog.freq_to_band(8927), Some(low));
    assert_eq!(catalog.freq_to_band(13312), Some(high));
    assert_eq!(catalog.freq_to_band(9000), None);
}

#[test]
fn band_id_is_the_frequency_of_a_band_of_one() {
    assert_eq!(band_id(8912, 8912), 8912);
    assert_eq!(band_id(0, 0), 0);
    assert_eq!(band_id(65535, 65535), 65535);
}

#[test]
fn band_id_joins_the_outer_frequencies() {
    assert_eq!(band_id(8912, 8936), 8912 * 65536 + 8936);
    assert_eq!(band_id(1, 2), 65538);
    assert_eq!(band_id(65534, 65535), u32::MAX - 65536);
}

#[test]
fn build_fails_without_frequencies() {
    let stations: Vec<GroundStation> = Vec::new();
    assert_eq!(FrequencyBandMap::build(&stations, 250_000).err(), Some(EmptyCatalog));
}

#[test]
fn build_fails_on_zero_span() {
    let stations = vec![station(1, "San Francisco", vec![8927])];
    assert_eq!(FrequencyBandMap::build(&stations, 0).err(), Some(EmptyCatalog));
}

#[test]
fn a_frequency_listed_twice_stands_once() {
    let stations = vec![
        station(1, "San Francisco", vec![8927, 8927]),
        station(2, "Molokai", vec![8927]),
    ];
    let catalog = FrequencyBandMap::build(&stations, 250_000).unwrap();
    assert_eq!(catalog.len(), 1);
    assert_eq!(catalog.get(8927), Some(&vec![8927]));
}

#[test]
fn a_band_ends_where_the_span_is_used_up() {
    // Nine tenths of 100 kHz are 90 kHz: 1090 still fits behind 1000, 1091 does not.
    let stations = vec![station(1, "San Francisco", vec![1000, 1090, 1091, 1181, 1182])];
    let catalog = FrequencyBandMap::build(&stations, 100_000).unwrap();
    assert_eq!(catalog.len(), 3);
    assert_eq!(catalog.get(band_id(1000, 1090)), Some(&vec![1000, 1090]));
    assert_eq!(catalog.get(band_id(1091, 1181)), Some(&vec![1091, 1181]));
    assert_eq!(catalog.get(1182), Some(&vec![1182]));
}

#[test]
fn every_frequency_belongs_to_exactly_one_band() {
    let all: Vec<u16> = vec![
        2941, 3455, 4687, 5451, 5502, 5508, 5514, 5529, 5538, 5544, 5547, 5583, 5589, 5622, 5652,
        5655, 5720, 6529, 6532, 6535, 6559, 6565, 6589, 6596, 6619, 6628, 6646, 6652, 6661, 6712,
        8825, 8834, 8843, 8885, 8886, 8894, 8912, 8921, 8927, 8936, 8939, 8942, 8948, 8957, 8977,
        10027, 10030, 10060, 10063, 10066, 10075, 10081, 10084, 10087, 10093, 11184, 11306, 11312,
        11318, 11321, 11327, 11348, 11354, 11384, 11387, 13264, 13270, 13276, 13303, 13312, 13315,
        13321, 13324, 13342, 13351, 13354, 15025, 17901, 17912, 17916, 17919, 17922, 17928, 17934,
        17958, 17967, 21928, 21931, 21934, 21937, 21949, 21955, 21982, 21990, 21997,
    ];
    let mid = all.len() / 2;
    let stations = vec![
        station(1, "San Francisco", all[..mid].to_vec()),
        station(2, "Molokai", all[mid - 5..].to_vec()),
    ];
    for max_span in [1u32, 10_000, 250_000, 512_000, 6_000_000, u32::MAX] {
        let catalog = FrequencyBandMap::build(&stations, max_span).unwrap();
        let keys = catalog.keys();
        assert_eq!(keys.len(), catalog.len());
        for f in &all {
            let holders: Vec<u32> = keys
                .iter()
                .copied()
                .filter(|k| catalog.get(*k).unwrap().contains(f))
                .collect();
            assert_eq!(holders.len(), 1);
            assert_eq!(catalog.freq_to_band(*f as u32), Some(holders[0]));
        }
        let mut count = 0;
        for k in &keys {
            let freqs = catalog.get(*k).unwrap();
            assert!(!freqs.is_empty());
            assert!(freqs.windows(2).all(|w| w[0] < w[1]));
            let span = (freqs[freqs.len() - 1] - freqs[0]) as u64;
            assert!(span * 10_000 <= 9 * max_span as u64);
            assert_eq!(*k, band_id(freqs[0], freqs[freqs.len() - 1]));
            assert!(freqs.iter().all(|f| all.contains(f)));
            count += freqs.len();
        }
        assert_eq!(count, all.len());
    }
}

#[test]
fn keys_ascend() {
    let stations = vec![station(1, "San Francisco", vec![13000, 5000, 5001, 8000])];
    let catalog = FrequencyBandMap::build(&stations, 250_000).unwrap();
    assert_eq!(catalog.keys(), vec![8000, 13000, band_id(5000, 5001)]);
    assert!(catalog.contains_key(8000));
    assert!(!catalog.contains_key(5000));
    assert_eq!(catalog.len(), 3);
}

#[test]
fn duplicate_holds_the_same_bands() {
    let stations = vec![station(1, "San Francisco", vec![13000, 5000, 5001, 8000])];
    let catalog = FrequencyBandMap::build(&stations, 250_000).unwrap();
    let copy = catalog.duplicate();
    assert_eq!(copy.keys(), catalog.keys());
    for k in catalog.keys() {
        assert_eq!(copy.get(k), catalog.get(k));
    }
}

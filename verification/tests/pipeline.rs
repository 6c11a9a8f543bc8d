use sensor_beacons::decode::{parse_advertisement_payload, Reading, SkipReason, MIN_PAYLOAD_LEN};
use sensor_beacons::filter::{extract_payload, Advertisement, ENVIRONMENTAL_SENSING_SERVICE};
use sensor_beacons::resolve::{canonical_address, get_location, AddressTable};
use sensor_beacons::scan::{
    get_all_sensors_measurements, get_single_sensor_measurement, process_advertisement,
    LabelPolicy, ScanError,
};

/// The reference payload: address AA:BB:CC:DD:EE:FF, 25.0 C, 60 %
/// humidity, 90 % battery at 456 mV, packet counter 7.
fn reference_payload() -> Vec<u8> {
    vec![
        0xAA, 0xBB, 0xCC, 0xDD, 0xEE, 0xFF, 0x00, 0xFA, 0x3C, 0x5A, 0xC8, 0x01, 0x07,
    ]
}

fn kitchen_table() -> AddressTable {
    AddressTable::from_entries(vec![(
        "AA:BB:CC:DD:EE:FF".to_string(),
        "kitchen".to_string(),
    )])
    .expect("unique keys")
}

fn advertisement(service_id: u128, payload: Vec<u8>) -> Advertisement {
    Advertisement {
        address: vec![0xAA, 0xBB, 0xCC, 0xDD, 0xEE, 0xFF],
        service_data: vec![(service_id, payload)],
    }
}

#[test]
fn short_payloads_are_rejected_with_their_length() {
    for len in 0..MIN_PAYLOAD_LEN {
        let data = vec![0xFFu8; len];
        let r = parse_advertisement_payload("kitchen", &data);
        assert_eq!(r, Err(SkipReason::PayloadTooShort(len)));
    }
}

#[test]
fn twelve_bytes_are_still_too_short() {
    let mut data = reference_payload();
    data.pop();
    assert_eq!(data.len(), 12);
    let r = parse_advertisement_payload("kitchen", &data);
    assert_eq!(r, Err(SkipReason::PayloadTooShort(12)));
}

#[test]
fn reference_payload_decodes_exactly() {
    let data = reference_payload();
    let reading = parse_advertisement_payload("kitchen", &data).expect("13 bytes decode");
    assert_eq!(reading.location, "kitchen");
    // 0x00FA = 250 tenths of a degree = 25.0 C.
    assert_eq!(reading.temperature_deci_celsius, 250);
    assert_eq!(reading.humidity_percent, 60);
    assert_eq!(reading.battery_percent, 90);
    // Little-endian 0xC8 0x01 = 0x01C8 = 456 mV.
    assert_eq!(reading.battery_millivolts, 456);
    assert_eq!(reading.packet_counter, 7);
}

#[test]
fn address_canonicalizes_to_colon_separated_upper_hex() {
    let mac = vec![0xAAu8, 0xBB, 0xCC, 0xDD, 0xEE, 0xFF];
    assert_eq!(canonical_address(&mac), "AA:BB:CC:DD:EE:FF");
}

#[test]
fn canonicalization_pads_low_bytes_with_zero() {
    let mac = vec![0x00u8, 0x01, 0x0F, 0xA4, 0xC1, 0x38];
    assert_eq!(canonical_address(&mac), "00:01:0F:A4:C1:38");
}

#[test]
fn registered_address_resolves_to_its_label() {
    let table = kitchen_table();
    let data = reference_payload();
    assert_eq!(get_location(&data, &table), Ok("kitchen".to_string()));
}

#[test]
fn unregistered_address_is_not_found() {
    let table = kitchen_table();
    let mut data = reference_payload();
    data[5] = 0xFE; // address now AA:BB:CC:DD:EE:FE
    assert_eq!(get_location(&data, &table), Err(SkipReason::AddressNotFound));
}

#[test]
fn resolver_rejects_short_payloads_before_lookup() {
    let table = kitchen_table();
    let data = vec![0xAAu8, 0xBB, 0xCC, 0xDD, 0xEE, 0xFF];
    assert_eq!(
        get_location(&data, &table),
        Err(SkipReason::PayloadTooShort(6))
    );
}

#[test]
fn duplicate_addresses_are_rejected_at_construction() {
    let entries = vec![
        ("AA:BB:CC:DD:EE:FF".to_string(), "kitchen".to_string()),
        ("AA:BB:CC:DD:EE:FF".to_string(), "bathroom".to_string()),
    ];
    assert!(AddressTable::from_entries(entries).is_none());
}

#[test]
fn table_lookup_is_an_exact_string_match() {
    let table = kitchen_table();
    assert_eq!(
        table.lookup(&"AA:BB:CC:DD:EE:FF".to_string()),
        Some("kitchen".to_string())
    );
    // Lower case is a different string: canonicalize identically on
    // both sides or the lookup misses.
    assert_eq!(table.lookup(&"aa:bb:cc:dd:ee:ff".to_string()), None);
}

#[test]
fn decoding_is_idempotent() {
    let data = reference_payload();
    let first = parse_advertisement_payload("kitchen", &data);
    let second = parse_advertisement_payload("kitchen", &data);
    assert_eq!(first, second);
}

#[test]
fn trailing_bytes_do_not_affect_decoded_fields() {
    let short = reference_payload();
    let mut long = reference_payload();
    long.extend_from_slice(&[0x12, 0x34, 0x56, 0x78, 0x9A]);
    let a = parse_advertisement_payload("kitchen", &short).expect("decodes");
    let b = parse_advertisement_payload("kitchen", &long).expect("decodes");
    assert_eq!(a, b);
}

#[test]
fn filter_finds_the_target_service_payload() {
    let adv = Advertisement {
        address: vec![0xAA, 0xBB, 0xCC, 0xDD, 0xEE, 0xFF],
        service_data: vec![
            (0x1234, vec![0x01]),
            (ENVIRONMENTAL_SENSING_SERVICE, reference_payload()),
        ],
    };
    let payload = extract_payload(&adv, ENVIRONMENTAL_SENSING_SERVICE);
    assert_eq!(payload, Some(&reference_payload()));
}

#[test]
fn filter_reports_an_absent_service() {
    let adv = advertisement(0x1234, reference_payload());
    assert_eq!(extract_payload(&adv, ENVIRONMENTAL_SENSING_SERVICE), None);
}

#[test]
fn processing_reports_each_skip_reason() {
    let table = kitchen_table();
    let policy = LabelPolicy::Lookup(table);

    let unrelated = advertisement(0x1234, reference_payload());
    assert_eq!(
        process_advertisement(&unrelated, ENVIRONMENTAL_SENSING_SERVICE, &policy),
        Err(SkipReason::ServiceAbsent)
    );

    let short = advertisement(ENVIRONMENTAL_SENSING_SERVICE, vec![0x00, 0x01]);
    assert_eq!(
        process_advertisement(&short, ENVIRONMENTAL_SENSING_SERVICE, &policy),
        Err(SkipReason::PayloadTooShort(2))
    );

    let mut foreign = reference_payload();
    foreign[0] = 0x11; // address 11:BB:CC:DD:EE:FF, unregistered
    let unknown = advertisement(ENVIRONMENTAL_SENSING_SERVICE, foreign);
    assert_eq!(
        process_advertisement(&unknown, ENVIRONMENTAL_SENSING_SERVICE, &policy),
        Err(SkipReason::AddressNotFound)
    );
}

#[test]
fn one_failing_device_never_hides_another() {
    // Device 1 advertises an unrelated service, device 2 the target
    // service with a too-short payload, device 3 a valid payload from
    // a registered address: exactly device 3's reading is collected.
    let device1 = advertisement(0x1234, reference_payload());
    let device2 = advertisement(ENVIRONMENTAL_SENSING_SERVICE, vec![0xAA, 0xBB]);
    let device3 = advertisement(ENVIRONMENTAL_SENSING_SERVICE, reference_payload());
    let snapshot = vec![device1, device2, device3];
    let policy = LabelPolicy::Lookup(kitchen_table());

    let (readings, skips) =
        get_all_sensors_measurements(&snapshot, ENVIRONMENTAL_SENSING_SERVICE, &policy);

    assert_eq!(readings.len(), 1);
    assert_eq!(readings[0].location, "kitchen");
    assert_eq!(readings[0].temperature_deci_celsius, 250);
    assert_eq!(
        skips,
        vec![SkipReason::ServiceAbsent, SkipReason::PayloadTooShort(2)]
    );
}

#[test]
fn snapshot_without_the_target_service_collects_nothing() {
    let snapshot = vec![
        advertisement(0x1234, reference_payload()),
        advertisement(0x5678, vec![0x00]),
    ];
    let policy = LabelPolicy::Lookup(kitchen_table());
    let (readings, skips) =
        get_all_sensors_measurements(&snapshot, ENVIRONMENTAL_SENSING_SERVICE, &policy);
    assert!(readings.is_empty());
    assert_eq!(
        skips,
        vec![SkipReason::ServiceAbsent, SkipReason::ServiceAbsent]
    );
}

#[test]
fn empty_snapshot_is_not_an_error_for_the_multi_sensor_variant() {
    let snapshot: Vec<Advertisement> = Vec::new();
    let policy = LabelPolicy::Lookup(kitchen_table());
    let (readings, skips) =
        get_all_sensors_measurements(&snapshot, ENVIRONMENTAL_SENSING_SERVICE, &policy);
    assert!(readings.is_empty());
    assert!(skips.is_empty());
}

#[test]
fn fixed_label_policy_labels_every_reading() {
    let snapshot = vec![advertisement(
        ENVIRONMENTAL_SENSING_SERVICE,
        reference_payload(),
    )];
    let policy = LabelPolicy::Fixed("greenhouse".to_string());
    let (readings, _) =
        get_all_sensors_measurements(&snapshot, ENVIRONMENTAL_SENSING_SERVICE, &policy);
    assert_eq!(readings.len(), 1);
    assert_eq!(readings[0].location, "greenhouse");
}

#[test]
fn single_sensor_variant_returns_the_first_reading() {
    let mut second = reference_payload();
    second[12] = 0x08;
    let snapshot = vec![
        advertisement(0x1234, vec![]),
        advertisement(ENVIRONMENTAL_SENSING_SERVICE, reference_payload()),
        advertisement(ENVIRONMENTAL_SENSING_SERVICE, second),
    ];
    let reading = get_single_sensor_measurement(
        &snapshot,
        ENVIRONMENTAL_SENSING_SERVICE,
        &"attic".to_string(),
    )
    .expect("one device matches");
    assert_eq!(reading.location, "attic");
    assert_eq!(reading.packet_counter, 7);
}

#[test]
fn single_sensor_variant_fails_when_nothing_matches() {
    let snapshot = vec![advertisement(0x1234, reference_payload())];
    let r = get_single_sensor_measurement(
        &snapshot,
        ENVIRONMENTAL_SENSING_SERVICE,
        &"attic".to_string(),
    );
    assert_eq!(r, Err(ScanError::NoDeviceMatched));
}

#[test]
fn readings_are_cloneable_and_comparable() {
    let data = reference_payload();
    let reading: Reading = parse_advertisement_payload("kitchen", &data).expect("decodes");
    let copy = reading.clone();
    assert_eq!(reading, copy);
}

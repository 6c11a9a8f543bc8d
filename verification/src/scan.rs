//! Scan orchestrator: the per-device filter / resolve / decode chain
//! and its fold over a whole scan snapshot.
//!
//! The adapter I/O (beginning passive discovery, waiting out the scan
//! window, enumerating the devices currently known) lives outside the
//! library; it hands in the snapshot as a list of [`Advertisement`]s.
//! Each device is processed independently: a malformed payload from
//! one device, or an unregistered address on another, never prevents a
//! third device's reading from being collected.

use crate::decode::{
    parse_advertisement_payload, reading_result_model, spec_decode, spec_reading, Reading,
    ReadingModel, SkipReason, MIN_PAYLOAD_LEN,
};
use crate::filter::{extract_payload, spec_extract, Advertisement, AdvertisementModel};
use crate::resolve::{get_location, spec_canonical_address, spec_lookup, AddressTable};
use vstd::prelude::*;

verus! {

/// Default length of the fixed discovery window, in seconds.  While
/// the caller waits it out, the adapter accumulates advertisements;
/// the library then processes the resulting snapshot.
pub const SCAN_WINDOW_SECS: u64 = 10;

/// A scan-level failure.  Unlike a [`SkipReason`], these abort the
/// whole scan.
#[derive(Clone, Debug, PartialEq, Eq)]
pub enum ScanError {
    /// The environment has no usable radio; nothing can be recovered.
    NoAdapterAvailable,
    /// Single-sensor variant only: the scan completed but no device
    /// satisfied the filter / resolve / decode chain.
    NoDeviceMatched,
}

/// How a matched device's payload is given its location label: either
/// a fixed label for every device (single-sensor variant) or a lookup
/// of the device's hardware address in a static table (multi-sensor
/// variant).
#[derive(Clone, Debug)]
pub enum LabelPolicy {
    /// Always use this label.
    Fixed(String),
    /// Look the address carried in the payload up in this table.
    Lookup(AddressTable),
}

/// The label a policy assigns to a payload's hardware address, if any.
pub open spec fn spec_label(policy: LabelPolicy, mac: Seq<u8>) -> Option<Seq<char>> {
    match policy {
        LabelPolicy::Fixed(label) => Some(label@),
        LabelPolicy::Lookup(table) => spec_lookup(table@, spec_canonical_address(mac)),
    }
}

/// The outcome of the filter / resolve / decode chain on one device:
/// its decoded reading, or the exact reason it is skipped.
pub open spec fn spec_process(
    adv: AdvertisementModel,
    service_id: u128,
    policy: LabelPolicy,
) -> Result<ReadingModel, SkipReason> {
    match spec_extract(adv.service_data, service_id) {
        None => Err(SkipReason::ServiceAbsent),
        Some(payload) => {
            if payload.len() < MIN_PAYLOAD_LEN {
                Err(SkipReason::PayloadTooShort(payload.len() as usize))
            } else {
                match spec_label(policy, payload.subrange(0, 6)) {
                    None => Err(SkipReason::AddressNotFound),
                    Some(label) => Ok(spec_reading(label, payload)),
                }
            }
        },
    }
}

/// The readings of every device in the snapshot whose chain succeeds,
/// in device-enumeration order.
pub open spec fn spec_collect(
    advs: Seq<AdvertisementModel>,
    service_id: u128,
    policy: LabelPolicy,
) -> Seq<ReadingModel>
    decreases advs.len(),
{
    if advs.len() == 0 {
        Seq::empty()
    } else {
        let rest = spec_collect(advs.drop_first(), service_id, policy);
        match spec_process(advs.first(), service_id, policy) {
            Ok(reading) => seq![reading] + rest,
            Err(_) => rest,
        }
    }
}

/// The skip reasons of every device in the snapshot whose chain fails,
/// in device-enumeration order.
pub open spec fn spec_skips(
    advs: Seq<AdvertisementModel>,
    service_id: u128,
    policy: LabelPolicy,
) -> Seq<SkipReason>
    decreases advs.len(),
{
    if advs.len() == 0 {
        Seq::empty()
    } else {
        let rest = spec_skips(advs.drop_first(), service_id, policy);
        match spec_process(advs.first(), service_id, policy) {
            Ok(_) => rest,
            Err(reason) => seq![reason] + rest,
        }
    }
}

/// Runs the filter / resolve / decode chain on one discovered device.
///
/// The device is skipped with [`SkipReason::ServiceAbsent`] when it
/// does not advertise `service_id`; with
/// [`SkipReason::PayloadTooShort`] when the advertised payload has
/// fewer than [`MIN_PAYLOAD_LEN`] bytes; and with
/// [`SkipReason::AddressNotFound`] when the policy is a table lookup
/// and the payload's hardware address is unregistered.  Otherwise the
/// payload decodes to a reading labelled as the policy directs.
pub fn process_advertisement(
    adv: &Advertisement,
    service_id: u128,
    policy: &LabelPolicy,
) -> (r: Result<Reading, SkipReason>)
    ensures
        reading_result_model(r) == spec_process(adv@, service_id, *policy),
{
    let payload = match extract_payload(adv, service_id) {
        None => {
            return Err(SkipReason::ServiceAbsent);
        },
        Some(payload) => payload,
    };
    let label = match policy {
        LabelPolicy::Fixed(label) => {
            if payload.len() < MIN_PAYLOAD_LEN {
                return Err(SkipReason::PayloadTooShort(payload.len()));
            }
            label.clone()
        },
        LabelPolicy::Lookup(table) => {
            match get_location(payload.as_slice(), table) {
                Ok(label) => label,
                Err(reason) => {
                    return Err(reason);
                },
            }
        },
    };
    match parse_advertisement_payload(label.as_str(), payload.as_slice()) {
        Ok(reading) => Ok(reading),
        Err(reason) => Err(reason),
    }
}

/// Folds the chain over a whole scan snapshot, independently per
/// device.
///
/// Returns every successful reading, in device-enumeration order,
/// together with the skip reason of every device that failed, for the
/// caller to log.  One device's failure never short-circuits the fold:
/// a snapshot in which nothing matches yields an empty list, not an
/// error.
pub fn get_all_sensors_measurements(
    advertisements: &Vec<Advertisement>,
    service_id: u128,
    policy: &LabelPolicy,
) -> (r: (Vec<Reading>, Vec<SkipReason>))
    ensures
        r.0.deep_view() == spec_collect(advertisements.deep_view(), service_id, *policy),
        r.1@ == spec_skips(advertisements.deep_view(), service_id, *policy),
{
    let ghost advs = advertisements.deep_view();
    let mut readings: Vec<Reading> = Vec::new();
    let mut skips: Vec<SkipReason> = Vec::new();
    let n = advertisements.len();
    proof {
        assert(advs.skip(0) =~= advs);
        assert(readings.deep_view() + spec_collect(advs, service_id, *policy) =~= spec_collect(
            advs,
            service_id,
            *policy,
        ));
        assert(skips@ + spec_skips(advs, service_id, *policy) =~= spec_skips(
            advs,
            service_id,
            *policy,
        ));
    }
    let mut i: usize = 0;
    while i < n
        invariant
            n == advs.len(),
            n == advertisements@.len(),
            advs == advertisements.deep_view(),
            i <= n,
            readings.deep_view() + spec_collect(advs.skip(i as int), service_id, *policy)
                == spec_collect(advs, service_id, *policy),
            skips@ + spec_skips(advs.skip(i as int), service_id, *policy) == spec_skips(
                advs,
                service_id,
                *policy,
            ),
        decreases n - i,
    {
        let ghost readings_before = readings.deep_view();
        let ghost skips_before = skips@;
        proof {
            assert(advs[i as int] == advertisements@[i as int]@);
            assert(advs.skip(i as int).first() == advs[i as int]);
            assert(advs.skip(i as int).drop_first() =~= advs.skip(i + 1));
        }
        match process_advertisement(&advertisements[i], service_id, policy) {
            Ok(reading) => {
                let ghost reading_model = reading.deep_view();
                readings.push(reading);
                proof {
                    assert(reading_model == spec_process(advs[i as int], service_id, *policy)->Ok_0);
                    assert(readings.deep_view() =~= readings_before.push(reading_model));
                    assert(spec_collect(advs.skip(i as int), service_id, *policy) == seq![
                        reading_model,
                    ] + spec_collect(advs.skip(i + 1), service_id, *policy));
                    assert(readings.deep_view() + spec_collect(advs.skip(i + 1), service_id, *policy)
                        =~= readings_before + spec_collect(advs.skip(i as int), service_id, *policy));
                }
            },
            Err(reason) => {
                skips.push(reason);
                proof {
                    assert(skips@ + spec_skips(advs.skip(i + 1), service_id, *policy)
                        =~= skips_before + spec_skips(advs.skip(i as int), service_id, *policy));
                }
            },
        }
        i = i + 1;
    }
    proof {
        assert(advs.skip(n as int) =~= Seq::<AdvertisementModel>::empty());
        assert(readings.deep_view() + Seq::<ReadingModel>::empty() =~= readings.deep_view());
        assert(skips@ + Seq::<SkipReason>::empty() =~= skips@);
    }
    (readings, skips)
}

/// Single-sensor variant of the scan: every matched payload gets the
/// same fixed label, and a scan in which no device satisfied the chain
/// is itself the failure.
///
/// Returns the first collected reading, or
/// [`ScanError::NoDeviceMatched`] exactly when no device in the
/// snapshot advertises a decodable payload for `service_id`.
pub fn get_single_sensor_measurement(
    advertisements: &Vec<Advertisement>,
    service_id: u128,
    label: &String,
) -> (r: Result<Reading, ScanError>)
    ensures
        ({
            let collected = spec_collect(
                advertisements.deep_view(),
                service_id,
                LabelPolicy::Fixed(*label),
            );
            &&& (r is Ok <==> collected.len() > 0)
            &&& (r matches Ok(reading) ==> reading@ == collected.first())
            &&& (r is Err ==> r == Err::<Reading, ScanError>(ScanError::NoDeviceMatched))
        }),
{
    let policy = LabelPolicy::Fixed(label.clone());
    let (mut readings, _skips) = get_all_sensors_measurements(
        advertisements,
        service_id,
        &policy,
    );
    if readings.len() == 0 {
        Err(ScanError::NoDeviceMatched)
    } else {
        let first = readings.remove(0);
        Ok(first)
    }
}

/// Empty-result law: a snapshot in which no discovered device
/// advertises the target service at all collects no readings — and,
/// under any policy, yields the empty list rather than an error.
pub proof fn lemma_no_matching_service_collects_nothing(
    advs: Seq<AdvertisementModel>,
    service_id: u128,
    policy: LabelPolicy,
)
    requires
        forall|i: int|
            0 <= i < advs.len() ==> spec_extract(#[trigger] advs[i].service_data, service_id)
                is None,
    ensures
        spec_collect(advs, service_id, policy) == Seq::<ReadingModel>::empty(),
    decreases advs.len(),
{
    if advs.len() > 0 {
        assert(advs[0] == advs.first());
        assert forall|i: int| 0 <= i < advs.drop_first().len() implies spec_extract(
            #[trigger] advs.drop_first()[i].service_data,
            service_id,
        ) is None by {
            assert(advs.drop_first()[i] == advs[i + 1]);
        }
        lemma_no_matching_service_collects_nothing(advs.drop_first(), service_id, policy);
    }
}

/// Isolation law: one failing device never affects the others.
/// Inserting a device whose chain fails anywhere into a snapshot
/// leaves the collected readings exactly as they were.
pub proof fn lemma_failure_isolated(
    advs: Seq<AdvertisementModel>,
    at: int,
    failing: AdvertisementModel,
    service_id: u128,
    policy: LabelPolicy,
)
    requires
        0 <= at <= advs.len(),
        spec_process(failing, service_id, policy) is Err,
    ensures
        spec_collect(advs.insert(at, failing), service_id, policy) == spec_collect(
            advs,
            service_id,
            policy,
        ),
    decreases advs.len(),
{
    let inserted = advs.insert(at, failing);
    if at == 0 {
        assert(inserted.first() == failing);
        assert(inserted.drop_first() =~= advs);
    } else {
        assert(inserted.first() == advs.first());
        assert(inserted.drop_first() =~= advs.drop_first().insert(at - 1, failing));
        lemma_failure_isolated(advs.drop_first(), at - 1, failing, service_id, policy);
    }
}

/// Success law, the other face of isolation: every device whose chain
/// succeeds contributes its reading to the collected list, whatever
/// happens to the devices around it.
pub proof fn lemma_success_collected(
    advs: Seq<AdvertisementModel>,
    at: int,
    service_id: u128,
    policy: LabelPolicy,
)
    requires
        0 <= at < advs.len(),
        spec_process(advs[at], service_id, policy) is Ok,
    ensures
        spec_collect(advs, service_id, policy).contains(
            spec_process(advs[at], service_id, policy)->Ok_0,
        ),
    decreases advs.len(),
{
    let collected = spec_collect(advs, service_id, policy);
    let reading = spec_process(advs[at], service_id, policy)->Ok_0;
    let rest = spec_collect(advs.drop_first(), service_id, policy);
    if at == 0 {
        assert(advs.first() == advs[0]);
        assert(collected == seq![reading] + rest);
        assert(collected[0] == reading);
    } else {
        assert(advs.drop_first()[at - 1] == advs[at]);
        lemma_success_collected(advs.drop_first(), at - 1, service_id, policy);
        let j = choose|j: int| 0 <= j < rest.len() && rest[j] == reading;
        match spec_process(advs.first(), service_id, policy) {
            Ok(first_reading) => {
                assert(collected == seq![first_reading] + rest);
                assert(collected[j + 1] == reading);
            },
            Err(_) => {
                assert(collected == rest);
            },
        }
    }
}

} // verus!

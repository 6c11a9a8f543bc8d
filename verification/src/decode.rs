//! Fixed-layout binary payload decoder.
//!
//! A beacon advertises a service-data payload of at least
//! [`MIN_PAYLOAD_LEN`] bytes with this layout (offsets fixed for
//! compatibility):
//!
//! - bytes 0..6: hardware address, most-significant byte first,
//! - bytes 6..8: temperature, big-endian, tenths of a degree Celsius,
//! - byte 8: relative humidity, percent,
//! - byte 9: battery level, percent,
//! - bytes 10..12: battery voltage in millivolts, little-endian,
//! - byte 12: packet counter, wrapping at 256,
//! - any bytes beyond offset 12: ignored.
//!
//! Only the payload *length* is validated; field values are taken as-is
//! (a humidity above 100 is accepted verbatim, by design).

use vstd::prelude::*;
use vstd::string::StringExecFns;

verus! {

/// Minimum number of payload bytes a reading can be decoded from.
pub const MIN_PAYLOAD_LEN: usize = 13;

/// Why one device was skipped during a scan.  Every variant is a
/// per-device outcome: none of them aborts the surrounding scan.
#[derive(Clone, Debug, PartialEq, Eq)]
pub enum SkipReason {
    /// The service-data payload was shorter than [`MIN_PAYLOAD_LEN`];
    /// carries the actual length for diagnostics.
    PayloadTooShort(usize),
    /// The device does not advertise the target service at all.  This
    /// is the common case and not an error in the reporting sense.
    ServiceAbsent,
    /// The device advertises the target service but its hardware
    /// address is not registered in the location table.
    AddressNotFound,
}

/// One decoded measurement, tagged with its location label.
///
/// A reading is only ever constructed from a payload of at least
/// [`MIN_PAYLOAD_LEN`] bytes; it is never partially populated.  The
/// temperature is kept exactly as transmitted, in tenths of a degree
/// Celsius, so no precision is lost before the caller chooses a unit.
#[derive(Clone, Debug, PartialEq, Eq)]
pub struct Reading {
    /// Operator-assigned location label.
    pub location: String,
    /// Temperature in tenths of a degree Celsius (250 means 25.0 C).
    pub temperature_deci_celsius: u16,
    /// Relative humidity, integer percent, taken as-is.
    pub humidity_percent: u8,
    /// Battery level, percent.
    pub battery_percent: u8,
    /// Battery voltage, millivolts.
    pub battery_millivolts: u16,
    /// Monotonically incrementing packet counter, wraps at 256.
    pub packet_counter: u8,
}

/// Mathematical model of a [`Reading`].
pub struct ReadingModel {
    pub location: Seq<char>,
    pub temperature_deci_celsius: u16,
    pub humidity_percent: u8,
    pub battery_percent: u8,
    pub battery_millivolts: u16,
    pub packet_counter: u8,
}

impl View for Reading {
    type V = ReadingModel;

    open spec fn view(&self) -> ReadingModel {
        ReadingModel {
            location: self.location@,
            temperature_deci_celsius: self.temperature_deci_celsius,
            humidity_percent: self.humidity_percent,
            battery_percent: self.battery_percent,
            battery_millivolts: self.battery_millivolts,
            packet_counter: self.packet_counter,
        }
    }
}

impl DeepView for Reading {
    type V = ReadingModel;

    open spec fn deep_view(&self) -> ReadingModel {
        self.view()
    }
}

/// The reading that a payload of at least [`MIN_PAYLOAD_LEN`] bytes
/// decodes to, under the fixed field layout.
pub open spec fn spec_reading(location: Seq<char>, payload: Seq<u8>) -> ReadingModel
    recommends
        payload.len() >= MIN_PAYLOAD_LEN,
{
    ReadingModel {
        location,
        temperature_deci_celsius: (payload[6] * 0x100 + payload[7]) as u16,
        humidity_percent: payload[8],
        battery_percent: payload[9],
        battery_millivolts: (payload[10] + payload[11] * 0x100) as u16,
        packet_counter: payload[12],
    }
}

/// What decoding a payload yields: the decoded reading, or the exact
/// rejection for a payload that is too short.
pub open spec fn spec_decode(location: Seq<char>, payload: Seq<u8>) -> Result<
    ReadingModel,
    SkipReason,
> {
    if payload.len() < MIN_PAYLOAD_LEN {
        Err(SkipReason::PayloadTooShort(payload.len() as usize))
    } else {
        Ok(spec_reading(location, payload))
    }
}

/// Maps a decoder result to its mathematical model.
pub open spec fn reading_result_model(r: Result<Reading, SkipReason>) -> Result<
    ReadingModel,
    SkipReason,
> {
    match r {
        Ok(m) => Ok(m@),
        Err(e) => Err(e),
    }
}

/// Decodes one service-data payload into a [`Reading`] tagged with the
/// given location label.
///
/// Succeeds exactly on payloads of at least [`MIN_PAYLOAD_LEN`] bytes;
/// a shorter payload is rejected with
/// [`SkipReason::PayloadTooShort`], carrying the actual length.  Bytes
/// beyond offset 12 never influence the decoded fields.
pub fn parse_advertisement_payload(location: &str, data: &[u8]) -> (r: Result<
    Reading,
    SkipReason,
>)
    ensures
        reading_result_model(r) == spec_decode(location@, data@),
        r is Ok <==> data@.len() >= MIN_PAYLOAD_LEN,
        data@.len() < MIN_PAYLOAD_LEN ==> r == Err::<Reading, SkipReason>(
            SkipReason::PayloadTooShort(data@.len() as usize),
        ),
{
    if data.len() < MIN_PAYLOAD_LEN {
        return Err(SkipReason::PayloadTooShort(data.len()));
    }
    let temperature_deci_celsius: u16 = (data[6] as u16) * 0x100 + (data[7] as u16);
    let battery_millivolts: u16 = (data[10] as u16) + (data[11] as u16) * 0x100;
    Ok(
        Reading {
            location: String::from_str(location),
            temperature_deci_celsius,
            humidity_percent: data[8],
            battery_percent: data[9],
            battery_millivolts,
            packet_counter: data[12],
        },
    )
}

/// The decoder is a pure function of its inputs: decoding the same
/// payload bytes for the same label twice yields identical results.
pub proof fn lemma_decode_deterministic(
    location: Seq<char>,
    first: Seq<u8>,
    second: Seq<u8>,
)
    requires
        first == second,
    ensures
        spec_decode(location, first) == spec_decode(location, second),
{
}

/// Extra trailing bytes beyond offset 12 never affect the decoded
/// fields: two decodable payloads that agree on their first
/// [`MIN_PAYLOAD_LEN`] bytes decode to the same reading.
pub proof fn lemma_trailing_bytes_ignored(
    location: Seq<char>,
    shorter: Seq<u8>,
    longer: Seq<u8>,
)
    requires
        MIN_PAYLOAD_LEN <= shorter.len() <= longer.len(),
        longer.subrange(0, shorter.len() as int) == shorter,
    ensures
        spec_decode(location, shorter) == spec_decode(location, longer),
{
    assert forall|i: int| 0 <= i < shorter.len() implies longer[i] == shorter[i] by {
        assert(longer.subrange(0, shorter.len() as int)[i] == longer[i]);
    }
}

} // verus!

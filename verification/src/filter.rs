//! Advertisement filter: picking the target service's payload out of
//! one discovered device's advertisement data.
//!
//! Most devices in range are not the target sensor type, so an absent
//! service entry is the expected, common outcome and never an error.

use vstd::prelude::*;

verus! {

/// The standard 16-bit Environmental Sensing service identifier,
/// expanded to its 128-bit form.  Beacons attach their measurement
/// payload to this service.
pub const ENVIRONMENTAL_SENSING_SERVICE: u128 = 0x0000181a_0000_1000_8000_00805f9b34fb;

/// One discovered device's advertisement, as handed in by the adapter:
/// its hardware address and its service-data entries, each a service
/// identifier (128-bit form) with an opaque byte payload.
///
/// An advertisement is an ephemeral, device-supplied snapshot; it lives
/// only for the duration of one scan.
#[derive(Clone, Debug)]
pub struct Advertisement {
    /// The device's 6-byte hardware address, most-significant byte
    /// first.
    pub address: Vec<u8>,
    /// Service identifier to payload, in the order the adapter
    /// reported the entries.
    pub service_data: Vec<(u128, Vec<u8>)>,
}

/// Mathematical model of an [`Advertisement`].
pub struct AdvertisementModel {
    pub address: Seq<u8>,
    pub service_data: Seq<(u128, Seq<u8>)>,
}

impl View for Advertisement {
    type V = AdvertisementModel;

    open spec fn view(&self) -> AdvertisementModel {
        AdvertisementModel {
            address: self.address@,
            service_data: self.service_data.deep_view(),
        }
    }
}

impl DeepView for Advertisement {
    type V = AdvertisementModel;

    open spec fn deep_view(&self) -> AdvertisementModel {
        self.view()
    }
}

/// The payload of the first service-data entry carrying `service_id`,
/// if the advertisement has one.
pub open spec fn spec_extract(service_data: Seq<(u128, Seq<u8>)>, service_id: u128) -> Option<
    Seq<u8>,
>
    decreases service_data.len(),
{
    if service_data.len() == 0 {
        None
    } else if service_data.first().0 == service_id {
        Some(service_data.first().1)
    } else {
        spec_extract(service_data.drop_first(), service_id)
    }
}

/// Extracts the service-data payload associated with `service_id` from
/// one advertisement, verbatim, if the advertisement carries one.
///
/// Returns `None` exactly when no entry names `service_id`; this is
/// expected for most devices and not an error.
pub fn extract_payload<'a>(adv: &'a Advertisement, service_id: u128) -> (r: Option<&'a Vec<u8>>)
    ensures
        r matches Some(p) ==> spec_extract(adv@.service_data, service_id) == Some(p@),
        r is None <==> spec_extract(adv@.service_data, service_id) is None,
{
    let n = adv.service_data.len();
    proof {
        assert(adv@.service_data.skip(0) =~= adv@.service_data);
    }
    let mut i: usize = 0;
    while i < n
        invariant
            n == adv@.service_data.len(),
            i <= n,
            spec_extract(adv@.service_data.skip(i as int), service_id) == spec_extract(
                adv@.service_data,
                service_id,
            ),
        decreases n - i,
    {
        proof {
            assert(adv@.service_data[i as int] == (
                adv.service_data@[i as int].0,
                adv.service_data@[i as int].1@,
            ));
            assert(adv@.service_data.skip(i as int).first() == adv@.service_data[i as int]);
            assert(adv@.service_data.skip(i as int).drop_first() =~= adv@.service_data.skip(
                i + 1,
            ));
        }
        if adv.service_data[i].0 == service_id {
            return Some(&adv.service_data[i].1);
        }
        i = i + 1;
    }
    proof {
        assert(adv@.service_data.skip(n as int) =~= Seq::<(u128, Seq<u8>)>::empty());
    }
    None
}

} // verus!

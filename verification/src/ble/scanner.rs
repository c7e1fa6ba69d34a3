//! Picking the amplifier out of the advertisements that a scan reports.

use crate::ble::advertisement::{parse_advertisement, AdvertisementData, ServiceUuid};
use crate::ble::SPARK_SERVICE_UUID;
use vstd::prelude::*;

verus! {

/// Where a device is reached: the kind of its address, and the address.
#[derive(Clone, Copy, Debug, PartialEq, Eq)]
pub struct Peer {
    pub addr_kind: u8,
    pub addr: [u8; 6],
}

/// Whether an advertisement payload is one of the amplifier: it lists the
/// amplifier's service among its 16-bit service UUIDs.
pub open spec fn advertises_spark(data: Seq<u8>) -> bool {
    parse_advertisement(data).advertises(ServiceUuid::Uuid16(SPARK_SERVICE_UUID))
}

/// What a scan has found so far: the first device whose advertisement
/// was one of the amplifier.
pub struct ScanHandler {
    device: Option<Peer>,
}

impl ScanHandler {
    /// The device that was found, if any.
    pub closed spec fn device(&self) -> Option<Peer> {
        self.device
    }

    /// A handler that has found nothing yet.
    pub fn new() -> (handler: Self)
        ensures
            handler.device() is None,
    {
        Self { device: None }
    }

    /// A handler for a device that is known beforehand.
    pub fn with_device(peer: Peer) -> (handler: Self)
        ensures
            handler.device() == Some(peer),
    {
        Self { device: Some(peer) }
    }

    /// The device that was found, if any.
    pub fn get_device(&self) -> (device: Option<Peer>)
        ensures
            device == self.device(),
    {
        self.device
    }

    /// Whether a device was found.
    pub fn found_device(&self) -> (found: bool)
        ensures
            found == self.device() is Some,
    {
        self.get_device().is_some()
    }

    /// Takes one advertisement report. The device is kept if nothing was
    /// found before and the advertisement is one of the amplifier; a
    /// device that was found is never replaced.
    pub fn on_adv_report(&mut self, addr_kind: u8, addr: [u8; 6], data: &[u8])
        ensures
            final(self).device() == (if old(self).device() is Some {
                old(self).device()
            } else if advertises_spark(data@) {
                Some(Peer { addr_kind, addr })
            } else {
                None
            }),
    {
        if self.device.is_none() {
            let ad = AdvertisementData::new_from_bytes(data);
            if ad.is_advertising_service(SPARK_SERVICE_UUID) {
                self.device = Some(Peer { addr_kind, addr });
            }
        }
    }
}

} // verus!

//! Advertising data: the length-prefixed structures of an advertisement
//! payload, decoded into a record of fixed capacity.
//!
//! A payload is a run of structures `[length][type][payload...]`, where
//! `length` counts the type byte and the payload. A zero length, or a
//! length that reaches past the end of the buffer, ends the run; what
//! follows is ignored. Entries that do not fit the record are dropped.
//!
//! The record keeps, for each kind of entry, how many of its slots are
//! filled. Only a filled slot holds an entry: an advertisement that lists
//! no service advertises none.

use vstd::prelude::*;
use vstd::std_specs::convert::FromSpecImpl;
use vstd::std_specs::convert::IntoSpec;

verus! {

/// Slots for 16-bit service UUIDs.
pub const UUID16_SLOTS: usize = 8;

/// Slots for 32-bit service UUIDs.
pub const UUID32_SLOTS: usize = 4;

/// Slots for 128-bit service UUIDs.
pub const UUID128_SLOTS: usize = 2;

/// Bytes of manufacturer specific data that are kept.
pub const MANUFACTURER_BYTES: usize = 16;

/// Slots for structures of any other type.
pub const OTHER_SLOTS: usize = 4;

/// Bytes kept of the payload of a structure of any other type.
pub const OTHER_PAYLOAD_BYTES: usize = 16;

/// A service UUID in one of its three widths.
#[derive(Clone, Debug)]
pub enum ServiceUuid {
    Uuid16(u16),
    Uuid32(u32),
    Uuid128([u8; 16]),
}

impl From<u16> for ServiceUuid {
    fn from(value: u16) -> (uuid: Self) {
        ServiceUuid::Uuid16(value)
    }
}

impl FromSpecImpl<u16> for ServiceUuid {
    open spec fn obeys_from_spec() -> bool {
        true
    }

    open spec fn from_spec(value: u16) -> Self {
        ServiceUuid::Uuid16(value)
    }
}

impl From<u32> for ServiceUuid {
    fn from(value: u32) -> (uuid: Self) {
        ServiceUuid::Uuid32(value)
    }
}

impl FromSpecImpl<u32> for ServiceUuid {
    open spec fn obeys_from_spec() -> bool {
        true
    }

    open spec fn from_spec(value: u32) -> Self {
        ServiceUuid::Uuid32(value)
    }
}

impl From<[u8; 16]> for ServiceUuid {
    fn from(value: [u8; 16]) -> (uuid: Self) {
        ServiceUuid::Uuid128(value)
    }
}

impl FromSpecImpl<[u8; 16]> for ServiceUuid {
    open spec fn obeys_from_spec() -> bool {
        true
    }

    open spec fn from_spec(value: [u8; 16]) -> Self {
        ServiceUuid::Uuid128(value)
    }
}

/// The assigned types of advertising data structures.
#[derive(Debug, PartialEq, Eq)]
pub enum AdvertisementType {
    Flags,
    IncompleteListUuid16,
    CompleteListUuid16,
    IncompleteListUuid32,
    CompleteListUuid32,
    IncompleteListUuid128,
    CompleteListUuid128,
    ShortenedLocalName,
    CompleteLocalName,
    TxPowerLevel,
    PeripheralConnIntervalRange,
    ListSolicitationUuid16,
    ListSolicitationUuid128,
    ServiceDataUuid16,
    PublicTargetAddress,
    RandomTargetAddress,
    Appearance,
    AdvertisingInterval,
    ServiceDataUuid32,
    ServiceDataUuid128,
    URI,
    PbADV,
    MeshMessage,
    MeshBeacon,
    BroadcastName,
    ManufacturerSpecificData,
}

impl AdvertisementType {
    /// The type byte that stands for this type in a structure.
    pub open spec fn spec_code(&self) -> u8 {
        match self {
            AdvertisementType::Flags => 0x01,
            AdvertisementType::IncompleteListUuid16 => 0x02,
            AdvertisementType::CompleteListUuid16 => 0x03,
            AdvertisementType::IncompleteListUuid32 => 0x04,
            AdvertisementType::CompleteListUuid32 => 0x05,
            AdvertisementType::IncompleteListUuid128 => 0x06,
            AdvertisementType::CompleteListUuid128 => 0x07,
            AdvertisementType::ShortenedLocalName => 0x08,
            AdvertisementType::CompleteLocalName => 0x09,
            AdvertisementType::TxPowerLevel => 0x0a,
            AdvertisementType::PeripheralConnIntervalRange => 0x12,
            AdvertisementType::ListSolicitationUuid16 => 0x14,
            AdvertisementType::ListSolicitationUuid128 => 0x15,
            AdvertisementType::ServiceDataUuid16 => 0x16,
            AdvertisementType::PublicTargetAddress => 0x17,
            AdvertisementType::RandomTargetAddress => 0x18,
            AdvertisementType::Appearance => 0x19,
            AdvertisementType::AdvertisingInterval => 0x1a,
            AdvertisementType::ServiceDataUuid32 => 0x20,
            AdvertisementType::ServiceDataUuid128 => 0x21,
            AdvertisementType::URI => 0x24,
            AdvertisementType::PbADV => 0x29,
            AdvertisementType::MeshMessage => 0x2a,
            AdvertisementType::MeshBeacon => 0x2b,
            AdvertisementType::BroadcastName => 0x30,
            AdvertisementType::ManufacturerSpecificData => 0xff,
        }
    }

    /// The type byte that stands for this type in a structure.
    pub fn code(&self) -> (c: u8)
        ensures
            c == self.spec_code(),
    {
        match self {
            AdvertisementType::Flags => 0x01,
            AdvertisementType::IncompleteListUuid16 => 0x02,
            AdvertisementType::CompleteListUuid16 => 0x03,
            AdvertisementType::IncompleteListUuid32 => 0x04,
            AdvertisementType::CompleteListUuid32 => 0x05,
            AdvertisementType::IncompleteListUuid128 => 0x06,
            AdvertisementType::CompleteListUuid128 => 0x07,
            AdvertisementType::ShortenedLocalName => 0x08,
            AdvertisementType::CompleteLocalName => 0x09,
            AdvertisementType::TxPowerLevel => 0x0a,
            AdvertisementType::PeripheralConnIntervalRange => 0x12,
            AdvertisementType::ListSolicitationUuid16 => 0x14,
            AdvertisementType::ListSolicitationUuid128 => 0x15,
            AdvertisementType::ServiceDataUuid16 => 0x16,
            AdvertisementType::PublicTargetAddress => 0x17,
            AdvertisementType::RandomTargetAddress => 0x18,
            AdvertisementType::Appearance => 0x19,
            AdvertisementType::AdvertisingInterval => 0x1a,
            AdvertisementType::ServiceDataUuid32 => 0x20,
            AdvertisementType::ServiceDataUuid128 => 0x21,
            AdvertisementType::URI => 0x24,
            AdvertisementType::PbADV => 0x29,
            AdvertisementType::MeshMessage => 0x2a,
            AdvertisementType::MeshBeacon => 0x2b,
            AdvertisementType::BroadcastName => 0x30,
            AdvertisementType::ManufacturerSpecificData => 0xff,
        }
    }
}

/// One structure of an advertisement payload.
pub struct AdStructure {
    pub ad_type: u8,
    pub payload: Seq<u8>,
}

/// The structures of a payload, in order, up to the first terminator.
pub open spec fn ad_structures(data: Seq<u8>) -> Seq<AdStructure>
    decreases data.len(),
{
    if data.len() == 0 || data[0] == 0 || data[0] >= data.len() {
        Seq::<AdStructure>::empty()
    } else {
        seq![AdStructure { ad_type: data[1], payload: data.subrange(2, data[0] + 1) }]
            + ad_structures(data.skip(data[0] + 1))
    }
}

/// Whether structures of type `t` list 16-bit service UUIDs.
pub open spec fn lists_uuid16(t: u8) -> bool {
    t == 0x02 || t == 0x03
}

/// Whether structures of type `t` list 32-bit service UUIDs.
pub open spec fn lists_uuid32(t: u8) -> bool {
    t == 0x04 || t == 0x05
}

/// Whether structures of type `t` list 128-bit service UUIDs.
pub open spec fn lists_uuid128(t: u8) -> bool {
    t == 0x06 || t == 0x07
}

/// Whether structures of type `t` go to the bucket of other types.
pub open spec fn is_other_type(t: u8) -> bool {
    !(0x01 <= t <= 0x07) && t != 0xff
}

/// The 16-bit value whose little-endian bytes are `b0`, `b1`.
pub open spec fn le16(b0: u8, b1: u8) -> u16 {
    (b0 + 0x100 * b1) as u16
}

/// The 32-bit value whose little-endian bytes are `b0` to `b3`.
pub open spec fn le32(b0: u8, b1: u8, b2: u8, b3: u8) -> u32 {
    (b0 + 0x100 * b1 + 0x1_0000 * b2 + 0x100_0000 * b3) as u32
}

/// The whole 16-bit words of a payload; an odd last byte is left out.
pub open spec fn le16_words(payload: Seq<u8>) -> Seq<u16> {
    Seq::new((payload.len() / 2) as nat, |k: int| le16(payload[2 * k], payload[2 * k + 1]))
}

/// The whole 32-bit words of a payload; a shorter rest is left out.
pub open spec fn le32_words(payload: Seq<u8>) -> Seq<u32> {
    Seq::new(
        (payload.len() / 4) as nat,
        |k: int| le32(payload[4 * k], payload[4 * k + 1], payload[4 * k + 2], payload[4 * k + 3]),
    )
}

/// The whole 16-byte entries of a payload; a shorter rest is left out.
pub open spec fn uuid128_entries(payload: Seq<u8>) -> Seq<Seq<u8>> {
    Seq::new((payload.len() / 16) as nat, |k: int| payload.subrange(16 * k, 16 * k + 16))
}

/// The flags of the last flags structure that has a payload of one byte.
pub open spec fn flags_of(s: Seq<AdStructure>) -> Option<u8>
    decreases s.len(),
{
    if s.len() == 0 {
        None
    } else if s.last().ad_type == 0x01 && s.last().payload.len() == 1 {
        Some(s.last().payload[0])
    } else {
        flags_of(s.drop_last())
    }
}

/// All 16-bit service UUIDs that the structures list, in order.
pub open spec fn uuids16_of(s: Seq<AdStructure>) -> Seq<u16>
    decreases s.len(),
{
    if s.len() == 0 {
        Seq::<u16>::empty()
    } else if lists_uuid16(s.last().ad_type) {
        uuids16_of(s.drop_last()) + le16_words(s.last().payload)
    } else {
        uuids16_of(s.drop_last())
    }
}

/// All 32-bit service UUIDs that the structures list, in order.
pub open spec fn uuids32_of(s: Seq<AdStructure>) -> Seq<u32>
    decreases s.len(),
{
    if s.len() == 0 {
        Seq::<u32>::empty()
    } else if lists_uuid32(s.last().ad_type) {
        uuids32_of(s.drop_last()) + le32_words(s.last().payload)
    } else {
        uuids32_of(s.drop_last())
    }
}

/// All 128-bit service UUIDs that the structures list, in order.
pub open spec fn uuids128_of(s: Seq<AdStructure>) -> Seq<Seq<u8>>
    decreases s.len(),
{
    if s.len() == 0 {
        Seq::<Seq<u8>>::empty()
    } else if lists_uuid128(s.last().ad_type) {
        uuids128_of(s.drop_last()) + uuid128_entries(s.last().payload)
    } else {
        uuids128_of(s.drop_last())
    }
}

/// All bytes of manufacturer specific data, in order.
pub open spec fn manufacturer_of(s: Seq<AdStructure>) -> Seq<u8>
    decreases s.len(),
{
    if s.len() == 0 {
        Seq::<u8>::empty()
    } else if s.last().ad_type == 0xff {
        manufacturer_of(s.drop_last()) + s.last().payload
    } else {
        manufacturer_of(s.drop_last())
    }
}

/// The structures of other types, each with the first 16 bytes of its
/// payload, padded with zeros.
pub open spec fn others_of(s: Seq<AdStructure>) -> Seq<(u8, Seq<u8>)>
    decreases s.len(),
{
    if s.len() == 0 {
        Seq::<(u8, Seq<u8>)>::empty()
    } else if is_other_type(s.last().ad_type) {
        others_of(s.drop_last()).push(
            (s.last().ad_type, fill(s.last().payload, OTHER_PAYLOAD_BYTES as nat, 0u8)),
        )
    } else {
        others_of(s.drop_last())
    }
}

/// The first `cap` of `items`, padded with `zero` where there are fewer.
pub open spec fn fill<T>(items: Seq<T>, cap: nat, zero: T) -> Seq<T> {
    Seq::new(
        cap,
        |i: int|
            if i < items.len() {
                items[i]
            } else {
                zero
            },
    )
}

/// Sixteen zero bytes.
pub open spec fn zero_uuid128() -> Seq<u8> {
    Seq::new(16, |i: int| 0u8)
}

/// The slots that `count` items take of `cap`.
pub open spec fn slots_used(count: nat, cap: nat) -> nat {
    if count < cap {
        count
    } else {
        cap
    }
}

/// What a record holds, as plain sequences: the slots of each kind, and
/// how many of them are filled. The filled slots come first.
pub struct AdvertisementView {
    pub flags: Option<u8>,
    pub service_uuids_16: Seq<u16>,
    pub uuid16_count: nat,
    pub service_uuids_32: Seq<u32>,
    pub uuid32_count: nat,
    pub service_uuids_128: Seq<Seq<u8>>,
    pub uuid128_count: nat,
    pub manufacturer_data: Seq<u8>,
    pub manufacturer_len: nat,
    pub other_data: Seq<(u8, Seq<u8>)>,
    pub other_count: nat,
}

/// The entries that are stored in `slots` when `count` of them are
/// filled: the first `count`, or all of them where `count` says more.
pub open spec fn stored<T>(slots: Seq<T>, count: nat) -> Seq<T> {
    slots.take(slots_used(count, slots.len()) as int)
}

/// The 128-bit slots as sequences of bytes.
pub open spec fn uuid128_slots_view(slots: Seq<[u8; 16]>) -> Seq<Seq<u8>> {
    Seq::new(slots.len(), |i: int| slots[i]@)
}

/// The slots of other types with their payloads as sequences of bytes.
pub open spec fn other_slots_view(slots: Seq<(u8, [u8; 16])>) -> Seq<(u8, Seq<u8>)> {
    Seq::new(slots.len(), |i: int| (slots[i].0, slots[i].1@))
}

/// The record that a run of structures fills: of each kind the entries
/// that fit, in the order in which they were listed, then zeros in the
/// slots that stay free.
pub open spec fn record_of(s: Seq<AdStructure>) -> AdvertisementView {
    AdvertisementView {
        flags: flags_of(s),
        service_uuids_16: fill(uuids16_of(s), UUID16_SLOTS as nat, 0u16),
        uuid16_count: slots_used(uuids16_of(s).len(), UUID16_SLOTS as nat),
        service_uuids_32: fill(uuids32_of(s), UUID32_SLOTS as nat, 0u32),
        uuid32_count: slots_used(uuids32_of(s).len(), UUID32_SLOTS as nat),
        service_uuids_128: fill(uuids128_of(s), UUID128_SLOTS as nat, zero_uuid128()),
        uuid128_count: slots_used(uuids128_of(s).len(), UUID128_SLOTS as nat),
        manufacturer_data: fill(manufacturer_of(s), MANUFACTURER_BYTES as nat, 0u8),
        manufacturer_len: slots_used(manufacturer_of(s).len(), MANUFACTURER_BYTES as nat),
        other_data: fill(others_of(s), OTHER_SLOTS as nat, (0u8, zero_uuid128())),
        other_count: slots_used(others_of(s).len(), OTHER_SLOTS as nat),
    }
}

/// The record that an advertisement payload decodes to.
pub open spec fn parse_advertisement(data: Seq<u8>) -> AdvertisementView {
    record_of(ad_structures(data))
}

impl AdvertisementView {
    /// The 16-bit service UUIDs that are stored.
    pub open spec fn listed_uuids16(self) -> Seq<u16> {
        stored(self.service_uuids_16, self.uuid16_count)
    }

    /// The 32-bit service UUIDs that are stored.
    pub open spec fn listed_uuids32(self) -> Seq<u32> {
        stored(self.service_uuids_32, self.uuid32_count)
    }

    /// The 128-bit service UUIDs that are stored.
    pub open spec fn listed_uuids128(self) -> Seq<Seq<u8>> {
        stored(self.service_uuids_128, self.uuid128_count)
    }

    /// Whether `uuid` is among the stored service UUIDs of its own
    /// width. A slot that is free holds no service, whatever its bytes.
    pub open spec fn advertises(self, uuid: ServiceUuid) -> bool {
        match uuid {
            ServiceUuid::Uuid16(u) => self.listed_uuids16().contains(u),
            ServiceUuid::Uuid32(u) => self.listed_uuids32().contains(u),
            ServiceUuid::Uuid128(u) => self.listed_uuids128().contains(u@),
        }
    }
}

/// The decoded fields of one advertisement. Each kind of entry has its
/// slots and the number of slots that are filled; the filled slots come
/// first, and a free slot holds zeros.
#[derive(Clone, Debug)]
pub struct AdvertisementData {
    pub flags: Option<u8>,
    pub service_uuids_16: [u16; 8],
    pub uuid16_count: usize,
    pub service_uuids_32: [u32; 4],
    pub uuid32_count: usize,
    pub service_uuids_128: [[u8; 16]; 2],
    pub uuid128_count: usize,
    pub manufacturer_data: [u8; 16],
    pub manufacturer_len: usize,
    pub other_data: [(u8, [u8; 16]); 4],
    pub other_count: usize,
}

impl View for AdvertisementData {
    type V = AdvertisementView;

    open spec fn view(&self) -> AdvertisementView {
        AdvertisementView {
            flags: self.flags,
            service_uuids_16: self.service_uuids_16@,
            uuid16_count: self.uuid16_count as nat,
            service_uuids_32: self.service_uuids_32@,
            uuid32_count: self.uuid32_count as nat,
            service_uuids_128: uuid128_slots_view(self.service_uuids_128@),
            uuid128_count: self.uuid128_count as nat,
            manufacturer_data: self.manufacturer_data@,
            manufacturer_len: self.manufacturer_len as nat,
            other_data: other_slots_view(self.other_data@),
            other_count: self.other_count as nat,
        }
    }
}

/// The stored service UUIDs of a record are the first that the structures
/// list, as many as there are slots for their width. What the free slots
/// hold is not among them.
pub proof fn lemma_listed_uuids(s: Seq<AdStructure>)
    ensures
        record_of(s).listed_uuids16() == uuids16_of(s).take(
            slots_used(uuids16_of(s).len(), UUID16_SLOTS as nat) as int,
        ),
        record_of(s).listed_uuids32() == uuids32_of(s).take(
            slots_used(uuids32_of(s).len(), UUID32_SLOTS as nat) as int,
        ),
        record_of(s).listed_uuids128() == uuids128_of(s).take(
            slots_used(uuids128_of(s).len(), UUID128_SLOTS as nat) as int,
        ),
{
    assert(record_of(s).listed_uuids16() =~= uuids16_of(s).take(
        slots_used(uuids16_of(s).len(), UUID16_SLOTS as nat) as int,
    ));
    assert(record_of(s).listed_uuids32() =~= uuids32_of(s).take(
        slots_used(uuids32_of(s).len(), UUID32_SLOTS as nat) as int,
    ));
    assert(record_of(s).listed_uuids128() =~= uuids128_of(s).take(
        slots_used(uuids128_of(s).len(), UUID128_SLOTS as nat) as int,
    ));
}

/// A record advertises a service exactly when the service is among the
/// first UUIDs of its width that the structures list, as many as there
/// are slots. Where the structures list none of that width, the record
/// advertises none: not even the UUID that is all zeros.
pub proof fn lemma_advertises_what_is_listed(s: Seq<AdStructure>, uuid: ServiceUuid)
    ensures
        record_of(s).advertises(uuid) == (match uuid {
            ServiceUuid::Uuid16(u) => uuids16_of(s).take(
                slots_used(uuids16_of(s).len(), UUID16_SLOTS as nat) as int,
            ).contains(u),
            ServiceUuid::Uuid32(u) => uuids32_of(s).take(
                slots_used(uuids32_of(s).len(), UUID32_SLOTS as nat) as int,
            ).contains(u),
            ServiceUuid::Uuid128(u) => uuids128_of(s).take(
                slots_used(uuids128_of(s).len(), UUID128_SLOTS as nat) as int,
            ).contains(u@),
        }),
        uuid is Uuid16 && uuids16_of(s).len() == 0 ==> !record_of(s).advertises(uuid),
        uuid is Uuid32 && uuids32_of(s).len() == 0 ==> !record_of(s).advertises(uuid),
        uuid is Uuid128 && uuids128_of(s).len() == 0 ==> !record_of(s).advertises(uuid),
{
    lemma_listed_uuids(s);
}

/// Adding one item to a list changes at most the slot that the item takes.
pub proof fn lemma_fill_push<T>(items: Seq<T>, cap: nat, zero: T, x: T)
    ensures
        items.len() < cap ==> fill(items.push(x), cap, zero) == fill(items, cap, zero).update(
            items.len() as int,
            x,
        ),
        items.len() >= cap ==> fill(items.push(x), cap, zero) == fill(items, cap, zero),
{
    if items.len() < cap {
        assert(fill(items.push(x), cap, zero) =~= fill(items, cap, zero).update(
            items.len() as int,
            x,
        ));
    } else {
        assert(fill(items.push(x), cap, zero) =~= fill(items, cap, zero));
    }
}

/// What one more structure adds to each field of the record.
pub proof fn lemma_structure_appended(s: Seq<AdStructure>, x: AdStructure)
    ensures
        flags_of(s.push(x)) == (if x.ad_type == 0x01 && x.payload.len() == 1 {
            Some(x.payload[0])
        } else {
            flags_of(s)
        }),
        uuids16_of(s.push(x)) == (if lists_uuid16(x.ad_type) {
            uuids16_of(s) + le16_words(x.payload)
        } else {
            uuids16_of(s)
        }),
        uuids32_of(s.push(x)) == (if lists_uuid32(x.ad_type) {
            uuids32_of(s) + le32_words(x.payload)
        } else {
            uuids32_of(s)
        }),
        uuids128_of(s.push(x)) == (if lists_uuid128(x.ad_type) {
            uuids128_of(s) + uuid128_entries(x.payload)
        } else {
            uuids128_of(s)
        }),
        manufacturer_of(s.push(x)) == (if x.ad_type == 0xff {
            manufacturer_of(s) + x.payload
        } else {
            manufacturer_of(s)
        }),
        others_of(s.push(x)) == (if is_other_type(x.ad_type) {
            others_of(s).push((x.ad_type, fill(x.payload, OTHER_PAYLOAD_BYTES as nat, 0u8)))
        } else {
            others_of(s)
        }),
{
    assert(s.push(x).drop_last() =~= s);
    assert(s.push(x).last() == x);
}

proof fn lemma_le16_bits(b0: u8, b1: u8)
    by (bit_vector)
    ensures
        (b0 as u16) | ((b1 as u16) << 8) == (b0 as u16) + 0x100 * (b1 as u16),
{
}

proof fn lemma_le32_bits(b0: u8, b1: u8, b2: u8, b3: u8)
    by (bit_vector)
    ensures
        (b0 as u32) | ((b1 as u32) << 8) | ((b2 as u32) << 16) | ((b3 as u32) << 24) == (b0 as u32)
            + 0x100 * (b1 as u32) + 0x1_0000 * (b2 as u32) + 0x100_0000 * (b3 as u32),
{
}

/// Stores the 16-bit words of `payload` in the slots that are still free.
fn store_uuids16(
    slots: &mut [u16; 8],
    used: usize,
    payload: &[u8],
    Ghost(seen): Ghost<Seq<u16>>,
) -> (now_used: usize)
    requires
        used == slots_used(seen.len(), UUID16_SLOTS as nat),
        old(slots)@ == fill(seen, UUID16_SLOTS as nat, 0u16),
    ensures
        final(slots)@ == fill(seen + le16_words(payload@), UUID16_SLOTS as nat, 0u16),
        now_used == slots_used((seen + le16_words(payload@)).len(), UUID16_SLOTS as nat),
{
    let mut used: usize = used;
    let mut j: usize = 0;
    let ghost words = le16_words(payload@);
    proof {
        assert(seen + words.take(0) =~= seen);
    }
    while j + 1 < payload.len()
        invariant
            j % 2 == 0,
            j <= payload.len(),
            words == le16_words(payload@),
            used == slots_used((seen + words.take(j as int / 2)).len(), UUID16_SLOTS as nat),
            slots@ == fill(seen + words.take(j as int / 2), UUID16_SLOTS as nat, 0u16),
        decreases payload.len() - j,
    {
        let ghost k = j as int / 2;
        let ghost so_far = seen + words.take(k);
        let b0: u8 = payload[j];
        let b1: u8 = payload[j + 1];
        let uuid: u16 = (b0 as u16) | ((b1 as u16) << 8);
        proof {
            lemma_le16_bits(b0, b1);
            assert(uuid == words[k]);
            lemma_fill_push(so_far, UUID16_SLOTS as nat, 0u16, uuid);
            assert(seen + words.take(k + 1) =~= so_far.push(uuid));
        }
        if used < UUID16_SLOTS {
            slots[used] = uuid;
            used += 1;
        }
        j += 2;
    }
    proof {
        assert(words.take(j as int / 2) =~= words);
    }
    used
}

/// Stores the 32-bit words of `payload` in the slots that are still free.
fn store_uuids32(
    slots: &mut [u32; 4],
    used: usize,
    payload: &[u8],
    Ghost(seen): Ghost<Seq<u32>>,
) -> (now_used: usize)
    requires
        used == slots_used(seen.len(), UUID32_SLOTS as nat),
        old(slots)@ == fill(seen, UUID32_SLOTS as nat, 0u32),
    ensures
        final(slots)@ == fill(seen + le32_words(payload@), UUID32_SLOTS as nat, 0u32),
        now_used == slots_used((seen + le32_words(payload@)).len(), UUID32_SLOTS as nat),
{
    let mut used: usize = used;
    let mut j: usize = 0;
    let ghost words = le32_words(payload@);
    proof {
        assert(seen + words.take(0) =~= seen);
    }
    while j + 3 < payload.len()
        invariant
            j % 4 == 0,
            j <= payload.len(),
            words == le32_words(payload@),
            used == slots_used((seen + words.take(j as int / 4)).len(), UUID32_SLOTS as nat),
            slots@ == fill(seen + words.take(j as int / 4), UUID32_SLOTS as nat, 0u32),
        decreases payload.len() - j,
    {
        let ghost k = j as int / 4;
        let ghost so_far = seen + words.take(k);
        let b0: u8 = payload[j];
        let b1: u8 = payload[j + 1];
        let b2: u8 = payload[j + 2];
        let b3: u8 = payload[j + 3];
        let uuid: u32 = (b0 as u32) | ((b1 as u32) << 8) | ((b2 as u32) << 16) | ((b3 as u32)
            << 24);
        proof {
            lemma_le32_bits(b0, b1, b2, b3);
            assert(uuid == words[k]);
            lemma_fill_push(so_far, UUID32_SLOTS as nat, 0u32, uuid);
            assert(seen + words.take(k + 1) =~= so_far.push(uuid));
        }
        if used < UUID32_SLOTS {
            slots[used] = uuid;
            used += 1;
        }
        j += 4;
    }
    proof {
        assert(words.take(j as int / 4) =~= words);
    }
    used
}

/// The sixteen bytes of `payload` that start at `at`.
fn copy_uuid128(payload: &[u8], at: usize) -> (uuid: [u8; 16])
    requires
        at + 16 <= payload.len(),
    ensures
        uuid@ == payload@.subrange(at as int, at + 16),
{
    let mut uuid: [u8; 16] = [0;16];
    let mut n: usize = 0;
    while n < 16
        invariant
            n <= 16,
            at + 16 <= payload.len(),
            forall|i: int| 0 <= i < n ==> uuid@[i] == payload@[at + i],
        decreases 16 - n,
    {
        uuid[n] = payload[at + n];
        n += 1;
    }
    proof {
        assert(uuid@ =~= payload@.subrange(at as int, at + 16));
    }
    uuid
}

/// Stores the 16-byte entries of `payload` in the slots that are still free.
fn store_uuids128(
    slots: &mut [[u8; 16]; 2],
    used: usize,
    payload: &[u8],
    Ghost(seen): Ghost<Seq<Seq<u8>>>,
) -> (now_used: usize)
    requires
        used == slots_used(seen.len(), UUID128_SLOTS as nat),
        uuid128_slots_view(old(slots)@) == fill(seen, UUID128_SLOTS as nat, zero_uuid128()),
    ensures
        uuid128_slots_view(final(slots)@) == fill(
            seen + uuid128_entries(payload@),
            2,
            zero_uuid128(),
        ),
        now_used == slots_used((seen + uuid128_entries(payload@)).len(), UUID128_SLOTS as nat),
{
    let mut used: usize = used;
    let mut j: usize = 0;
    let ghost entries = uuid128_entries(payload@);
    proof {
        assert(seen + entries.take(0) =~= seen);
    }
    while j + 15 < payload.len()
        invariant
            j % 16 == 0,
            j <= payload.len(),
            entries == uuid128_entries(payload@),
            used == slots_used((seen + entries.take(j as int / 16)).len(), UUID128_SLOTS as nat),
            uuid128_slots_view(slots@) == fill(
                seen + entries.take(j as int / 16),
                2,
                zero_uuid128(),
            ),
        decreases payload.len() - j,
    {
        let ghost k = j as int / 16;
        let ghost so_far = seen + entries.take(k);
        let ghost before = slots@;
        let uuid: [u8; 16] = copy_uuid128(payload, j);
        proof {
            assert(uuid@ == entries[k]);
            lemma_fill_push(so_far, UUID128_SLOTS as nat, zero_uuid128(), uuid@);
            assert(seen + entries.take(k + 1) =~= so_far.push(uuid@));
        }
        if used < UUID128_SLOTS {
            slots[used] = uuid;
            used += 1;
            proof {
                assert(uuid128_slots_view(slots@) =~= uuid128_slots_view(before).update(
                    used - 1,
                    uuid@,
                ));
            }
        }
        j += 16;
    }
    proof {
        assert(entries.take(j as int / 16) =~= entries);
    }
    used
}

/// Stores the bytes of `payload` in the manufacturer bytes that are still
/// free.
fn store_manufacturer(
    slots: &mut [u8; 16],
    used: usize,
    payload: &[u8],
    Ghost(seen): Ghost<Seq<u8>>,
) -> (now_used: usize)
    requires
        used == slots_used(seen.len(), MANUFACTURER_BYTES as nat),
        old(slots)@ == fill(seen, MANUFACTURER_BYTES as nat, 0u8),
    ensures
        final(slots)@ == fill(seen + payload@, MANUFACTURER_BYTES as nat, 0u8),
        now_used == slots_used((seen + payload@).len(), MANUFACTURER_BYTES as nat),
{
    let mut used: usize = used;
    let mut j: usize = 0;
    proof {
        assert(seen + payload@.take(0) =~= seen);
    }
    while j < payload.len()
        invariant
            j <= payload.len(),
            used == slots_used((seen + payload@.take(j as int)).len(), MANUFACTURER_BYTES as nat),
            slots@ == fill(seen + payload@.take(j as int), MANUFACTURER_BYTES as nat, 0u8),
        decreases payload.len() - j,
    {
        let ghost so_far = seen + payload@.take(j as int);
        let byte: u8 = payload[j];
        proof {
            lemma_fill_push(so_far, MANUFACTURER_BYTES as nat, 0u8, byte);
            assert(seen + payload@.take(j + 1) =~= so_far.push(byte));
        }
        if used < MANUFACTURER_BYTES {
            slots[used] = byte;
            used += 1;
        }
        j += 1;
    }
    proof {
        assert(payload@.take(j as int) =~= payload@);
    }
    used
}

/// The first sixteen bytes of `payload`, padded with zeros.
fn copy_other_payload(payload: &[u8]) -> (buf: [u8; 16])
    ensures
        buf@ == fill(payload@, OTHER_PAYLOAD_BYTES as nat, 0u8),
{
    let mut buf: [u8; 16] = [0;16];
    let len: usize = if payload.len() < OTHER_PAYLOAD_BYTES {
        payload.len()
    } else {
        OTHER_PAYLOAD_BYTES
    };
    let mut n: usize = 0;
    while n < len
        invariant
            n <= len <= 16,
            len <= payload.len(),
            forall|i: int| 0 <= i < n ==> buf@[i] == payload@[i],
            forall|i: int| n <= i < 16 ==> buf@[i] == 0,
        decreases len - n,
    {
        buf[n] = payload[n];
        n += 1;
    }
    proof {
        assert(buf@ =~= fill(payload@, OTHER_PAYLOAD_BYTES as nat, 0u8));
    }
    buf
}

impl AdvertisementData {
    /// The record of an advertisement that carries nothing.
    pub fn new() -> (ad: Self)
        ensures
            ad@ == record_of(Seq::<AdStructure>::empty()),
    {
        let ad = Self {
            flags: None,
            service_uuids_16: [0;8],
            uuid16_count: 0,
            service_uuids_32: [0;4],
            uuid32_count: 0,
            service_uuids_128: [[0;16];2],
            uuid128_count: 0,
            manufacturer_data: [0;16],
            manufacturer_len: 0,
            other_data: [(0, [0;16]);4],
            other_count: 0,
        };
        proof {
            let r = record_of(Seq::<AdStructure>::empty());
            assert(ad@.service_uuids_16 =~= r.service_uuids_16);
            assert(ad@.service_uuids_32 =~= r.service_uuids_32);
            assert(ad@.service_uuids_128 =~~= r.service_uuids_128);
            assert(ad@.manufacturer_data =~= r.manufacturer_data);
            assert(ad@.other_data =~~= r.other_data);
        }
        ad
    }

    /// Decodes an advertisement payload. Every input is accepted: a
    /// malformed rest is ignored, and what does not fit is dropped.
    pub fn new_from_bytes(data: &[u8]) -> (ad: Self)
        ensures
            ad@ == parse_advertisement(data@),
    {
        let mut ad = AdvertisementData::new();
        let mut i: usize = 0;
        let ghost mut done: Seq<AdStructure> = Seq::empty();
        proof {
            assert(data@.skip(0) =~= data@);
            assert(done + ad_structures(data@) =~= ad_structures(data@));
        }
        while i < data.len()
            invariant
                i <= data.len(),
                ad_structures(data@) == done + ad_structures(data@.skip(i as int)),
                ad@ == record_of(done),
            ensures
                ad_structures(data@) == done,
                ad@ == record_of(done),
            decreases data.len() - i,
        {
            let ghost rest = data@.skip(i as int);
            let length: usize = data[i] as usize;
            if length == 0 || length >= data.len() - i {
                proof {
                    assert(ad_structures(rest) =~= Seq::<AdStructure>::empty());
                    assert(done + ad_structures(rest) =~= done);
                }
                break ;
            }
            let ad_type: u8 = data[i + 1];
            let payload: &[u8] = vstd::slice::slice_subrange(data, i + 2, i + length + 1);
            let ghost x = AdStructure { ad_type, payload: payload@ };
            proof {
                assert(payload@ =~= rest.subrange(2, length + 1));
                assert(rest.skip(length + 1) =~= data@.skip(i + length + 1));
                assert(done + ad_structures(rest) =~= done.push(x) + ad_structures(
                    data@.skip(i + length + 1),
                ));
                lemma_structure_appended(done, x);
            }
            match ad_type {
                0x01 => {
                    if payload.len() == 1 {
                        ad.flags = Some(payload[0]);
                    }
                },
                0x02 | 0x03 => {
                    ad.uuid16_count =
                    store_uuids16(
                        &mut ad.service_uuids_16,
                        ad.uuid16_count,
                        payload,
                        Ghost(uuids16_of(done)),
                    );
                },
                0x04 | 0x05 => {
                    ad.uuid32_count =
                    store_uuids32(
                        &mut ad.service_uuids_32,
                        ad.uuid32_count,
                        payload,
                        Ghost(uuids32_of(done)),
                    );
                },
                0x06 | 0x07 => {
                    ad.uuid128_count =
                    store_uuids128(
                        &mut ad.service_uuids_128,
                        ad.uuid128_count,
                        payload,
                        Ghost(uuids128_of(done)),
                    );
                },
                0xFF => {
                    ad.manufacturer_len =
                    store_manufacturer(
                        &mut ad.manufacturer_data,
                        ad.manufacturer_len,
                        payload,
                        Ghost(manufacturer_of(done)),
                    );
                },
                _ => {
                    let ghost before = ad.other_data@;
                    let buf: [u8; 16] = copy_other_payload(payload);
                    proof {
                        lemma_fill_push(
                            others_of(done),
                            OTHER_SLOTS as nat,
                            (0u8, zero_uuid128()),
                            (ad_type, buf@),
                        );
                    }
                    if ad.other_count < OTHER_SLOTS {
                        let slot: usize = ad.other_count;
                        ad.other_data[slot] = (ad_type, buf);
                        ad.other_count = slot + 1;
                        proof {
                            assert(other_slots_view(ad.other_data@) =~= other_slots_view(
                                before,
                            ).update(slot as int, (ad_type, buf@)));
                        }
                    }
                },
            }
            proof {
                done = done.push(x);
            }
            i += length + 1;
        }
        proof {
            if i >= data.len() {
                assert(ad_structures(data@.skip(i as int)) =~= Seq::<AdStructure>::empty());
            }
        }
        ad
    }

    /// Whether `uuid` is among the stored service UUIDs of its own width.
    /// Only the slots that are filled are looked at: a free slot holds no
    /// service. A 16-bit UUID is never found among the 32-bit or 128-bit
    /// entries, and so on.
    pub fn advertises(&self, uuid: &ServiceUuid) -> (found: bool)
        ensures
            found == self@.advertises(*uuid),
    {
        match uuid {
            ServiceUuid::Uuid16(uuid_16) => {
                let filled: usize = if self.uuid16_count < UUID16_SLOTS {
                    self.uuid16_count
                } else {
                    UUID16_SLOTS
                };
                let ghost listed = self@.listed_uuids16();
                let mut found = false;
                let mut i: usize = 0;
                while i < filled
                    invariant
                        i <= filled <= 8,
                        listed == self.service_uuids_16@.take(filled as int),
                        found <==> exists|k: int| 0 <= k < i && listed[k] == *uuid_16,
                    decreases filled - i,
                {
                    assert(listed[i as int] == self.service_uuids_16@[i as int]);
                    if self.service_uuids_16[i] == *uuid_16 {
                        found = true;
                    }
                    i += 1;
                }
                found
            },
            ServiceUuid::Uuid32(uuid_32) => {
                let filled: usize = if self.uuid32_count < UUID32_SLOTS {
                    self.uuid32_count
                } else {
                    UUID32_SLOTS
                };
                let ghost listed = self@.listed_uuids32();
                let mut found = false;
                let mut i: usize = 0;
                while i < filled
                    invariant
                        i <= filled <= 4,
                        listed == self.service_uuids_32@.take(filled as int),
                        found <==> exists|k: int| 0 <= k < i && listed[k] == *uuid_32,
                    decreases filled - i,
                {
                    assert(listed[i as int] == self.service_uuids_32@[i as int]);
                    if self.service_uuids_32[i] == *uuid_32 {
                        found = true;
                    }
                    i += 1;
                }
                found
            },
            ServiceUuid::Uuid128(uuid_128) => {
                let filled: usize = if self.uuid128_count < UUID128_SLOTS {
                    self.uuid128_count
                } else {
                    UUID128_SLOTS
                };
                let ghost listed = self@.listed_uuids128();
                let mut found = false;
                let mut i: usize = 0;
                while i < filled
                    invariant
                        i <= filled <= 2,
                        listed == uuid128_slots_view(self.service_uuids_128@).take(filled as int),
                        found <==> exists|k: int| 0 <= k < i && listed[k] == uuid_128@,
                    decreases filled - i,
                {
                    assert(listed[i as int] == self.service_uuids_128@[i as int]@);
                    if same_uuid128(&self.service_uuids_128[i], uuid_128) {
                        found = true;
                    }
                    i += 1;
                }
                found
            },
        }
    }

    /// Whether the service is among the stored service UUIDs of its own
    /// width, for a UUID given in any form that converts to a
    /// `ServiceUuid`: a `u16`, a `u32` or sixteen bytes. An advertisement
    /// that lists no service of that width advertises none. What holds of
    /// the answer is stated over
    /// the converted value, and so for the conversions that state what
    /// they return; those of this module do.
    pub fn is_advertising_service<U: Into<ServiceUuid>>(&self, uuid: U) -> (found: bool)
        ensures
            U::obeys_into_spec() ==> found == self@.advertises(uuid.into_spec()),
    {
        let uuid: ServiceUuid = uuid.into();
        self.advertises(&uuid)
    }
}

/// Whether two 128-bit UUIDs agree in every byte.
fn same_uuid128(a: &[u8; 16], b: &[u8; 16]) -> (same: bool)
    ensures
        same == (a@ == b@),
{
    let mut n: usize = 0;
    while n < 16
        invariant
            n <= 16,
            forall|i: int| 0 <= i < n ==> a@[i] == b@[i],
        decreases 16 - n,
    {
        if a[n] != b[n] {
            return false;
        }
        n += 1;
    }
    proof {
        assert(a@ =~= b@);
    }
    true
}

} // verus!

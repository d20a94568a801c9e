//! Ranging descriptor nested IE: ranging beacon slot duration, beacon
//! interval, first ranging slot and the ranging management table.
use vstd::prelude::*;
use crate::mac::format::nested_ie::{ShortIeHeader, MAX_SHORT_LENGTH, spec_short_descriptor};
use crate::mac::format::serializer::{
    FixDeserializable, FixSerializable, FixSerializationLength, NoSpaceLeft, Placeholder,
    ReadBuffer, WriteBuffer,
};

verus! {

broadcast use vstd::seq_lib::group_seq_properties;

pub const SUB_ID: u8 = 0x5b;

pub const MAX_RSB_DURATION: u16 = 0x7fff;

const RBS_INDEX_MAX: u16 = 0x7ff;

#[derive(Clone, Copy, Eq, PartialEq, Structural, Debug)]
pub struct RangingDescriptor {
    /// ranging beacon slot duration in RSTU, 15 bit max
    pub rbs_duration: u16,
    /// interval between consequent beacon in RSTU
    pub beacon_interval: u32,
    /// start of ranging period if present, never zero
    pub first_rcm_slot: Option<u32>,
}

#[derive(Clone, Copy, Eq, PartialEq, Structural, Debug)]
pub enum RmSubPeriodUsage {
    /// Ranging contention access period
    Rcap,
    /// Ranging contention-free period
    Rcfp,
}

/// Ranging management table entry: start slot in bits 0..=10, end slot in
/// bits 11..=21, usage in bit 22; three octets on the wire.
#[derive(Clone, Copy, Eq, PartialEq, Structural, Debug)]
pub struct RmTableElement(u32);

impl View for RmTableElement {
    type V = u32;

    closed spec fn view(&self) -> u32 {
        self.0
    }
}

pub open spec fn spec_start(v: u32) -> u16 {
    (v & 0x7ff) as u16
}

pub open spec fn spec_end(v: u32) -> u16 {
    ((v >> 11) & 0x7ff) as u16
}

pub open spec fn spec_usage(v: u32) -> RmSubPeriodUsage {
    if (v >> 22) & 1 == 0 {
        RmSubPeriodUsage::Rcap
    } else {
        RmSubPeriodUsage::Rcfp
    }
}

pub open spec fn spec_usage_bit(usage: RmSubPeriodUsage) -> u32 {
    match usage {
        RmSubPeriodUsage::Rcap => 0,
        RmSubPeriodUsage::Rcfp => 1,
    }
}

/// The entry value for a sub-period.
pub open spec fn spec_element(start: u16, end: u16, usage: RmSubPeriodUsage) -> u32 {
    (start as u32) | ((end as u32) << 11) | (spec_usage_bit(usage) << 22)
}

impl RmTableElement {
    pub closed spec fn from_view(v: u32) -> RmTableElement {
        RmTableElement(v)
    }

    pub proof fn lemma_view(v: u32, e: RmTableElement)
        ensures
            Self::from_view(v)@ == v,
            Self::from_view(e@) == e,
    {
    }

    pub fn start(&self) -> (r: u16)
        ensures
            r == spec_start(self@),
    {
        let v = self.0;
        assert((v as u16) & 0x7ff == (v & 0x7ff) as u16) by (bit_vector);
        self.0 as u16 & RBS_INDEX_MAX
    }

    pub fn set_start(&mut self, value: u16)
        requires
            value <= 0x7ff,
        ensures
            final(self)@ == (old(self)@ & !0x7ffu32) | (value as u32),
    {
        self.0 = (self.0 & !(RBS_INDEX_MAX as u32)) | (value as u32);
    }

    pub fn end(&self) -> (r: u16)
        ensures
            r == spec_end(self@),
    {
        let v = self.0;
        assert(((v >> 11) as u16) & 0x7ff == ((v >> 11) & 0x7ff) as u16) by (bit_vector);
        (self.0 >> 11) as u16 & RBS_INDEX_MAX
    }

    pub fn set_end(&mut self, value: u16)
        requires
            value <= 0x7ff,
        ensures
            final(self)@ == (old(self)@ & !(0x7ffu32 << 11)) | ((value as u32) << 11),
    {
        self.0 = (self.0 & !((RBS_INDEX_MAX as u32) << 11)) | ((value as u32) << 11);
    }

    pub fn usage(&self) -> (r: RmSubPeriodUsage)
        ensures
            r == spec_usage(self@),
    {
        if self.0 >> 22 & 0x1 == 0 {
            RmSubPeriodUsage::Rcap
        } else {
            RmSubPeriodUsage::Rcfp
        }
    }

    pub fn set_usage(&mut self, value: RmSubPeriodUsage)
        ensures
            final(self)@ == (old(self)@ & !(1u32 << 22)) | (spec_usage_bit(value) << 22),
    {
        let val: u32 = match value {
            RmSubPeriodUsage::Rcap => 0,
            RmSubPeriodUsage::Rcfp => 1,
        };
        self.0 = (self.0 & !(1u32 << 22)) | (val << 22);
    }
}

impl Default for RmTableElement {
    fn default() -> (r: Self)
        ensures
            r@ == 0,
    {
        RmTableElement(0)
    }
}

/// Setting start, end and usage of an empty entry gives the entry value of
/// that sub-period, which reads back the three fields.
pub proof fn law_rm_element_fields(start: u16, end: u16, usage: RmSubPeriodUsage)
    requires
        start <= 0x7ff,
        end <= 0x7ff,
    ensures
        ({
            let v0 = (0u32 & !0x7ffu32) | (start as u32);
            let v1 = (v0 & !(0x7ffu32 << 11)) | ((end as u32) << 11);
            let v2 = (v1 & !(1u32 << 22)) | (spec_usage_bit(usage) << 22);
            v2 == spec_element(start, end, usage)
        }),
        spec_start(spec_element(start, end, usage)) == start,
        spec_end(spec_element(start, end, usage)) == end,
        spec_usage(spec_element(start, end, usage)) == usage,
        spec_element(start, end, usage) < 0x80_0000,
{
    let u = spec_usage_bit(usage);
    assert(u <= 1);
    assert({
        let v0 = (0u32 & !0x7ffu32) | (start as u32);
        let v1 = (v0 & !(0x7ffu32 << 11)) | ((end as u32) << 11);
        let v2 = (v1 & !(1u32 << 22)) | (u << 22);
        v2 == (start as u32) | ((end as u32) << 11) | (u << 22)
    }) by (bit_vector)
        requires
            start <= 0x7ff,
            end <= 0x7ff,
            u <= 1,
    ;
    let v = (start as u32) | ((end as u32) << 11) | (u << 22);
    assert((v & 0x7ff) as u16 == start && ((v >> 11) & 0x7ff) as u16 == end && (v >> 22) & 1 == u && v < 0x80_0000) by (bit_vector)
        requires
            v == (start as u32) | ((end as u32) << 11) | (u << 22),
            start <= 0x7ff,
            end <= 0x7ff,
            u <= 1,
    ;
}

/// The three low octets of an entry value, least significant first.
pub open spec fn spec_element_bytes(v: u32) -> Seq<u8> {
    seq![(v & 0xff) as u8, ((v >> 8) & 0xff) as u8, ((v >> 16) & 0xff) as u8]
}

/// The entry value in three octets, with the reserved bit 23 cleared.
pub open spec fn spec_element_from_bytes(b: Seq<u8>) -> u32 {
    ((b[0] as u32) | ((b[1] as u32) << 8) | ((b[2] as u32) << 16)) & !0x80_0000u32
}

impl FixSerializationLength for RmTableElement {
    open spec fn spec_ser_len() -> nat {
        3
    }

    fn ser_len() -> (n: usize) {
        3
    }
}

impl FixSerializable for RmTableElement {
    open spec fn spec_serialize(&self) -> Seq<u8> {
        spec_element_bytes(self@)
    }

    proof fn lemma_serialize_len(&self) {
        crate::mac::format::primitives::lemma_primitive_roundtrip();
    }

    fn serialize(&self) -> (r: Vec<u8>) {
        let v = self.0;
        let mut r = Vec::new();
        r.push((v & 0xff) as u8);
        r.push(((v >> 8) & 0xff) as u8);
        r.push(((v >> 16) & 0xff) as u8);
        assert(r@ =~= spec_element_bytes(v));
        r
    }
}

impl FixDeserializable for RmTableElement {
    open spec fn spec_deserialize(buf: Seq<u8>) -> RmTableElement {
        RmTableElement::from_view(spec_element_from_bytes(buf))
    }

    fn deserialize(buf: &[u8]) -> (r: RmTableElement) {
        let val = (buf[0] as u32) | ((buf[1] as u32) << 8) | ((buf[2] as u32) << 16);
        RmTableElement(val & !0x80_0000u32)
    }
}

/// An entry value below bit 23 survives its three-octet encoding.
pub proof fn law_rm_element_roundtrip(v: u32)
    requires
        v < 0x80_0000,
    ensures
        spec_element_from_bytes(spec_element_bytes(v)) == v,
        spec_element_bytes(v).len() == 3,
{
    let b0 = (v & 0xff) as u8;
    let b1 = ((v >> 8) & 0xff) as u8;
    let b2 = ((v >> 16) & 0xff) as u8;
    assert(((((v & 0xff) as u8) as u32) | ((((v >> 8) & 0xff) as u8) as u32) << 8 | ((((v >> 16) & 0xff) as u8) as u32) << 16) & !0x80_0000u32 == v) by (bit_vector)
        requires
            v < 0x80_0000,
    ;
}

#[derive(Clone, Copy, Eq, PartialEq, Structural, Debug)]
pub enum BuilderError {
    NoSpaceLeft,
    InvalidRbsDuration,
    BeaconIntervalOverflow,
    RmTableOverflow,
    IncorrectRcmSlotSpec,
}

/// The encoded entries of a ranging management table, in order.
pub open spec fn spec_elements_bytes(entries: Seq<u32>) -> Seq<u8>
    decreases entries.len(),
{
    if entries.len() == 0 {
        Seq::empty()
    } else {
        spec_element_bytes(entries[0]) + spec_elements_bytes(entries.drop_first())
    }
}

pub proof fn lemma_elements_bytes_push(entries: Seq<u32>, v: u32)
    ensures
        spec_elements_bytes(entries.push(v)) == spec_elements_bytes(entries) + spec_element_bytes(v),
        spec_elements_bytes(entries).len() == 3 * entries.len(),
    decreases entries.len(),
{
    if entries.len() == 0 {
        assert(entries.push(v).drop_first() =~= Seq::<u32>::empty());
        assert(spec_elements_bytes(Seq::<u32>::empty()) == Seq::<u8>::empty());
        assert(entries.push(v)[0] == v);
        assert(spec_elements_bytes(entries.push(v)) =~= spec_element_bytes(v));
    } else {
        lemma_elements_bytes_push(entries.drop_first(), v);
        assert(entries.push(v).drop_first() =~= entries.drop_first().push(v));
        assert(spec_elements_bytes(entries.push(v)) =~= spec_elements_bytes(entries) + spec_element_bytes(v));
    }
}

/// First word of the descriptor: slot duration above bit 0, bit 0 set for a
/// 32-bit beacon interval.
pub open spec fn spec_rd_word(rbs_duration: u16, long_interval: bool) -> u16 {
    (rbs_duration << 1) | (if long_interval { 1u16 } else { 0u16 })
}

/// A 16- or 32-bit field of the descriptor.
pub open spec fn spec_rd_field(value: u32, long_interval: bool) -> Seq<u8> {
    if long_interval {
        value.spec_serialize()
    } else {
        (value as u16).spec_serialize()
    }
}

/// Content of a ranging descriptor IE. The beacon interval and the first
/// ranging slot take 32 bits when the interval does not fit 16 bits.
pub open spec fn spec_rd_body(rbs_duration: u16, beacon_interval: u32, first_slot: u32, entries: Seq<u32>) -> Seq<u8> {
    let long = beacon_interval > 0xffff;
    spec_rd_word(rbs_duration, long).spec_serialize() + spec_rd_field(beacon_interval, long)
        + spec_rd_field(first_slot, long) + seq![entries.len() as u8] + spec_elements_bytes(entries)
}

/// The descriptor and the table octets at the front of `bytes`, or `None`
/// when they are cut short.
pub open spec fn spec_rd_parse(bytes: Seq<u8>) -> Option<(RangingDescriptor, Seq<u8>)> {
    if bytes.len() < 2 {
        None
    } else {
        let word = u16::spec_deserialize(bytes.subrange(0, 2));
        let long = word & 1 != 0;
        let n: int = if long { 4 } else { 2 };
        if bytes.len() < 2 + n {
            None
        } else {
            let interval: u32 = if long {
                u32::spec_deserialize(bytes.subrange(2, 6))
            } else {
                u16::spec_deserialize(bytes.subrange(2, 4)) as u32
            };
            if bytes.len() < 2 + 2 * n {
                None
            } else {
                let slot: u32 = if long {
                    u32::spec_deserialize(bytes.subrange(6, 10))
                } else {
                    u16::spec_deserialize(bytes.subrange(4, 6)) as u32
                };
                if bytes.len() < 3 + 2 * n {
                    None
                } else {
                    let count = bytes[2 + 2 * n];
                    let table_start = 3 + 2 * n;
                    if bytes.len() < table_start + 3 * count {
                        None
                    } else {
                        Some(
                            (
                                RangingDescriptor {
                                    rbs_duration: word >> 1,
                                    beacon_interval: interval,
                                    first_rcm_slot: if slot == 0 { None } else { Some(slot) },
                                },
                                bytes.subrange(table_start, table_start + 3 * count),
                            ),
                        )
                    }
                }
            }
        }
    }
}

/// Iterator over the entries of a ranging management table.
pub struct SubPeriodIter<'a> {
    buffer: ReadBuffer<'a>,
}

impl<'a> View for SubPeriodIter<'a> {
    type V = Seq<u8>;

    closed spec fn view(&self) -> Seq<u8> {
        self.buffer@
    }
}

impl<'a> SubPeriodIter<'a> {
    /// The next entry, while three octets are left.
    pub fn next(&mut self) -> (r: Option<RmTableElement>)
        ensures
            r is Some <==> old(self)@.len() >= 3,
            r matches Some(e) ==> e@ == spec_element_from_bytes(old(self)@.subrange(0, 3))
                && final(self)@ == old(self)@.subrange(3, old(self)@.len() as int),
            r is None ==> final(self)@ == old(self)@,
    {
        match self.buffer.pop_field::<RmTableElement>() {
            Ok(e) => {
                proof {
                    RmTableElement::lemma_view(spec_element_from_bytes(old(self)@.subrange(0, 3)), e);
                }
                Some(e)
            },
            Err(_) => None,
        }
    }
}

/// Parses the content of a ranging descriptor IE.
pub fn parse<'a>(mut buffer: ReadBuffer<'a>) -> (r: Result<(RangingDescriptor, SubPeriodIter<'a>), NoSpaceLeft>)
    ensures
        r is Ok <==> spec_rd_parse(buffer@) is Some,
        r matches Ok((desc, iter)) ==> spec_rd_parse(buffer@) == Some((desc, iter@)),
{
    let ghost bytes = buffer@;
    let word: u16 = match buffer.pop_field() {
        Ok(w) => w,
        Err(e) => return Err(e),
    };
    let long_interval = word & 0x1 != 0;
    let rbs_duration = word >> 1;
    let beacon_interval: u32 = if long_interval {
        match buffer.pop_field::<u32>() {
            Ok(v) => v,
            Err(e) => return Err(e),
        }
    } else {
        match buffer.pop_field::<u16>() {
            Ok(v) => v as u32,
            Err(e) => return Err(e),
        }
    };
    proof {
        if long_interval {
            assert(buffer@ =~= bytes.subrange(6, bytes.len() as int));
            assert(bytes.subrange(2, bytes.len() as int).subrange(0, 4) =~= bytes.subrange(2, 6));
        } else {
            assert(buffer@ =~= bytes.subrange(4, bytes.len() as int));
            assert(bytes.subrange(2, bytes.len() as int).subrange(0, 2) =~= bytes.subrange(2, 4));
        }
    }
    let first_rcm_slot: u32 = if long_interval {
        match buffer.pop_field::<u32>() {
            Ok(v) => v,
            Err(e) => return Err(e),
        }
    } else {
        match buffer.pop_field::<u16>() {
            Ok(v) => v as u32,
            Err(e) => return Err(e),
        }
    };
    proof {
        if long_interval {
            assert(bytes.subrange(6, bytes.len() as int).subrange(0, 4) =~= bytes.subrange(6, 10));
        } else {
            assert(bytes.subrange(4, bytes.len() as int).subrange(0, 2) =~= bytes.subrange(4, 6));
        }
    }
    let rm_table_length: u8 = match buffer.pop_field() {
        Ok(v) => v,
        Err(e) => return Err(e),
    };
    let table_len = rm_table_length as usize * 3;
    let table_buffer = match buffer.pop_buffer(table_len) {
        Ok(b) => b,
        Err(e) => return Err(e),
    };
    let n: usize = if long_interval { 4 } else { 2 };
    proof {
        assert(rm_table_length == bytes[2 + 2 * n]);
        assert(table_buffer@ =~= bytes.subrange(3 + 2 * n, 3 + 2 * n + 3 * rm_table_length));
        assert(word == u16::spec_deserialize(bytes.subrange(0, 2)));
    }

    let desc = RangingDescriptor {
        rbs_duration,
        beacon_interval,
        first_rcm_slot: if first_rcm_slot == 0 { None } else { Some(first_rcm_slot) },
    };
    let iter = SubPeriodIter { buffer: table_buffer };
    proof {
        let sp = spec_rd_parse(bytes);
        assert(sp is Some);
        assert(sp.unwrap().1 == iter@);
        assert(sp.unwrap().0.rbs_duration == desc.rbs_duration);
        assert(sp.unwrap().0.beacon_interval == desc.beacon_interval);
        assert(sp.unwrap().0.first_rcm_slot == desc.first_rcm_slot);
        assert(sp.unwrap().0 == desc);
    }
    Ok((desc, iter))
}

/// A ranging descriptor reads back as the descriptor it was written from,
/// followed by its table entries.
pub proof fn law_rd_roundtrip(rbs_duration: u16, beacon_interval: u32, first_slot: u32, entries: Seq<u32>, rest: Seq<u8>)
    requires
        rbs_duration < 0x8000,
        entries.len() <= 0xff,
        beacon_interval <= 0xffff ==> first_slot <= 0xffff,
    ensures
        spec_rd_parse(spec_rd_body(rbs_duration, beacon_interval, first_slot, entries) + rest) == Some(
            (
                RangingDescriptor {
                    rbs_duration,
                    beacon_interval,
                    first_rcm_slot: if first_slot == 0 { None } else { Some(first_slot) },
                },
                spec_elements_bytes(entries),
            ),
        ),
{
    crate::mac::format::primitives::lemma_primitive_roundtrip();
    lemma_elements_bytes_push(entries, 0);
    let long = beacon_interval > 0xffff;
    let word = spec_rd_word(rbs_duration, long);
    let f1 = spec_rd_field(beacon_interval, long);
    let f2 = spec_rd_field(first_slot, long);
    let eb = spec_elements_bytes(entries);
    let count = entries.len() as u8;
    let bytes = spec_rd_body(rbs_duration, beacon_interval, first_slot, entries) + rest;
    let n: int = if long { 4 } else { 2 };
    let lb: u16 = if long { 1 } else { 0 };
    assert(word & 1 == lb && word >> 1 == rbs_duration) by (bit_vector)
        requires
            word == (rbs_duration << 1) | lb,
            lb <= 1,
            rbs_duration < 0x8000,
    ;
    assert(f1.len() == n && f2.len() == n);
    assert(bytes =~= word.spec_serialize() + f1 + f2 + seq![count] + eb + rest);
    assert(bytes.subrange(0, 2) =~= word.spec_serialize());
    if long {
        assert(bytes.subrange(2, 6) =~= f1);
        assert(bytes.subrange(6, 10) =~= f2);
    } else {
        assert(bytes.subrange(2, 4) =~= f1);
        assert(bytes.subrange(4, 6) =~= f2);
        assert((beacon_interval as u16) as u32 == beacon_interval);
        assert((first_slot as u16) as u32 == first_slot);
    }
    assert(bytes[2 + 2 * n] == count);
    assert(bytes.subrange(3 + 2 * n, 3 + 2 * n + 3 * count) =~= eb);
}

enum SlotIndexPlaceholder {
    Short(Placeholder<u16>),
    Long(Placeholder<u32>),
}

/// The error `RangingDescriptorBuilder::new` gives for a buffer with
/// `remaining` free octets, if any: room for the IE descriptor, a valid slot
/// duration, at least one slot per beacon interval, room for the fixed fields,
/// and no first ranging slot given.
pub open spec fn spec_rd_new_error(remaining: int, desc: RangingDescriptor) -> Option<BuilderError> {
    let avail = if remaining - 2 <= 0xff { remaining - 2 } else { 0xff };
    let n: int = if desc.beacon_interval > 0xffff { 4 } else { 2 };
    if remaining < 2 {
        Some(BuilderError::NoSpaceLeft)
    } else if desc.rbs_duration == 0 || desc.rbs_duration > MAX_RSB_DURATION {
        Some(BuilderError::InvalidRbsDuration)
    } else if desc.beacon_interval / (desc.rbs_duration as u32) == 0 {
        Some(BuilderError::BeaconIntervalOverflow)
    } else if avail < 2 + n {
        Some(BuilderError::NoSpaceLeft)
    } else if desc.first_rcm_slot is Some {
        Some(BuilderError::IncorrectRcmSlotSpec)
    } else if avail < 3 + 2 * n {
        Some(BuilderError::NoSpaceLeft)
    } else {
        None
    }
}

/// Builds a ranging descriptor IE with its ranging management table.
pub struct RangingDescriptorBuilder {
    buffer: WriteBuffer,
    header_field: Placeholder<ShortIeHeader>,
    first_rcm_slot_field: SlotIndexPlaceholder,
    rm_table_length_field: Placeholder<u8>,
    payload_offset: usize,
    ranging_period_present: bool,
    last_rbs_index: u16,
    rbs_index_max: u16,
    rm_table_length: u8,
    prefix: Ghost<Seq<u8>>,
    desc: Ghost<RangingDescriptor>,
    entries: Ghost<Seq<u32>>,
    lengths: Ghost<Seq<u16>>,
    usages: Ghost<Seq<RmSubPeriodUsage>>,
}

impl RangingDescriptorBuilder {
    /// What the buffer held before the IE.
    pub closed spec fn spec_prefix(&self) -> Seq<u8> {
        self.prefix@
    }

    /// Slot duration and beacon interval of the IE.
    pub closed spec fn spec_desc(&self) -> RangingDescriptor {
        self.desc@
    }

    /// Table entries added so far, as entry values.
    pub closed spec fn spec_entries(&self) -> Seq<u32> {
        self.entries@
    }

    /// Lengths of the sub-periods added so far, in the order they were added.
    pub closed spec fn spec_lengths(&self) -> Seq<u16> {
        self.lengths@
    }

    /// Usages of the sub-periods added so far, in the order they were added.
    pub closed spec fn spec_usages(&self) -> Seq<RmSubPeriodUsage> {
        self.usages@
    }

    /// Last slot index taken by the table; the beacon takes slot 0.
    pub closed spec fn spec_last_index(&self) -> u16 {
        self.last_rbs_index
    }

    /// Last slot index of the beacon interval.
    pub closed spec fn spec_index_max(&self) -> u16 {
        self.rbs_index_max
    }

    pub closed spec fn spec_ranging_period_present(&self) -> bool {
        self.ranging_period_present
    }

    /// Octets that can still be appended.
    pub closed spec fn spec_remaining(&self) -> int {
        self.buffer.spec_capacity() - self.buffer@.len()
    }

    pub closed spec fn spec_capacity(&self) -> nat {
        self.buffer.spec_capacity()
    }

    spec fn field_len(&self) -> int {
        if self.desc@.beacon_interval > 0xffff { 4 } else { 2 }
    }

    pub closed spec fn wf(&self) -> bool {
        let n = self.field_len();
        let p = self.prefix@.len() as int;
        let long = self.desc@.beacon_interval > 0xffff;
        &&& self.header_field.offset() == p
        &&& self.payload_offset == p + 2
        &&& self.buffer@.len() == p + 5 + 2 * n + 3 * self.entries@.len()
        &&& self.buffer@.subrange(0, p as int) == self.prefix@
        &&& self.buffer@.subrange(p + 2, p + 4 + n) == spec_rd_word(self.desc@.rbs_duration, long).spec_serialize()
            + spec_rd_field(self.desc@.beacon_interval, long)
        &&& self.buffer@.subrange(p + 5 + 2 * n, self.buffer@.len() as int) == spec_elements_bytes(self.entries@)
        &&& match self.first_rcm_slot_field {
            SlotIndexPlaceholder::Short(f) => !long && f.offset() == p + 4 + n,
            SlotIndexPlaceholder::Long(f) => long && f.offset() == p + 4 + n,
        }
        &&& self.rm_table_length_field.offset() == p + 4 + 2 * n
        &&& self.rm_table_length == self.entries@.len()
        &&& self.buffer.spec_capacity() <= p + 2 + 0xff
        &&& self.last_rbs_index <= self.rbs_index_max <= 0x7ff
        &&& self.desc@.rbs_duration < 0x8000
        &&& self.desc@.first_rcm_slot is None
        &&& forall|i: int| 0 <= i < self.entries@.len() ==> #[trigger] self.entries@[i] < 0x80_0000
        &&& self.table_built()
    }

    /// The entries are the table of the sub-periods added, and the last
    /// slot index is where the last of them ends.
    #[verifier::opaque]
    spec fn table_built(&self) -> bool {
        &&& self.usages@.len() == self.lengths@.len()
        &&& self.entries@ == spec_table(self.lengths@, self.usages@)
        &&& self.last_rbs_index == spec_slots(self.lengths@, self.lengths@.len() as int)
        &&& forall|j: int| 0 <= j < self.lengths@.len() ==> #[trigger] self.lengths@[j] != 0
    }

    /// Creates the builder
    ///
    /// desc.first_rcm_slot should be set to None.
    /// If ranging_period_present, the first_rcm_slot field will be calculated accordingly.
    pub fn new(buffer: WriteBuffer, desc: RangingDescriptor, ranging_period_present: bool) -> (r: Result<Self, BuilderError>)
        ensures
            r matches Err(e) ==> spec_rd_new_error(buffer.spec_remaining(), desc) == Some(e),
            r is Ok ==> spec_rd_new_error(buffer.spec_remaining(), desc) is None,
            r matches Ok(b) ==> {
                &&& b.wf()
                &&& b.spec_prefix() == buffer@
                &&& b.spec_desc() == desc
                &&& b.spec_entries() == Seq::<u32>::empty()
                &&& b.spec_lengths() == Seq::<u16>::empty()
                &&& b.spec_usages() == Seq::<RmSubPeriodUsage>::empty()
                &&& b.spec_last_index() == 0
                &&& b.spec_index_max() == if desc.beacon_interval / (desc.rbs_duration as u32) - 1 <= 0x7ff {
                    (desc.beacon_interval / (desc.rbs_duration as u32) - 1) as u16
                } else {
                    0x7ffu16
                }
                &&& b.spec_ranging_period_present() == ranging_period_present
                &&& b.spec_capacity() == if buffer.spec_capacity() <= buffer@.len() + 2 + 0xff {
                    buffer.spec_capacity()
                } else {
                    (buffer@.len() + 2 + 0xff) as nat
                }
            },
    {
        let mut buffer = buffer;
        let ghost prefix = buffer@;
        let ghost old_remaining = buffer.spec_remaining();
        let header_field = match buffer.append_placeholder::<ShortIeHeader>() {
            Ok(f) => f,
            Err(_) => return Err(BuilderError::NoSpaceLeft),
        };
        let payload_offset = buffer.len();
        if payload_offset <= usize::MAX - 0xff {
            buffer.limit_capacity(payload_offset + MAX_SHORT_LENGTH as usize);
        }
        let ghost remaining0 = old_remaining;
        let ghost avail: int = if remaining0 - 2 <= 0xff { remaining0 - 2 } else { 0xff };
        assert(buffer.spec_remaining() == avail);
        if desc.rbs_duration == 0 || desc.rbs_duration > MAX_RSB_DURATION {
            return Err(BuilderError::InvalidRbsDuration);
        }
        let beacon_interval_slots = desc.beacon_interval / (desc.rbs_duration as u32);
        if beacon_interval_slots == 0 {
            return Err(BuilderError::BeaconIntervalOverflow);
        }
        let rbs_index_max: u16 = if beacon_interval_slots - 1 <= RBS_INDEX_MAX as u32 {
            (beacon_interval_slots - 1) as u16
        } else {
            RBS_INDEX_MAX
        };
        let long_interval = desc.beacon_interval > 0xffff;
        let word: u16 = (desc.rbs_duration << 1) | (if long_interval { 1u16 } else { 0u16 });
        let ghost b0 = buffer@;
        if buffer.append_field(word).is_err() {
            return Err(BuilderError::NoSpaceLeft);
        }
        let ghost b1 = buffer@;
        if long_interval {
            if buffer.append_field::<u32>(desc.beacon_interval).is_err() {
                return Err(BuilderError::NoSpaceLeft);
            }
        } else {
            if buffer.append_field::<u16>(desc.beacon_interval as u16).is_err() {
                return Err(BuilderError::NoSpaceLeft);
            }
        }
        let ghost b2 = buffer@;
        if desc.first_rcm_slot.is_some() {
            return Err(BuilderError::IncorrectRcmSlotSpec);
        }
        let first_rcm_slot_field = if !long_interval {
            match buffer.append_placeholder::<u16>() {
                Ok(f) => SlotIndexPlaceholder::Short(f),
                Err(_) => return Err(BuilderError::NoSpaceLeft),
            }
        } else {
            match buffer.append_placeholder::<u32>() {
                Ok(f) => SlotIndexPlaceholder::Long(f),
                Err(_) => return Err(BuilderError::NoSpaceLeft),
            }
        };
        let rm_table_length_field = match buffer.append_placeholder::<u8>() {
            Ok(f) => f,
            Err(_) => return Err(BuilderError::NoSpaceLeft),
        };
        let ghost n: int = if long_interval { 4 } else { 2 };
        proof {
            crate::mac::format::primitives::lemma_primitive_roundtrip();
            let p = prefix.len() as int;
            let bv = buffer@;
            assert(bv.subrange(0, p) =~= prefix);
            assert(bv.subrange(p + 2, p + 4 + n) =~= spec_rd_word(desc.rbs_duration, long_interval).spec_serialize()
                + spec_rd_field(desc.beacon_interval, long_interval));
            assert(bv.subrange(p + 5 + 2 * n, bv.len() as int) =~= spec_elements_bytes(Seq::<u32>::empty()));
            assert(spec_table(Seq::<u16>::empty(), Seq::<RmSubPeriodUsage>::empty()) =~= Seq::<u32>::empty());
        }
        let b = Self {
            buffer,
            header_field,
            first_rcm_slot_field,
            rm_table_length_field,
            payload_offset,
            ranging_period_present,
            last_rbs_index: 0,  // beacon slot is alway occupied
            rbs_index_max,
            rm_table_length: 0,
            prefix: Ghost(prefix),
            desc: Ghost(desc),
            entries: Ghost(Seq::empty()),
            lengths: Ghost(Seq::empty()),
            usages: Ghost(Seq::empty()),
        };
        proof {
            reveal(RangingDescriptorBuilder::table_built);
        }
        Ok(b)
    }
}

impl RangingDescriptorBuilder {
    /// Adds a ranging management sub-period of `length` slots right after the
    /// last one.
    pub fn add_management_sub_period(&mut self, usage: RmSubPeriodUsage, length: u16) -> (r: Result<(), BuilderError>)
        requires
            old(self).wf(),
            length != 0,
        ensures
            final(self).wf(),
            final(self).spec_prefix() == old(self).spec_prefix(),
            final(self).spec_desc() == old(self).spec_desc(),
            final(self).spec_index_max() == old(self).spec_index_max(),
            final(self).spec_ranging_period_present() == old(self).spec_ranging_period_present(),
            final(self).spec_capacity() == old(self).spec_capacity(),
            r == if length > old(self).spec_index_max() - old(self).spec_last_index() {
                Err::<(), BuilderError>(BuilderError::BeaconIntervalOverflow)
            } else if old(self).spec_remaining() < 3 {
                Err(BuilderError::NoSpaceLeft)
            } else {
                Ok(())
            },
            r is Ok ==> final(self).spec_entries() == old(self).spec_entries().push(
                spec_element(
                    (old(self).spec_last_index() + 1) as u16,
                    (old(self).spec_last_index() + length) as u16,
                    usage,
                ),
            ) && final(self).spec_last_index() == old(self).spec_last_index() + length,
            r is Ok ==> final(self).spec_lengths() == old(self).spec_lengths().push(length)
                && final(self).spec_usages() == old(self).spec_usages().push(usage),
            r is Err ==> final(self).spec_entries() == old(self).spec_entries()
                && final(self).spec_last_index() == old(self).spec_last_index()
                && final(self).spec_lengths() == old(self).spec_lengths()
                && final(self).spec_usages() == old(self).spec_usages(),
    {
        proof {
            reveal(RangingDescriptorBuilder::table_built);
        }
        if length > self.rbs_index_max - self.last_rbs_index {
            return Err(BuilderError::BeaconIntervalOverflow);
        }
        let start = self.last_rbs_index + 1;
        let end = self.last_rbs_index + length;
        let mut elem: RmTableElement = RmTableElement::default();
        elem.set_start(start);
        elem.set_end(end);
        elem.set_usage(usage);
        proof {
            law_rm_element_fields(start, end, usage);
            RmTableElement::lemma_view(spec_element(start, end, usage), elem);
        }
        let ghost before = self.buffer@;
        let len0 = self.buffer.len();
        if self.buffer.append_field(elem).is_err() {
            return Err(BuilderError::NoSpaceLeft);
        }
        self.last_rbs_index = end;
        // Element count is limited by u8 IE length
        proof {
            let n = self.field_len();
            let p = self.prefix@.len() as int;
            assert(self.rm_table_length < 0xff);
        }
        self.rm_table_length = self.rm_table_length + 1;
        proof {
            let v = spec_element(start, end, usage);
            let old_entries = self.entries@;
            lemma_elements_bytes_push(old_entries, v);
            self.entries@ = old_entries.push(v);
            let lengths = self.lengths@;
            let k = lengths.len() as int;
            lemma_table_push(lengths, self.usages@, length, usage);
            lemma_slots_prefix(lengths, length, k);
            self.lengths@ = lengths.push(length);
            self.usages@ = self.usages@.push(usage);
            assert(self.lengths@[k] == length);
            assert(spec_slots(self.lengths@, k + 1) == spec_slots(lengths, k) + length);
            assert forall|j: int| 0 <= j < self.lengths@.len() implies #[trigger] self.lengths@[j] != 0 by {
                if j < k {
                    assert(self.lengths@[j] == lengths[j]);
                }
            }
            let n = self.field_len();
            let p = self.prefix@.len() as int;
            let b = self.buffer@;
            assert(b =~= before + spec_element_bytes(v));
            assert(b.subrange(0, p) =~= before.subrange(0, p));
            assert(b.subrange(p + 2, p + 4 + n) =~= before.subrange(p + 2, p + 4 + n));
            assert(b.subrange(p + 5 + 2 * n, b.len() as int) =~= before.subrange(p + 5 + 2 * n, before.len() as int)
                + spec_element_bytes(v));
            assert forall|i: int| 0 <= i < self.entries@.len() implies #[trigger] self.entries@[i] < 0x80_0000 by {
                if i < old_entries.len() {
                    assert(self.entries@[i] == old_entries[i]);
                }
            }
        }
        Ok(())
    }

    /// Writes the IE descriptor, the first ranging slot (the slot after the
    /// table when a ranging period follows, 0 otherwise) and the table length,
    /// and hands back the finished IE.
    #[verifier::rlimit(30)]
    pub fn finish(self) -> (r: WriteBuffer)
        requires
            self.wf(),
        ensures
            ({
                let desc = self.spec_desc();
                let slot: u32 = if self.spec_ranging_period_present() { (self.spec_last_index() + 1) as u32 } else { 0 };
                let body = spec_rd_body(desc.rbs_duration, desc.beacon_interval, slot, self.spec_entries());
                r@ == self.spec_prefix() + ShortIeHeader::from_view(spec_short_descriptor(body.len() as u8, SUB_ID)).spec_serialize()
                    + body
            }),
            r.spec_capacity() == self.spec_capacity(),
            self.spec_entries().len() <= 0xff,
    {
        let mut buffer = self.buffer;
        let ghost b0 = buffer@;
        let ghost p = self.prefix@.len() as int;
        let ghost n = self.field_len();
        let payload_len = buffer.len() - self.payload_offset;
        proof {
            assert(payload_len <= 0xff);
        }
        let mut header: ShortIeHeader = ShortIeHeader::default();
        header.set_length(payload_len as u8);
        header.set_sub_id(SUB_ID);
        proof {
            let l = payload_len as u8;
            assert((((0u16 & !0xffu16) | (l as u16)) & !(0x7fu16 << 8)) | (0x5bu16 << 8) == ((0x5bu16 << 8) | (l as u16))) by (bit_vector);
            ShortIeHeader::lemma_view(spec_short_descriptor(l, SUB_ID), header);
        }
        buffer.write_placeholder(&self.header_field, header);
        let ghost b1 = buffer@;

        let first_rcm_slot: u16 = if self.ranging_period_present {
            self.last_rbs_index + 1
        } else {
            0
        };
        match &self.first_rcm_slot_field {
            SlotIndexPlaceholder::Short(field) => {
                buffer.write_placeholder(field, first_rcm_slot);
            },
            SlotIndexPlaceholder::Long(field) => {
                buffer.write_placeholder(field, first_rcm_slot as u32);
            },
        }
        let ghost b2 = buffer@;
        buffer.write_placeholder(&self.rm_table_length_field, self.rm_table_length);
        proof {
            crate::mac::format::primitives::lemma_primitive_roundtrip();
            let desc = self.desc@;
            let long = desc.beacon_interval > 0xffff;
            let slot: u32 = first_rcm_slot as u32;
            let entries = self.entries@;
            let body = spec_rd_body(desc.rbs_duration, desc.beacon_interval, slot, entries);
            lemma_elements_bytes_push(entries, 0);
            let wf1 = spec_rd_word(desc.rbs_duration, long).spec_serialize() + spec_rd_field(desc.beacon_interval, long);
            assert(wf1.len() == 2 + n);
            assert(spec_rd_field(slot, long) =~= if long { slot.spec_serialize() } else { first_rcm_slot.spec_serialize() });
            let hdr = ShortIeHeader::from_view(spec_short_descriptor(payload_len as u8, SUB_ID)).spec_serialize();
            header.lemma_serialize_len();
            let b3 = buffer@;
            assert(b3.subrange(0, p) =~= b0.subrange(0, p));
            assert(b3.subrange(p, p + 2) =~= hdr);
            assert(b3.subrange(p + 2, p + 4 + n) =~= b0.subrange(p + 2, p + 4 + n));
            assert(b3.subrange(p + 4 + n, p + 4 + 2 * n) =~= spec_rd_field(slot, long));
            assert(b3.subrange(p + 4 + 2 * n, p + 5 + 2 * n) =~= seq![entries.len() as u8]);
            assert(b3.subrange(p + 5 + 2 * n, b3.len() as int) =~= b0.subrange(p + 5 + 2 * n, b0.len() as int));
            assert(body =~= b3.subrange(p + 2, b3.len() as int));
            assert(body.len() == payload_len);
            assert(b3 =~= self.prefix@ + hdr + body);
        }
        buffer
    }
}


/// The number of slots of the first `i` sub-periods of `lengths`.
pub open spec fn spec_slots(lengths: Seq<u16>, i: int) -> nat
    decreases i,
{
    if i <= 0 {
        0
    } else {
        spec_slots(lengths, i - 1) + lengths[i - 1] as nat
    }
}

/// The table that sub-periods of these lengths and usages make when added
/// one after the other from slot 1: sub-period `i` starts right after the
/// slots of those before it and ends after its own.
pub open spec fn spec_table(lengths: Seq<u16>, usages: Seq<RmSubPeriodUsage>) -> Seq<u32> {
    Seq::new(
        lengths.len(),
        |i: int| spec_element((spec_slots(lengths, i) + 1) as u16, spec_slots(lengths, i + 1) as u16, usages[i]),
    )
}

/// Adding a sub-period of length `l` after those of `lengths` appends the
/// entry that `add_management_sub_period` appends.
pub proof fn lemma_table_push(lengths: Seq<u16>, usages: Seq<RmSubPeriodUsage>, l: u16, u: RmSubPeriodUsage)
    requires
        usages.len() == lengths.len(),
    ensures
        spec_table(lengths.push(l), usages.push(u)) == spec_table(lengths, usages).push(
            spec_element(
                (spec_slots(lengths, lengths.len() as int) + 1) as u16,
                (spec_slots(lengths, lengths.len() as int) + l) as u16,
                u,
            ),
        ),
{
    let n = lengths.len() as int;
    let longer = lengths.push(l);
    assert forall|i: int| 0 <= i <= n implies #[trigger] spec_slots(longer, i) == spec_slots(lengths, i) by {
        lemma_slots_prefix(lengths, l, i);
    }
    assert(spec_slots(longer, n) == spec_slots(lengths, n));
    assert(longer[n] == l);
    assert(spec_slots(longer, n + 1) == spec_slots(longer, n) + longer[n] as nat);
    assert(spec_slots(longer, n + 1) == spec_slots(lengths, n) + l);
    assert(spec_table(longer, usages.push(u)) =~= spec_table(lengths, usages).push(
        spec_element((spec_slots(lengths, n) + 1) as u16, (spec_slots(lengths, n) + l) as u16, u),
    ));
}

proof fn lemma_slots_prefix(lengths: Seq<u16>, l: u16, i: int)
    requires
        0 <= i <= lengths.len(),
    ensures
        spec_slots(lengths.push(l), i) == spec_slots(lengths, i),
    decreases i,
{
    if i > 0 {
        lemma_slots_prefix(lengths, l, i - 1);
    }
}

proof fn lemma_slots_increase(lengths: Seq<u16>, i: int, j: int)
    requires
        0 <= i <= j <= lengths.len(),
    ensures
        spec_slots(lengths, i) <= spec_slots(lengths, j),
    decreases j,
{
    if i < j {
        lemma_slots_increase(lengths, i, j - 1);
    }
}

/// The octets of entry `i` in the encoded table.
proof fn lemma_elements_bytes_at(entries: Seq<u32>, i: int)
    requires
        0 <= i < entries.len(),
    ensures
        spec_elements_bytes(entries).len() == 3 * entries.len(),
        spec_elements_bytes(entries).subrange(3 * i, 3 * i + 3) == spec_element_bytes(entries[i]),
    decreases entries.len(),
{
    lemma_elements_bytes_push(entries, 0);
    let rest = entries.drop_first();
    lemma_elements_bytes_push(rest, 0);
    let b = spec_elements_bytes(entries);
    assert(b == spec_element_bytes(entries[0]) + spec_elements_bytes(rest));
    if i == 0 {
        assert(b.subrange(0, 3) =~= spec_element_bytes(entries[0]));
    } else {
        lemma_elements_bytes_at(rest, i - 1);
        assert(b.subrange(3 * i, 3 * i + 3) =~= spec_elements_bytes(rest).subrange(3 * (i - 1), 3 * (i - 1) + 3));
    }
}

/// A ranging descriptor whose table was built by adding sub-periods of
/// `lengths` with `usages`, from slot 1 on, reads back as the descriptor,
/// with the first ranging slot right after the table when a ranging period
/// is present, and the table entry by entry: entry `i` starts after the
/// slots before it, ends after its own and keeps its usage.
pub proof fn law_rd_table_roundtrip(
    rbs_duration: u16,
    beacon_interval: u32,
    lengths: Seq<u16>,
    usages: Seq<RmSubPeriodUsage>,
    ranging_period_present: bool,
    i: int,
)
    requires
        rbs_duration < 0x8000,
        usages.len() == lengths.len(),
        lengths.len() <= 0xff,
        spec_slots(lengths, lengths.len() as int) <= 0x7ff,
        0 <= i < lengths.len(),
        spec_slots(lengths, i) < 0x7ff,
    ensures
        ({
            let total = spec_slots(lengths, lengths.len() as int);
            let slot: u32 = if ranging_period_present { (total + 1) as u32 } else { 0 };
            let table = spec_table(lengths, usages);
            let parsed = spec_rd_parse(spec_rd_body(rbs_duration, beacon_interval, slot, table));
            let entry = spec_element_from_bytes(parsed.unwrap().1.subrange(3 * i, 3 * i + 3));
            &&& parsed == Some(
                (
                    RangingDescriptor {
                        rbs_duration,
                        beacon_interval,
                        first_rcm_slot: if ranging_period_present { Some((total + 1) as u32) } else { None },
                    },
                    spec_elements_bytes(table),
                ),
            )
            &&& parsed.unwrap().1.len() == 3 * lengths.len()
            &&& spec_start(entry) == spec_slots(lengths, i) + 1
            &&& spec_end(entry) == spec_slots(lengths, i + 1)
            &&& spec_usage(entry) == usages[i]
        }),
{
    let n = lengths.len() as int;
    let total = spec_slots(lengths, n);
    let slot: u32 = if ranging_period_present { (total + 1) as u32 } else { 0 };
    let table = spec_table(lengths, usages);
    law_rd_roundtrip(rbs_duration, beacon_interval, slot, table, Seq::empty());
    assert(spec_rd_body(rbs_duration, beacon_interval, slot, table) + Seq::<u8>::empty() =~= spec_rd_body(
        rbs_duration,
        beacon_interval,
        slot,
        table,
    ));
    lemma_slots_increase(lengths, i, i + 1);
    lemma_slots_increase(lengths, i + 1, n);
    let start = (spec_slots(lengths, i) + 1) as u16;
    let end = spec_slots(lengths, i + 1) as u16;
    law_rm_element_fields(start, end, usages[i]);
    lemma_elements_bytes_at(table, i);
    law_rm_element_roundtrip(table[i]);
}

/// However many sub-periods were added to a builder, the IE body that
/// `finish` writes reads back as its descriptor, with the first ranging
/// slot right after the last sub-period when a ranging period is present,
/// and its table as one entry per sub-period in the order they were added:
/// entry `i` starts right after the slots of the sub-periods before it,
/// ends after its own, and keeps its usage.
pub proof fn law_rd_builder_roundtrip(b: RangingDescriptorBuilder, i: int)
    requires
        b.wf(),
        0 <= i < b.spec_lengths().len(),
    ensures
        ({
            let desc = b.spec_desc();
            let lengths = b.spec_lengths();
            let total = spec_slots(lengths, lengths.len() as int);
            let slot: u32 = if b.spec_ranging_period_present() { (b.spec_last_index() + 1) as u32 } else { 0 };
            let parsed = spec_rd_parse(spec_rd_body(desc.rbs_duration, desc.beacon_interval, slot, b.spec_entries()));
            let entry = spec_element_from_bytes(parsed.unwrap().1.subrange(3 * i, 3 * i + 3));
            &&& b.spec_last_index() == total
            &&& parsed == Some(
                (
                    RangingDescriptor {
                        rbs_duration: desc.rbs_duration,
                        beacon_interval: desc.beacon_interval,
                        first_rcm_slot: if b.spec_ranging_period_present() { Some((total + 1) as u32) } else { None },
                    },
                    spec_elements_bytes(b.spec_entries()),
                ),
            )
            &&& parsed.unwrap().1.len() == 3 * lengths.len()
            &&& spec_start(entry) == spec_slots(lengths, i) + 1
            &&& spec_end(entry) == spec_slots(lengths, i + 1)
            &&& spec_usage(entry) == b.spec_usages()[i]
        }),
{
    reveal(RangingDescriptorBuilder::table_built);
    let lengths = b.spec_lengths();
    let n = lengths.len() as int;
    lemma_slots_increase(lengths, i + 1, n);
    assert(lengths[i] != 0);
    assert(spec_slots(lengths, i + 1) == spec_slots(lengths, i) + lengths[i] as nat);
    law_rd_table_roundtrip(
        b.spec_desc().rbs_duration,
        b.spec_desc().beacon_interval,
        lengths,
        b.spec_usages(),
        b.spec_ranging_period_present(),
        i,
    );
}

} // verus!

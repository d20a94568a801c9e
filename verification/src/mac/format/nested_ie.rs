//! Nested information element descriptors carried inside MLME payload IEs.
use vstd::prelude::*;
use crate::mac::format::serializer::{
    FixDeserializable, FixMaybeDeserializable, FixSerializable, FixSerializationLength,
};

pub mod rd_ie;

verus! {

pub const MAX_SHORT_LENGTH: u8 = 0xff;

const MAX_SHORT_SUB_ID: u8 = 0x7f;

const MAX_LONG_LENGTH: u16 = 0x7ff;

const MAX_LONG_SUB_ID: u8 = 0xf;

const TYPE_FLAG: u16 = 0x8000;

/// Short nested IE descriptor: 8-bit length, 7-bit sub-ID, type bit clear.
#[derive(Clone, Copy, Eq, PartialEq, Structural, Debug)]
pub struct ShortIeHeader(u16);

/// Long nested IE descriptor: 11-bit length, 4-bit sub-ID from bit 8, type
/// bit set on the wire.
#[derive(Clone, Copy, Eq, PartialEq, Structural, Debug)]
pub struct LongIeHeader(u16);

impl View for ShortIeHeader {
    type V = u16;

    closed spec fn view(&self) -> u16 {
        self.0
    }
}

impl View for LongIeHeader {
    type V = u16;

    closed spec fn view(&self) -> u16 {
        self.0
    }
}

pub open spec fn spec_short_length(v: u16) -> u8 {
    (v & 0xff) as u8
}

pub open spec fn spec_short_sub_id(v: u16) -> u8 {
    ((v >> 8) & 0x7f) as u8
}

pub open spec fn spec_long_length(v: u16) -> u16 {
    v & 0x7ff
}

pub open spec fn spec_long_sub_id(v: u16) -> u8 {
    ((v >> 8) & 0xf) as u8
}

/// The short descriptor value with the given length and sub-ID.
pub open spec fn spec_short_descriptor(length: u8, sub_id: u8) -> u16 {
    ((sub_id as u16) << 8) | (length as u16)
}

impl ShortIeHeader {
    pub closed spec fn from_view(v: u16) -> ShortIeHeader {
        ShortIeHeader(v)
    }

    pub proof fn lemma_view(v: u16, h: ShortIeHeader)
        ensures
            Self::from_view(v)@ == v,
            Self::from_view(h@) == h,
    {
    }

    pub fn length(&self) -> (r: u8)
        ensures
            r == spec_short_length(self@),
    {
        let v = self.0;
        assert((v as u8) & 0xff == (v & 0xff) as u8) by (bit_vector);
        self.0 as u8 & MAX_SHORT_LENGTH
    }

    pub fn set_length(&mut self, value: u8)
        ensures
            final(self)@ == (old(self)@ & !0xffu16) | (value as u16),
    {
        self.0 = (self.0 & !(MAX_SHORT_LENGTH as u16)) | (value as u16);
    }

    pub fn sub_id(&self) -> (r: u8)
        ensures
            r == spec_short_sub_id(self@),
    {
        let v = self.0;
        assert(((v >> 8) as u8) & 0x7f == ((v >> 8) & 0x7f) as u8) by (bit_vector);
        (self.0 >> 8) as u8 & MAX_SHORT_SUB_ID
    }

    pub fn set_sub_id(&mut self, value: u8)
        requires
            value <= 0x7f,
        ensures
            final(self)@ == (old(self)@ & !(0x7fu16 << 8)) | ((value as u16) << 8),
    {
        self.0 = (self.0 & !((MAX_SHORT_SUB_ID as u16) << 8)) | ((value as u16) << 8);
    }
}

impl LongIeHeader {
    pub closed spec fn from_view(v: u16) -> LongIeHeader {
        LongIeHeader(v)
    }

    pub proof fn lemma_view(v: u16, h: LongIeHeader)
        ensures
            Self::from_view(v)@ == v,
            Self::from_view(h@) == h,
    {
    }

    pub fn length(&self) -> (r: u16)
        ensures
            r == spec_long_length(self@),
    {
        self.0 & MAX_LONG_LENGTH
    }

    pub fn set_length(&mut self, value: u16)
        requires
            value <= 0x7ff,
        ensures
            final(self)@ == (old(self)@ & !0x7ffu16) | value,
    {
        self.0 = (self.0 & !MAX_LONG_LENGTH) | value;
    }

    pub fn sub_id(&self) -> (r: u8)
        ensures
            r == spec_long_sub_id(self@),
    {
        let v = self.0;
        assert(((v >> 8) as u8) & 0xf == ((v >> 8) & 0xf) as u8) by (bit_vector);
        (self.0 >> 8) as u8 & MAX_LONG_SUB_ID
    }

    pub fn set_sub_id(&mut self, value: u8)
        requires
            value <= 0xf,
        ensures
            final(self)@ == (old(self)@ & !(0xfu16 << 8)) | ((value as u16) << 8),
    {
        self.0 = (self.0 & !((MAX_LONG_SUB_ID as u16) << 8)) | ((value as u16) << 8);
    }
}

impl Default for ShortIeHeader {
    fn default() -> (r: Self)
        ensures
            r@ == 0,
    {
        ShortIeHeader(0)
    }
}

impl Default for LongIeHeader {
    fn default() -> (r: Self)
        ensures
            r@ == 0,
    {
        LongIeHeader(0)
    }
}

/// Setting a field of a short descriptor reads back and leaves the other
/// field alone.
pub proof fn law_short_ie_fields(v: u16, length: u8, sub_id: u8)
    requires
        sub_id <= 0x7f,
    ensures
        spec_short_length((v & !0xffu16) | (length as u16)) == length,
        spec_short_sub_id((v & !0xffu16) | (length as u16)) == spec_short_sub_id(v),
        spec_short_sub_id((v & !(0x7fu16 << 8)) | ((sub_id as u16) << 8)) == sub_id,
        spec_short_length((v & !(0x7fu16 << 8)) | ((sub_id as u16) << 8)) == spec_short_length(v),
{
    assert({
        &&& (((v & !0xffu16) | (length as u16)) & 0xff) as u8 == length
        &&& ((((v & !0xffu16) | (length as u16)) >> 8) & 0x7f) as u8 == ((v >> 8) & 0x7f) as u8
        &&& ((((v & !(0x7fu16 << 8)) | ((sub_id as u16) << 8)) >> 8) & 0x7f) as u8 == sub_id
        &&& (((v & !(0x7fu16 << 8)) | ((sub_id as u16) << 8)) & 0xff) as u8 == (v & 0xff) as u8
    }) by (bit_vector)
        requires
            sub_id <= 0x7f,
    ;
}

impl FixSerializationLength for ShortIeHeader {
    open spec fn spec_ser_len() -> nat {
        2
    }

    fn ser_len() -> (n: usize) {
        2
    }
}

impl FixSerializable for ShortIeHeader {
    open spec fn spec_serialize(&self) -> Seq<u8> {
        self@.spec_serialize()
    }

    proof fn lemma_serialize_len(&self) {
        crate::mac::format::primitives::lemma_primitive_roundtrip();
    }

    fn serialize(&self) -> (r: Vec<u8>) {
        self.0.serialize()
    }
}

impl FixMaybeDeserializable for ShortIeHeader {
    /// Short descriptors have the type bit clear.
    open spec fn spec_try_deserialize(buf: Seq<u8>) -> Option<ShortIeHeader> {
        let v = u16::spec_deserialize(buf);
        if v & 0x8000 == 0 {
            Some(ShortIeHeader::from_view(v))
        } else {
            None
        }
    }

    fn try_deserialize(buf: &[u8]) -> (r: Option<ShortIeHeader>) {
        let val = u16::deserialize(buf);
        if val & TYPE_FLAG == 0 {
            Some(Self(val))
        } else {
            None
        }
    }
}

impl FixSerializationLength for LongIeHeader {
    open spec fn spec_ser_len() -> nat {
        2
    }

    fn ser_len() -> (n: usize) {
        2
    }
}

impl FixSerializable for LongIeHeader {
    open spec fn spec_serialize(&self) -> Seq<u8> {
        (self@ | 0x8000u16).spec_serialize()
    }

    proof fn lemma_serialize_len(&self) {
        crate::mac::format::primitives::lemma_primitive_roundtrip();
    }

    fn serialize(&self) -> (r: Vec<u8>) {
        let val = self.0 | TYPE_FLAG;
        val.serialize()
    }
}

impl FixMaybeDeserializable for LongIeHeader {
    /// Long descriptors have the type bit set; it is dropped from the value.
    open spec fn spec_try_deserialize(buf: Seq<u8>) -> Option<LongIeHeader> {
        let v = u16::spec_deserialize(buf);
        if v & 0x8000 != 0 {
            Some(LongIeHeader::from_view(v & !0x8000u16))
        } else {
            None
        }
    }

    fn try_deserialize(buf: &[u8]) -> (r: Option<LongIeHeader>) {
        let val = u16::deserialize(buf);
        if val & TYPE_FLAG != 0 {
            Some(Self(val & !TYPE_FLAG))
        } else {
            None
        }
    }
}

} // verus!

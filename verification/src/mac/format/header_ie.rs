//! Header information element descriptor: 7-bit length, 8-bit element ID,
//! type bit 15 clear.
use vstd::prelude::*;
use crate::mac::format::serializer::{
    FixDeserializable, FixMaybeDeserializable, FixSerializable, FixSerializationLength,
};

verus! {

pub const MAX_LENGTH: u8 = 0x7f;

pub const MAX_ELEMENT_ID: u8 = 0xff;

const TYPE_FLAG: u16 = 0x8000;

#[derive(Clone, Copy, Eq, PartialEq, Structural, Debug)]
pub struct Header(u16);

impl View for Header {
    type V = u16;

    closed spec fn view(&self) -> u16 {
        self.0
    }
}

/// Length of the element's content, bits 0..=6.
pub open spec fn spec_length(v: u16) -> u8 {
    (v & 0x7f) as u8
}

/// Element ID, bits 7..=14.
pub open spec fn spec_element_id(v: u16) -> u8 {
    ((v >> 7) & 0xff) as u8
}

/// The descriptor with the given length and element ID.
pub open spec fn spec_descriptor(length: u8, element_id: u8) -> u16 {
    ((element_id as u16) << 7) | (length as u16)
}

impl Header {
    pub closed spec fn from_view(v: u16) -> Header {
        Header(v)
    }

    pub proof fn lemma_view(v: u16, h: Header)
        ensures
            Self::from_view(v)@ == v,
            Self::from_view(h@) == h,
    {
    }

    pub fn length(&self) -> (r: u8)
        ensures
            r == spec_length(self@),
    {
        let v = self.0;
        assert((v as u8) & 0x7f == (v & 0x7f) as u8) by (bit_vector);
        self.0 as u8 & MAX_LENGTH
    }

    pub fn set_length(&mut self, value: u8)
        requires
            value <= MAX_LENGTH,
        ensures
            final(self)@ == (old(self)@ & !0x7fu16) | (value as u16),
    {
        self.0 = (self.0 & !(MAX_LENGTH as u16)) | (value as u16);
    }

    pub fn element_id(&self) -> (r: u8)
        ensures
            r == spec_element_id(self@),
    {
        let v = self.0;
        assert(((v >> 7) as u8) & 0xff == ((v >> 7) & 0xff) as u8) by (bit_vector);
        (self.0 >> 7) as u8 & MAX_ELEMENT_ID
    }

    pub fn set_element_id(&mut self, value: u8)
        ensures
            final(self)@ == (old(self)@ & !(0xffu16 << 7)) | ((value as u16) << 7),
    {
        self.0 = (self.0 & !((MAX_ELEMENT_ID as u16) << 7)) | ((value as u16) << 7);
    }
}

impl Default for Header {
    fn default() -> (r: Self)
        ensures
            r@ == 0,
    {
        Header(0)
    }
}

/// Setting the length or the element ID of a descriptor changes that field
/// alone, and reads back what was set.
pub proof fn law_header_ie_fields(v: u16, length: u8, element_id: u8)
    requires
        length <= MAX_LENGTH,
    ensures
        spec_length((v & !0x7fu16) | (length as u16)) == length,
        spec_element_id((v & !0x7fu16) | (length as u16)) == spec_element_id(v),
        spec_element_id((v & !(0xffu16 << 7)) | ((element_id as u16) << 7)) == element_id,
        spec_length((v & !(0xffu16 << 7)) | ((element_id as u16) << 7)) == spec_length(v),
{
    assert({
        &&& (((v & !0x7fu16) | (length as u16)) & 0x7f) as u8 == length
        &&& ((((v & !0x7fu16) | (length as u16)) >> 7) & 0xff) as u8 == ((v >> 7) & 0xff) as u8
        &&& ((((v & !(0xffu16 << 7)) | ((element_id as u16) << 7)) >> 7) & 0xff) as u8 == element_id
        &&& (((v & !(0xffu16 << 7)) | ((element_id as u16) << 7)) & 0x7f) as u8 == (v & 0x7f) as u8
    }) by (bit_vector)
        requires
            length <= 0x7f,
    ;
}

impl FixSerializationLength for Header {
    open spec fn spec_ser_len() -> nat {
        2
    }

    fn ser_len() -> (n: usize) {
        2
    }
}

impl FixSerializable for Header {
    open spec fn spec_serialize(&self) -> Seq<u8> {
        self@.spec_serialize()
    }

    proof fn lemma_serialize_len(&self) {
        crate::mac::format::primitives::lemma_primitive_roundtrip();
    }

    fn serialize(&self) -> (r: Vec<u8>) {
        self.0.serialize()
    }
}

impl FixMaybeDeserializable for Header {
    /// Header descriptors have the type bit clear.
    open spec fn spec_try_deserialize(buf: Seq<u8>) -> Option<Header> {
        let v = u16::spec_deserialize(buf);
        if v & 0x8000 == 0 {
            Some(Header::from_view(v))
        } else {
            None
        }
    }

    fn try_deserialize(buf: &[u8]) -> (r: Option<Header>) {
        let val = u16::deserialize(buf);
        if val & TYPE_FLAG == 0 {
            Some(Self(val))
        } else {
            None
        }
    }
}

} // verus!

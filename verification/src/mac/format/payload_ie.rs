//! Payload information elements: the descriptor and the MLME container of
//! nested IEs.
use vstd::prelude::*;
use vstd::bytes::spec_u16_from_le_bytes;
use crate::mac::format::nested_ie::{
    self, spec_long_length, spec_long_sub_id, spec_short_length, spec_short_sub_id, LongIeHeader,
    ShortIeHeader,
};
use crate::mac::format::serializer::{
    FixDeserializable, FixMaybeDeserializable, FixSerializable, FixSerializationLength, NoSpaceLeft,
    Placeholder, ReadBuffer, WriteBuffer, spec_splice,
};

verus! {

broadcast use vstd::seq_lib::group_seq_properties;

pub const MAX_LENGTH: u16 = 0x7ff;

pub const MAX_GROUP_ID: u8 = 0xf;

pub const MLME_GROUP_ID: u8 = 0x1;

const TYPE_FLAG: u16 = 0x8000;

/// Payload IE descriptor: 11-bit length, 4-bit group ID from bit 11, type bit
/// set on the wire.
#[derive(Clone, Copy, Eq, PartialEq, Structural, Debug)]
pub struct Header(u16);

impl View for Header {
    type V = u16;

    closed spec fn view(&self) -> u16 {
        self.0
    }
}

pub open spec fn spec_length(v: u16) -> u16 {
    v & 0x7ff
}

pub open spec fn spec_group_id(v: u16) -> u8 {
    ((v >> 11) & 0xf) as u8
}

/// The descriptor value with the given length and group ID.
pub open spec fn spec_descriptor(length: u16, group_id: u8) -> u16 {
    ((group_id as u16) << 11) | length
}

impl Header {
    pub closed spec fn from_view(v: u16) -> Header {
        Header(v)
    }

    pub proof fn lemma_view(v: u16, h: Header)
        ensures
            Self::from_view(v)@ == v,
            Self::from_view(h@) == h,
    {
    }

    pub fn length(&self) -> (r: u16)
        ensures
            r == spec_length(self@),
    {
        self.0 & MAX_LENGTH
    }

    pub fn set_length(&mut self, value: u16)
        requires
            value <= 0x7ff,
        ensures
            final(self)@ == (old(self)@ & !0x7ffu16) | value,
    {
        self.0 = (self.0 & !MAX_LENGTH) | value;
    }

    pub fn group_id(&self) -> (r: u8)
        ensures
            r == spec_group_id(self@),
    {
        let v = self.0;
        assert(((v >> 11) as u8) & 0xf == ((v >> 11) & 0xf) as u8) by (bit_vector);
        (self.0 >> 11) as u8 & MAX_GROUP_ID
    }

    pub fn set_group_id(&mut self, value: u8)
        requires
            value <= 0xf,
        ensures
            final(self)@ == (old(self)@ & !(0xfu16 << 11)) | ((value as u16) << 11),
    {
        self.0 = (self.0 & !((MAX_GROUP_ID as u16) << 11)) | ((value as u16) << 11);
    }
}

impl Default for Header {
    fn default() -> (r: Self)
        ensures
            r@ == 0,
    {
        Header(0)
    }
}

/// Setting a field of a payload IE descriptor reads back and leaves the other
/// field alone.
pub proof fn law_payload_ie_fields(v: u16, length: u16, group_id: u8)
    requires
        length <= 0x7ff,
        group_id <= 0xf,
    ensures
        spec_length((v & !0x7ffu16) | length) == length,
        spec_group_id((v & !0x7ffu16) | length) == spec_group_id(v),
        spec_group_id((v & !(0xfu16 << 11)) | ((group_id as u16) << 11)) == group_id,
        spec_length((v & !(0xfu16 << 11)) | ((group_id as u16) << 11)) == spec_length(v),
{
    assert({
        &&& ((v & !0x7ffu16) | length) & 0x7ff == length
        &&& ((((v & !0x7ffu16) | length) >> 11) & 0xf) as u8 == ((v >> 11) & 0xf) as u8
        &&& ((((v & !(0xfu16 << 11)) | ((group_id as u16) << 11)) >> 11) & 0xf) as u8 == group_id
        &&& ((v & !(0xfu16 << 11)) | ((group_id as u16) << 11)) & 0x7ff == v & 0x7ff
    }) by (bit_vector)
        requires
            length <= 0x7ff,
            group_id <= 0xf,
    ;
}

impl FixSerializationLength for Header {
    open spec fn spec_ser_len() -> nat {
        2
    }

    fn ser_len() -> (n: usize) {
        2
    }
}

impl FixSerializable for Header {
    open spec fn spec_serialize(&self) -> Seq<u8> {
        (self@ | 0x8000u16).spec_serialize()
    }

    proof fn lemma_serialize_len(&self) {
        crate::mac::format::primitives::lemma_primitive_roundtrip();
    }

    fn serialize(&self) -> (r: Vec<u8>) {
        let val = self.0 | TYPE_FLAG;
        val.serialize()
    }
}

impl FixMaybeDeserializable for Header {
    /// Payload descriptors have the type bit set; it is dropped from the value.
    open spec fn spec_try_deserialize(buf: Seq<u8>) -> Option<Header> {
        let v = u16::spec_deserialize(buf);
        if v & 0x8000 != 0 {
            Some(Header::from_view(v & !0x8000u16))
        } else {
            None
        }
    }

    fn try_deserialize(buf: &[u8]) -> (r: Option<Header>) {
        let val = u16::deserialize(buf);
        if val & TYPE_FLAG != 0 {
            Some(Self(val & !TYPE_FLAG))
        } else {
            None
        }
    }
}

/// A nested IE found in an MLME payload IE.
pub enum NestedContent<'a> {
    Short { sub_id: u8, payload: ReadBuffer<'a> },
    Long { sub_id: u8, payload: ReadBuffer<'a> },
}

/// What a nested IE holds: its form, sub-ID and content.
pub enum SpecNested {
    Short { sub_id: u8, payload: Seq<u8> },
    Long { sub_id: u8, payload: Seq<u8> },
}

impl<'a> View for NestedContent<'a> {
    type V = SpecNested;

    open spec fn view(&self) -> SpecNested {
        match self {
            NestedContent::Short { sub_id, payload } => SpecNested::Short { sub_id: *sub_id, payload: payload@ },
            NestedContent::Long { sub_id, payload } => SpecNested::Long { sub_id: *sub_id, payload: payload@ },
        }
    }
}

/// The next nested IE at the front of `bytes` and the octets after it; `None`
/// at the end, `Err` when a descriptor or its content is cut short.
pub open spec fn spec_mlme_next(bytes: Seq<u8>) -> (Option<Result<SpecNested, ()>>, Seq<u8>) {
    if bytes.len() == 0 {
        (None, bytes)
    } else if bytes.len() < 2 {
        (Some(Err(())), Seq::empty())
    } else {
        let v = spec_u16_from_le_bytes(bytes.subrange(0, 2));
        let rest = bytes.subrange(2, bytes.len() as int);
        if v & 0x8000 == 0 {
            let len = spec_short_length(v) as int;
            if len <= rest.len() {
                (
                    Some(Ok(SpecNested::Short { sub_id: spec_short_sub_id(v), payload: rest.subrange(0, len) })),
                    rest.subrange(len, rest.len() as int),
                )
            } else {
                (Some(Err(())), Seq::empty())
            }
        } else {
            let w = v & !0x8000u16;
            let len = spec_long_length(w) as int;
            if len <= rest.len() {
                (
                    Some(Ok(SpecNested::Long { sub_id: spec_long_sub_id(w), payload: rest.subrange(0, len) })),
                    rest.subrange(len, rest.len() as int),
                )
            } else {
                (Some(Err(())), Seq::empty())
            }
        }
    }
}

/// Iterator over the nested IEs of an MLME payload IE.
pub struct MlmeIeIter<'a> {
    buffer: ReadBuffer<'a>,
}

impl<'a> View for MlmeIeIter<'a> {
    type V = Seq<u8>;

    closed spec fn view(&self) -> Seq<u8> {
        self.buffer@
    }
}

/// A parsed item without its borrowed buffers.
pub open spec fn spec_nested_item(r: Option<Result<NestedContent, NoSpaceLeft>>) -> Option<Result<SpecNested, ()>> {
    match r {
        None => None,
        Some(Ok(c)) => Some(Ok(c@)),
        Some(Err(_)) => Some(Err(())),
    }
}

impl<'a> MlmeIeIter<'a> {
    pub fn new(buffer: ReadBuffer<'a>) -> (r: Self)
        ensures
            r@ == buffer@,
    {
        Self { buffer }
    }

    fn raw_next(&mut self) -> (r: Result<Option<NestedContent<'a>>, NoSpaceLeft>)
        ensures
            spec_mlme_next(old(self)@).0 == match r {
                Ok(None) => None,
                Ok(Some(c)) => Some(Ok(c@)),
                Err(_) => Some(Err(())),
            },
            r is Ok ==> final(self)@ == spec_mlme_next(old(self)@).1,
    {
        if self.buffer.is_empty() {
            return Ok(None);
        }
        let ghost bytes = self.buffer@;
        let short = self.buffer.try_pop_field::<ShortIeHeader>();
        match short {
            Err(e) => Err(e),
            Ok(Some(header)) => {
                proof {
                    ShortIeHeader::lemma_view(spec_u16_from_le_bytes(bytes.subrange(0, 2)), header);
                }
                match self.buffer.pop_buffer(header.length() as usize) {
                    Ok(payload) => Ok(Some(NestedContent::Short { sub_id: header.sub_id(), payload })),
                    Err(e) => Err(e),
                }
            },
            Ok(None) => {
                let long = self.buffer.try_pop_field::<LongIeHeader>();
                match long {
                    Ok(Some(header)) => {
                        proof {
                            LongIeHeader::lemma_view(spec_u16_from_le_bytes(bytes.subrange(0, 2)) & !0x8000u16, header);
                        }
                        match self.buffer.pop_buffer(header.length() as usize) {
                            Ok(payload) => Ok(Some(NestedContent::Long { sub_id: header.sub_id(), payload })),
                            Err(e) => Err(e),
                        }
                    },
                    _ => {
                        // The type bit selects one of the two descriptors.
                        Err(NoSpaceLeft)
                    },
                }
            },
        }
    }

    pub fn next(&mut self) -> (r: Option<Result<NestedContent<'a>, NoSpaceLeft>>)
        ensures
            spec_nested_item(r) == spec_mlme_next(old(self)@).0,
            final(self)@ == spec_mlme_next(old(self)@).1,
    {
        let val = self.raw_next();
        match val {
            Ok(Some(c)) => Some(Ok(c)),
            Ok(None) => None,
            Err(e) => {
                self.buffer.clear();
                Some(Err(e))
            },
        }
    }
}

/// Builds an MLME payload IE: a descriptor followed by nested IEs.
pub struct MlmeIeBuilder {
    buffer: WriteBuffer,
    header_field: Placeholder<Header>,
    payload_offset: usize,
}

impl MlmeIeBuilder {
    /// Octets written so far, the descriptor's reserved room included.
    pub closed spec fn contents(&self) -> Seq<u8> {
        self.buffer@
    }

    pub closed spec fn spec_capacity(&self) -> nat {
        self.buffer.spec_capacity()
    }

    /// Where the nested IEs start.
    pub closed spec fn payload_offset(&self) -> nat {
        self.payload_offset as nat
    }

    pub open spec fn payload_len(&self) -> int {
        self.contents().len() - self.payload_offset()
    }

    pub closed spec fn wf(&self) -> bool {
        &&& self.header_field.offset() + 2 == self.payload_offset
        &&& self.payload_offset <= self.buffer@.len()
        &&& self.buffer@.len() - self.payload_offset <= 0x7ff
    }

    pub fn new(mut buffer: WriteBuffer) -> (r: Result<Self, NoSpaceLeft>)
        ensures
            r is Ok <==> buffer.spec_remaining() >= 2,
            r matches Ok(b) ==> {
                &&& b.wf()
                &&& b.contents() == buffer@ + seq![0u8, 0u8]
                &&& b.payload_offset() == buffer@.len() + 2
                &&& b.spec_capacity() == buffer.spec_capacity()
            },
    {
        let header_field = match buffer.append_placeholder::<Header>() {
            Ok(field) => field,
            Err(e) => return Err(e),
        };
        let payload_offset = buffer.len();
        assert(Seq::new(2, |i: int| 0u8) =~= seq![0u8, 0u8]);
        Ok(Self { buffer, header_field, payload_offset })
    }

    /// A buffer for the next nested IE, bounded by the room left here and by
    /// the 11-bit length of the container.
    pub fn add_nested_ie(&self) -> (r: Result<WriteBuffer, NoSpaceLeft>)
        requires
            self.wf(),
        ensures
            r matches Ok(b) && b@ == Seq::<u8>::empty() && b.spec_capacity() == if self.spec_capacity()
                - self.contents().len() <= 0x7ff - self.payload_len() {
                self.spec_capacity() - self.contents().len()
            } else {
                0x7ff - self.payload_len()
            },
    {
        let payload_len = self.buffer.len() - self.payload_offset;
        Ok(self.buffer.nested_buffer(MAX_LENGTH as usize - payload_len))
    }

    /// Appends a nested IE written in a buffer from `add_nested_ie`.
    pub fn commit(&mut self, nested: WriteBuffer)
        requires
            old(self).wf(),
            nested@.len() <= old(self).spec_capacity() - old(self).contents().len(),
            nested@.len() <= 0x7ff - old(self).payload_len(),
        ensures
            final(self).wf(),
            final(self).contents() == old(self).contents() + nested@,
            final(self).payload_offset() == old(self).payload_offset(),
            final(self).spec_capacity() == old(self).spec_capacity(),
    {
        nested.commit(&mut self.buffer);
    }

    /// Writes the descriptor and hands back the finished IE; an IE without
    /// nested content is dropped, and an empty buffer comes back.
    pub fn finish(self) -> (r: WriteBuffer)
        requires
            self.wf(),
        ensures
            self.payload_len() > 0 ==> r@ == spec_splice(
                self.contents(),
                self.payload_offset() - 2,
                Header::from_view(spec_descriptor(self.payload_len() as u16, MLME_GROUP_ID)).spec_serialize(),
            ),
            self.payload_len() > 0 ==> r.spec_capacity() == self.spec_capacity(),
            self.payload_len() == 0 ==> r@ == Seq::<u8>::empty(),
    {
        let mut buffer = self.buffer;
        let payload_len = buffer.len() - self.payload_offset;
        if payload_len > 0 {
            let mut header: Header = Header::default();
            header.set_group_id(MLME_GROUP_ID);
            header.set_length(payload_len as u16);
            proof {
                let l = payload_len as u16;
                assert(((((0u16 & !(0xfu16 << 11)) | (1u16 << 11)) & !0x7ffu16) | l) == ((1u16 << 11) | l)) by (bit_vector)
                    requires
                        l <= 0x7ff,
                ;
                Header::lemma_view(spec_descriptor(l, MLME_GROUP_ID), header);
            }
            buffer.write_placeholder(&self.header_field, header);
            buffer
        } else {
            WriteBuffer::new_empty()
        }
    }
}

/// An MLME container holding one short nested IE reads back as that IE.
pub proof fn law_short_nested_roundtrip(sub_id: u8, payload: Seq<u8>, rest: Seq<u8>)
    requires
        sub_id <= 0x7f,
        payload.len() <= 0xff,
    ensures
        ({
            let h = ShortIeHeader::from_view(((sub_id as u16) << 8) | (payload.len() as u16));
            spec_mlme_next(h.spec_serialize() + payload + rest) == (
                Some(Ok::<SpecNested, ()>(SpecNested::Short { sub_id, payload })),
                rest,
            )
        }),
{
    let v = ((sub_id as u16) << 8) | (payload.len() as u16);
    let h = ShortIeHeader::from_view(v);
    ShortIeHeader::lemma_view(v, h);
    crate::mac::format::primitives::lemma_primitive_roundtrip();
    let bytes = h.spec_serialize() + payload + rest;
    let l = payload.len() as u16;
    assert(bytes.subrange(0, 2) =~= v.spec_serialize());
    assert(bytes.subrange(2, bytes.len() as int) =~= payload + rest);
    assert(v & 0x8000 == 0) by (bit_vector)
        requires
            v == ((sub_id as u16) << 8) | l,
            sub_id <= 0x7f,
            l <= 0xff,
    ;
    assert(spec_short_length(v) == l && spec_short_sub_id(v) == sub_id) by (bit_vector)
        requires
            v == ((sub_id as u16) << 8) | l,
            sub_id <= 0x7f,
            l <= 0xff,
    ;
    assert((payload + rest).subrange(0, payload.len() as int) =~= payload);
    assert((payload + rest).subrange(payload.len() as int, (payload + rest).len() as int) =~= rest);
}

} // verus!

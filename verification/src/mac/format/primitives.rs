//! Little-endian encoding of unsigned integers, IEEE 802.15.4-2020 ch. 4.3.
use vstd::prelude::*;
use vstd::bytes::{
    spec_u16_from_le_bytes, spec_u16_to_le_bytes, spec_u32_from_le_bytes, spec_u32_to_le_bytes,
    spec_u64_from_le_bytes, spec_u64_to_le_bytes,
};
use crate::mac::format::serializer::{FixDeserializable, FixSerializable, FixSerializationLength};

verus! {

impl FixSerializationLength for u8 {
    open spec fn spec_ser_len() -> nat {
        1
    }

    fn ser_len() -> (n: usize) {
        1
    }
}

impl FixSerializable for u8 {
    open spec fn spec_serialize(&self) -> Seq<u8> {
        seq![*self]
    }

    proof fn lemma_serialize_len(&self) {
        crate::mac::format::primitives::lemma_primitive_roundtrip();
    }

    fn serialize(&self) -> (r: Vec<u8>) {
        let mut v = Vec::new();
        v.push(*self);
        assert(v@ =~= seq![*self]);
        v
    }
}

impl FixDeserializable for u8 {
    open spec fn spec_deserialize(buf: Seq<u8>) -> u8 {
        buf[0]
    }

    fn deserialize(buf: &[u8]) -> (r: u8) {
        buf[0]
    }
}

impl FixSerializationLength for u16 {
    open spec fn spec_ser_len() -> nat {
        2
    }

    fn ser_len() -> (n: usize) {
        2
    }
}

impl FixSerializable for u16 {
    open spec fn spec_serialize(&self) -> Seq<u8> {
        spec_u16_to_le_bytes(*self)
    }

    proof fn lemma_serialize_len(&self) {
        crate::mac::format::primitives::lemma_primitive_roundtrip();
    }

    fn serialize(&self) -> (r: Vec<u8>) {
        vstd::bytes::u16_to_le_bytes(*self)
    }
}

impl FixDeserializable for u16 {
    open spec fn spec_deserialize(buf: Seq<u8>) -> u16 {
        spec_u16_from_le_bytes(buf)
    }

    fn deserialize(buf: &[u8]) -> (r: u16) {
        vstd::bytes::u16_from_le_bytes(buf)
    }
}

impl FixSerializationLength for u32 {
    open spec fn spec_ser_len() -> nat {
        4
    }

    fn ser_len() -> (n: usize) {
        4
    }
}

impl FixSerializable for u32 {
    open spec fn spec_serialize(&self) -> Seq<u8> {
        spec_u32_to_le_bytes(*self)
    }

    proof fn lemma_serialize_len(&self) {
        crate::mac::format::primitives::lemma_primitive_roundtrip();
    }

    fn serialize(&self) -> (r: Vec<u8>) {
        vstd::bytes::u32_to_le_bytes(*self)
    }
}

impl FixDeserializable for u32 {
    open spec fn spec_deserialize(buf: Seq<u8>) -> u32 {
        spec_u32_from_le_bytes(buf)
    }

    fn deserialize(buf: &[u8]) -> (r: u32) {
        vstd::bytes::u32_from_le_bytes(buf)
    }
}

impl FixSerializationLength for u64 {
    open spec fn spec_ser_len() -> nat {
        8
    }

    fn ser_len() -> (n: usize) {
        8
    }
}

impl FixSerializable for u64 {
    open spec fn spec_serialize(&self) -> Seq<u8> {
        spec_u64_to_le_bytes(*self)
    }

    proof fn lemma_serialize_len(&self) {
        crate::mac::format::primitives::lemma_primitive_roundtrip();
    }

    fn serialize(&self) -> (r: Vec<u8>) {
        vstd::bytes::u64_to_le_bytes(*self)
    }
}

impl FixDeserializable for u64 {
    open spec fn spec_deserialize(buf: Seq<u8>) -> u64 {
        spec_u64_from_le_bytes(buf)
    }

    fn deserialize(buf: &[u8]) -> (r: u64) {
        vstd::bytes::u64_from_le_bytes(buf)
    }
}

/// Decoding an encoded integer gives it back, and the encodings have the
/// lengths the fields declare.
pub proof fn lemma_primitive_roundtrip()
    ensures
        forall|x: u8| (#[trigger] x.spec_serialize()).len() == 1 && u8::spec_deserialize(x.spec_serialize()) == x,
        forall|x: u16| (#[trigger] x.spec_serialize()).len() == 2 && u16::spec_deserialize(x.spec_serialize()) == x,
        forall|x: u32| (#[trigger] x.spec_serialize()).len() == 4 && u32::spec_deserialize(x.spec_serialize()) == x,
        forall|x: u64| (#[trigger] x.spec_serialize()).len() == 8 && u64::spec_deserialize(x.spec_serialize()) == x,
{
    vstd::bytes::lemma_auto_spec_u16_to_from_le_bytes();
    vstd::bytes::lemma_auto_spec_u32_to_from_le_bytes();
    vstd::bytes::lemma_auto_spec_u64_to_from_le_bytes();
    assert forall|x: u8| (#[trigger] x.spec_serialize()).len() == 1 && u8::spec_deserialize(x.spec_serialize()) == x by {
    }
}

} // verus!

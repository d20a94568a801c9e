//! MAC frame format: frame header, information elements and their wire encoding.
use vstd::prelude::*;

pub mod frame;
pub mod header_ie;
pub mod nested_ie;
pub mod payload_ie;
pub mod primitives;
pub mod serializer;

pub use serializer::{NoSpaceLeft, WriteBuffer};

use crate::mac::format::serializer::{FixDeserializable, FixSerializable, FixSerializationLength};
use crate::phy::{ExtendedAddress, PanId, ShortAddress};

verus! {

impl FixSerializationLength for PanId {
    open spec fn spec_ser_len() -> nat {
        2
    }

    fn ser_len() -> (n: usize) {
        2
    }
}

impl FixSerializable for PanId {
    open spec fn spec_serialize(&self) -> Seq<u8> {
        self@.spec_serialize()
    }

    proof fn lemma_serialize_len(&self) {
        crate::mac::format::primitives::lemma_primitive_roundtrip();
    }

    fn serialize(&self) -> (r: Vec<u8>) {
        self.as_u16().serialize()
    }
}

impl FixDeserializable for PanId {
    open spec fn spec_deserialize(buf: Seq<u8>) -> PanId {
        PanId::from_view(u16::spec_deserialize(buf))
    }

    fn deserialize(buf: &[u8]) -> (r: PanId) {
        PanId::new(u16::deserialize(buf))
    }
}

impl FixSerializationLength for ShortAddress {
    open spec fn spec_ser_len() -> nat {
        2
    }

    fn ser_len() -> (n: usize) {
        2
    }
}

impl FixSerializable for ShortAddress {
    open spec fn spec_serialize(&self) -> Seq<u8> {
        self@.spec_serialize()
    }

    proof fn lemma_serialize_len(&self) {
        crate::mac::format::primitives::lemma_primitive_roundtrip();
    }

    fn serialize(&self) -> (r: Vec<u8>) {
        self.as_u16().serialize()
    }
}

impl FixDeserializable for ShortAddress {
    open spec fn spec_deserialize(buf: Seq<u8>) -> ShortAddress {
        ShortAddress::from_view(u16::spec_deserialize(buf))
    }

    fn deserialize(buf: &[u8]) -> (r: ShortAddress) {
        ShortAddress::new(u16::deserialize(buf))
    }
}

impl FixSerializationLength for ExtendedAddress {
    open spec fn spec_ser_len() -> nat {
        8
    }

    fn ser_len() -> (n: usize) {
        8
    }
}

impl FixSerializable for ExtendedAddress {
    open spec fn spec_serialize(&self) -> Seq<u8> {
        self@.spec_serialize()
    }

    proof fn lemma_serialize_len(&self) {
        crate::mac::format::primitives::lemma_primitive_roundtrip();
    }

    fn serialize(&self) -> (r: Vec<u8>) {
        self.as_u64().serialize()
    }
}

impl FixDeserializable for ExtendedAddress {
    open spec fn spec_deserialize(buf: Seq<u8>) -> ExtendedAddress {
        ExtendedAddress::from_view(u64::spec_deserialize(buf))
    }

    fn deserialize(buf: &[u8]) -> (r: ExtendedAddress) {
        ExtendedAddress::new(u64::deserialize(buf))
    }
}

#[derive(Clone, Copy, Eq, PartialEq, Structural, Debug)]
pub enum Address {
    Short(ShortAddress),
    Extended(ExtendedAddress),
}


/// A field read from the front of the octets it was written as, whatever
/// follows them, gives the field back, and what follows is left: for the
/// integers and the PAN ID and addresses.
pub proof fn law_field_roundtrip(rest: Seq<u8>)
    ensures
        forall|x: u8|
            #![trigger x.spec_serialize()]
            u8::spec_deserialize((x.spec_serialize() + rest).subrange(0, 1)) == x && (x.spec_serialize()
                + rest).subrange(1, 1 + rest.len() as int) == rest,
        forall|x: u16|
            #![trigger x.spec_serialize()]
            u16::spec_deserialize((x.spec_serialize() + rest).subrange(0, 2)) == x && (x.spec_serialize()
                + rest).subrange(2, 2 + rest.len() as int) == rest,
        forall|x: u32|
            #![trigger x.spec_serialize()]
            u32::spec_deserialize((x.spec_serialize() + rest).subrange(0, 4)) == x && (x.spec_serialize()
                + rest).subrange(4, 4 + rest.len() as int) == rest,
        forall|x: u64|
            #![trigger x.spec_serialize()]
            u64::spec_deserialize((x.spec_serialize() + rest).subrange(0, 8)) == x && (x.spec_serialize()
                + rest).subrange(8, 8 + rest.len() as int) == rest,
        forall|x: PanId|
            #![trigger x.spec_serialize()]
            PanId::spec_deserialize((x.spec_serialize() + rest).subrange(0, 2)) == x && (x.spec_serialize()
                + rest).subrange(2, 2 + rest.len() as int) == rest,
        forall|x: ShortAddress|
            #![trigger x.spec_serialize()]
            ShortAddress::spec_deserialize((x.spec_serialize() + rest).subrange(0, 2)) == x && (x.spec_serialize()
                + rest).subrange(2, 2 + rest.len() as int) == rest,
        forall|x: ExtendedAddress|
            #![trigger x.spec_serialize()]
            ExtendedAddress::spec_deserialize((x.spec_serialize() + rest).subrange(0, 8)) == x && (x.spec_serialize()
                + rest).subrange(8, 8 + rest.len() as int) == rest,
{
    broadcast use crate::phy::group_address_views;
    crate::mac::format::primitives::lemma_primitive_roundtrip();
    assert forall|x: u8| #![trigger x.spec_serialize()]
        u8::spec_deserialize((x.spec_serialize() + rest).subrange(0, 1)) == x && (x.spec_serialize()
            + rest).subrange(1, 1 + rest.len() as int) == rest by {
        assert((x.spec_serialize() + rest).subrange(0, 1) =~= x.spec_serialize());
        assert((x.spec_serialize() + rest).subrange(1, 1 + rest.len() as int) =~= rest);
    }
    assert forall|x: u16| #![trigger x.spec_serialize()]
        u16::spec_deserialize((x.spec_serialize() + rest).subrange(0, 2)) == x && (x.spec_serialize()
            + rest).subrange(2, 2 + rest.len() as int) == rest by {
        assert((x.spec_serialize() + rest).subrange(0, 2) =~= x.spec_serialize());
        assert((x.spec_serialize() + rest).subrange(2, 2 + rest.len() as int) =~= rest);
    }
    assert forall|x: u32| #![trigger x.spec_serialize()]
        u32::spec_deserialize((x.spec_serialize() + rest).subrange(0, 4)) == x && (x.spec_serialize()
            + rest).subrange(4, 4 + rest.len() as int) == rest by {
        assert((x.spec_serialize() + rest).subrange(0, 4) =~= x.spec_serialize());
        assert((x.spec_serialize() + rest).subrange(4, 4 + rest.len() as int) =~= rest);
    }
    assert forall|x: u64| #![trigger x.spec_serialize()]
        u64::spec_deserialize((x.spec_serialize() + rest).subrange(0, 8)) == x && (x.spec_serialize()
            + rest).subrange(8, 8 + rest.len() as int) == rest by {
        assert((x.spec_serialize() + rest).subrange(0, 8) =~= x.spec_serialize());
        assert((x.spec_serialize() + rest).subrange(8, 8 + rest.len() as int) =~= rest);
    }
    assert forall|x: PanId| #![trigger x.spec_serialize()]
        PanId::spec_deserialize((x.spec_serialize() + rest).subrange(0, 2)) == x && (x.spec_serialize()
            + rest).subrange(2, 2 + rest.len() as int) == rest by {
        let v = x@;
        assert(v.spec_serialize().len() == 2 && u16::spec_deserialize(v.spec_serialize()) == v);
        assert((x.spec_serialize() + rest).subrange(0, 2) =~= v.spec_serialize());
        assert((x.spec_serialize() + rest).subrange(2, 2 + rest.len() as int) =~= rest);
    }
    assert forall|x: ShortAddress| #![trigger x.spec_serialize()]
        ShortAddress::spec_deserialize((x.spec_serialize() + rest).subrange(0, 2)) == x && (x.spec_serialize()
            + rest).subrange(2, 2 + rest.len() as int) == rest by {
        let v = x@;
        assert(v.spec_serialize().len() == 2 && u16::spec_deserialize(v.spec_serialize()) == v);
        assert((x.spec_serialize() + rest).subrange(0, 2) =~= v.spec_serialize());
        assert((x.spec_serialize() + rest).subrange(2, 2 + rest.len() as int) =~= rest);
    }
    assert forall|x: ExtendedAddress| #![trigger x.spec_serialize()]
        ExtendedAddress::spec_deserialize((x.spec_serialize() + rest).subrange(0, 8)) == x && (x.spec_serialize()
            + rest).subrange(8, 8 + rest.len() as int) == rest by {
        let v = x@;
        assert(v.spec_serialize().len() == 8 && u64::spec_deserialize(v.spec_serialize()) == v);
        assert((x.spec_serialize() + rest).subrange(0, 8) =~= v.spec_serialize());
        assert((x.spec_serialize() + rest).subrange(8, 8 + rest.len() as int) =~= rest);
    }
}
} // verus!

//! IEEE 802.15.4 frame version 2: frame control, addressing fields and the
//! information elements that follow them.
use vstd::prelude::*;
use vstd::bytes::spec_u16_from_le_bytes;
use crate::mac::format::serializer::{
    FixDeserializable, FixSerializable, FixSerializationLength, Placeholder, ReadBuffer,
};
use crate::mac::format::{header_ie, payload_ie};
use crate::mac::format::nested_ie::{ShortIeHeader, spec_short_descriptor};
use crate::mac::format::nested_ie::rd_ie;
use crate::mac::format::payload_ie::{MlmeIeIter, NestedContent, SpecNested, spec_mlme_next};
use crate::mac::format::{Address, NoSpaceLeft, WriteBuffer};
use crate::phy::{ExtendedAddress, PanId, ShortAddress};

verus! {

broadcast use crate::phy::group_address_views;

#[derive(Clone, Copy, Eq, PartialEq, Structural, Debug)]
pub enum FrameType {
    Beacon,
    Data,
    Ack,
    MacCommand,
    _Reserved100,
    Multipurpose,
    Fragment,
    Extended,
}

/// The 3-bit frame type code.
pub open spec fn spec_frame_type_code(t: FrameType) -> u16 {
    match t {
        FrameType::Beacon => 0,
        FrameType::Data => 1,
        FrameType::Ack => 2,
        FrameType::MacCommand => 3,
        FrameType::_Reserved100 => 4,
        FrameType::Multipurpose => 5,
        FrameType::Fragment => 6,
        FrameType::Extended => 7,
    }
}

/// The frame type with the code in the three low bits of `v`.
pub open spec fn spec_frame_type_from(v: u16) -> FrameType {
    let c = v & 7;
    if c == 0 {
        FrameType::Beacon
    } else if c == 1 {
        FrameType::Data
    } else if c == 2 {
        FrameType::Ack
    } else if c == 3 {
        FrameType::MacCommand
    } else if c == 4 {
        FrameType::_Reserved100
    } else if c == 5 {
        FrameType::Multipurpose
    } else if c == 6 {
        FrameType::Fragment
    } else {
        FrameType::Extended
    }
}

impl FrameType {
    fn from_u8_truncate(value: u8) -> (r: Self)
        ensures
            r == spec_frame_type_from(value as u16),
    {
        let c = value & 0b111;
        assert(c as u16 == (value as u16) & 7) by (bit_vector)
            requires
                c == value & 7,
        ;
        if c == 0 {
            FrameType::Beacon
        } else if c == 1 {
            FrameType::Data
        } else if c == 2 {
            FrameType::Ack
        } else if c == 3 {
            FrameType::MacCommand
        } else if c == 4 {
            FrameType::_Reserved100
        } else if c == 5 {
            FrameType::Multipurpose
        } else if c == 6 {
            FrameType::Fragment
        } else {
            FrameType::Extended
        }
    }

    fn code(self) -> (r: u16)
        ensures
            r == spec_frame_type_code(self),
    {
        match self {
            FrameType::Beacon => 0,
            FrameType::Data => 1,
            FrameType::Ack => 2,
            FrameType::MacCommand => 3,
            FrameType::_Reserved100 => 4,
            FrameType::Multipurpose => 5,
            FrameType::Fragment => 6,
            FrameType::Extended => 7,
        }
    }
}

#[derive(Clone, Copy, Eq, PartialEq, Structural, Debug)]
pub struct Header {
    pub frame_type: FrameType,
    pub frame_pending: bool,
    pub ack_request: bool,
    pub sequence_number: Option<u8>,
    pub destination_pan_id: Option<PanId>,
    pub destination_address: Option<Address>,
    pub source_pan_id: Option<PanId>,
    pub source_address: Option<Address>,
}

/// Addressing mode code of an address field: 0 absent, 2 short, 3 extended
/// (1 is reserved).
pub open spec fn spec_address_mode(a: Option<Address>) -> u16 {
    match a {
        None => 0,
        Some(Address::Short(_)) => 2,
        Some(Address::Extended(_)) => 3,
    }
}

pub open spec fn spec_bit(b: bool) -> u16 {
    if b { 1 } else { 0 }
}

/// Frame control field of a version 2 frame.
pub open spec fn spec_frame_control(h: Header, pan_id_compression: bool, ie_present: bool) -> u16 {
    spec_frame_type_code(h.frame_type) | (spec_bit(h.frame_pending) << 4) | (spec_bit(h.ack_request) << 5)
        | (spec_bit(pan_id_compression) << 6) | (spec_bit(h.sequence_number is None) << 8) | (spec_bit(ie_present) << 9)
        | (spec_address_mode(h.destination_address) << 10) | (2u16 << 12) | (spec_address_mode(h.source_address) << 14)
}

/// Whether a version 2 frame with these addresses and PAN IDs omits the
/// source PAN ID (IEEE 802.15.4-2020 table 7-2); `None` for combinations
/// the table does not allow.
pub open spec fn spec_pan_id_compression(h: Header) -> Option<bool> {
    match (h.destination_address, h.source_address, h.destination_pan_id, h.source_pan_id) {
        (None, None, None, None) => Some(false),
        (None, None, Some(_), None) => Some(true),
        (Some(_), None, Some(_), None) => Some(false),
        (Some(_), None, None, None) => Some(true),
        (None, Some(_), None, Some(_)) => Some(false),
        (None, Some(_), None, None) => Some(true),
        (Some(Address::Extended(_)), Some(Address::Extended(_)), Some(_), None) => Some(false),
        (Some(Address::Extended(_)), Some(Address::Extended(_)), None, None) => Some(true),
        (Some(Address::Short(_)), Some(Address::Short(_)), Some(d), Some(s)) => Some(d == s),
        (Some(Address::Short(_)), Some(Address::Extended(_)), Some(d), Some(s)) => Some(d == s),
        (Some(Address::Extended(_)), Some(Address::Short(_)), Some(d), Some(s)) => Some(d == s),
        _ => None,
    }
}

#[verifier::opaque]
pub open spec fn spec_pan_bytes(p: Option<PanId>) -> Seq<u8> {
    match p {
        None => Seq::empty(),
        Some(p) => p.spec_serialize(),
    }
}

#[verifier::opaque]
pub open spec fn spec_address_bytes(a: Option<Address>) -> Seq<u8> {
    match a {
        None => Seq::empty(),
        Some(Address::Short(s)) => s.spec_serialize(),
        Some(Address::Extended(e)) => e.spec_serialize(),
    }
}

/// The fields after the frame control: sequence number, destination PAN ID
/// and address, source PAN ID unless compressed, source address.
pub open spec fn spec_header_fields(h: Header, pan_id_compression: bool) -> Seq<u8> {
    spec_sequence_bytes(h.sequence_number) + (spec_pan_bytes(h.destination_pan_id) + (spec_address_bytes(
        h.destination_address,
    ) + (spec_pan_bytes(if pan_id_compression { None } else { h.source_pan_id }) + spec_address_bytes(
        h.source_address,
    ))))
}

#[verifier::opaque]
pub open spec fn spec_sequence_bytes(s: Option<u8>) -> Seq<u8> {
    match s {
        None => Seq::empty(),
        Some(s) => seq![s],
    }
}

/// A header the frame builder accepts: a frame type up to MAC command and an
/// addressing combination of table 7-2.
pub open spec fn spec_header_valid(h: Header) -> bool {
    spec_frame_type_code(h.frame_type) <= 3 && spec_pan_id_compression(h) is Some
}

/// The octets a header is written as, the frame control first.
pub open spec fn spec_header_bytes(h: Header, ie_present: bool) -> Seq<u8> {
    let pic = spec_pan_id_compression(h).unwrap();
    spec_frame_control(h, pic, ie_present).spec_serialize() + spec_header_fields(h, pic)
}

#[derive(Clone, Copy, Eq, PartialEq, Structural, Debug)]
pub enum HeaderField {
    FrameType,
    FrameVersion,
    SecurityEnable,
    Addressing,
    SeqNumSuppression,
    IePreset,
    IeHeader,
    RbsDuration,
    FirstRcmSlot,
    RmTable,
}

#[derive(Clone, Copy, Debug, PartialEq, Eq, Structural)]
pub enum ParseError {
    UnexpectedTermination,
    UnsupportedValue(HeaderField),
}

/// Which PAN IDs a frame carries, as (destination present, source present,
/// source equal to destination), for a frame version (legacy is version 0 or
/// 1), the two addressing mode codes and the PAN ID compression bit; `None`
/// for combinations that are not allowed.
pub open spec fn spec_pan_id_layout(legacy: bool, dm: u16, sm: u16, pic: bool) -> Option<(bool, bool, bool)> {
    let d_addr = dm == 2 || dm == 3;
    let s_addr = sm == 2 || sm == 3;
    if legacy {
        if d_addr && s_addr {
            Some((true, !pic, pic))
        } else if d_addr && sm == 0 && !pic {
            Some((true, false, false))
        } else if dm == 0 && s_addr && !pic {
            Some((false, true, false))
        } else if dm == 0 && sm == 0 && !pic {
            Some((false, false, false))
        } else {
            None
        }
    } else {
        if dm == 0 && sm == 0 {
            Some((pic, false, false))
        } else if d_addr && sm == 0 {
            Some((!pic, false, false))
        } else if dm == 0 && s_addr {
            Some((false, !pic, false))
        } else if dm == 3 && sm == 3 {
            Some((!pic, false, false))
        } else if d_addr && s_addr {
            Some((true, !pic, pic))
        } else {
            None
        }
    }
}

/// Octets of an address with the given mode code.
pub open spec fn spec_address_len(mode: u16) -> int {
    if mode == 2 {
        2
    } else if mode == 3 {
        8
    } else {
        0
    }
}

pub open spec fn spec_decode_address(mode: u16, b: Seq<u8>) -> Option<Address> {
    if mode == 2 {
        Some(Address::Short(ShortAddress::spec_deserialize(b)))
    } else if mode == 3 {
        Some(Address::Extended(ExtendedAddress::spec_deserialize(b)))
    } else {
        None
    }
}

/// The frame control value of a received frame, reserved bit 7 cleared.
pub open spec fn spec_received_control(bytes: Seq<u8>) -> u16 {
    spec_u16_from_le_bytes(bytes.subrange(0, 2)) & !0x80u16
}

/// The sequence number at the front of `b`, if one is there, and what follows.
#[verifier::opaque]
pub open spec fn spec_take_sequence(present: bool, b: Seq<u8>) -> (Option<u8>, Seq<u8>) {
    if present {
        (Some(b[0]), b.subrange(1, b.len() as int))
    } else {
        (None, b)
    }
}

/// The PAN ID at the front of `b`, if one is there, and what follows.
#[verifier::opaque]
pub open spec fn spec_take_pan(present: bool, b: Seq<u8>) -> (Option<PanId>, Seq<u8>) {
    if present {
        (Some(PanId::spec_deserialize(b.subrange(0, 2))), b.subrange(2, b.len() as int))
    } else {
        (None, b)
    }
}

/// The address with the given mode code at the front of `b`, and what follows.
#[verifier::opaque]
pub open spec fn spec_take_address(mode: u16, b: Seq<u8>) -> (Option<Address>, Seq<u8>) {
    let n = spec_address_len(mode);
    (spec_decode_address(mode, b.subrange(0, n)), b.subrange(n, b.len() as int))
}

/// The addressing fields in `body` for a frame whose control field gives
/// these presences and mode codes: sequence number, destination PAN ID and
/// address, source PAN ID and address, and the octets after them; `None` when
/// `body` is too short.
#[verifier::opaque]
pub open spec fn spec_decode_fields(seq_present: bool, dpp: bool, dm: u16, spp: bool, sm: u16, body: Seq<u8>) -> Option<
    (Option<u8>, Option<PanId>, Option<Address>, Option<PanId>, Option<Address>, Seq<u8>),
> {
    let needed = (if seq_present { 1int } else { 0int }) + (if dpp { 2int } else { 0int }) + spec_address_len(dm) + (
    if spp { 2int } else { 0int }) + spec_address_len(sm);
    if body.len() < needed {
        None
    } else {
        let (seq, r1) = spec_take_sequence(seq_present, body);
        let (dst_pan, r2) = spec_take_pan(dpp, r1);
        let (dst_addr, r3) = spec_take_address(dm, r2);
        let (src_pan, r4) = spec_take_pan(spp, r3);
        let (src_addr, r5) = spec_take_address(sm, r4);
        Some((seq, dst_pan, dst_addr, src_pan, src_addr, r5))
    }
}

/// Decodes a header from its frame control value `v` and the octets after
/// the frame control.
pub open spec fn spec_header_from_control(v: u16, body: Seq<u8>) -> Result<(Header, bool, Seq<u8>), ParseError> {
    let version = (v >> 12) & 3;
    let legacy = version <= 1;
    let dm = (v >> 10) & 3;
    let sm = (v >> 14) & 3;
    let pic = (v >> 6) & 1 != 0;
    let sns = (v >> 8) & 1 != 0;
    let ie = (v >> 9) & 1 != 0;
    if v & 7 > 3 {
        Err(ParseError::UnsupportedValue(HeaderField::FrameType))
    } else if version > 2 {
        Err(ParseError::UnsupportedValue(HeaderField::FrameVersion))
    } else if (v >> 3) & 1 != 0 {
        Err(ParseError::UnsupportedValue(HeaderField::SecurityEnable))
    } else if spec_pan_id_layout(legacy, dm, sm, pic) is None {
        Err(ParseError::UnsupportedValue(HeaderField::Addressing))
    } else if sns && legacy {
        Err(ParseError::UnsupportedValue(HeaderField::SeqNumSuppression))
    } else if ie && legacy {
        Err(ParseError::UnsupportedValue(HeaderField::IePreset))
    } else {
        let (dpp, spp, copy) = spec_pan_id_layout(legacy, dm, sm, pic).unwrap();
        match spec_decode_fields(!sns, dpp, dm, spp, sm, body) {
            None => Err(ParseError::UnexpectedTermination),
            Some((seq, dst_pan, dst_addr, src_pan, src_addr, rest)) => {
                let h = Header {
                    frame_type: spec_frame_type_from(v),
                    frame_pending: (v >> 4) & 1 != 0,
                    ack_request: (v >> 5) & 1 != 0,
                    sequence_number: seq,
                    destination_pan_id: dst_pan,
                    destination_address: dst_addr,
                    source_pan_id: if spp {
                        src_pan
                    } else if copy {
                        dst_pan
                    } else {
                        None
                    },
                    source_address: src_addr,
                };
                Ok((h, ie, rest))
            },
        }
    }
}

/// Decodes the header at the front of `bytes` into the header, whether
/// information elements follow, and the octets after the header.
pub open spec fn spec_parse_header(bytes: Seq<u8>) -> Result<(Header, bool, Seq<u8>), ParseError> {
    if bytes.len() < 2 {
        Err(ParseError::UnexpectedTermination)
    } else {
        spec_header_from_control(spec_received_control(bytes), bytes.subrange(2, bytes.len() as int))
    }
}

proof fn lemma_frame_control_fields(ft: u16, fp: u16, ar: u16, pic: u16, sns: u16, ie: u16, dm: u16, sm: u16)
    requires
        ft <= 3,
        fp <= 1,
        ar <= 1,
        pic <= 1,
        sns <= 1,
        ie <= 1,
        dm == 0 || dm == 2 || dm == 3,
        sm == 0 || sm == 2 || sm == 3,
    ensures
        ({
            let v = (ft | (fp << 4) | (ar << 5) | (pic << 6) | (sns << 8) | (ie << 9) | (dm << 10) | (2u16 << 12)
                | (sm << 14)) & !0x80u16;
            &&& v & 7 == ft
            &&& (v >> 4) & 1 == fp
            &&& (v >> 5) & 1 == ar
            &&& (v >> 6) & 1 == pic
            &&& (v >> 8) & 1 == sns
            &&& (v >> 9) & 1 == ie
            &&& (v >> 10) & 3 == dm
            &&& (v >> 12) & 3 == 2
            &&& (v >> 14) & 3 == sm
            &&& (v >> 3) & 1 == 0
        }),
        (ft | (fp << 4) | (ar << 5) | (pic << 6) | (sns << 8) | (ie << 9) | (dm << 10) | (2u16 << 12) | (sm << 14))
            & !0x80u16 == (ft | (fp << 4) | (ar << 5) | (pic << 6) | (sns << 8) | (ie << 9) | (dm << 10) | (2u16 << 12)
            | (sm << 14)),
{
    assert({
        let v = (ft | (fp << 4) | (ar << 5) | (pic << 6) | (sns << 8) | (ie << 9) | (dm << 10) | (2u16 << 12)
            | (sm << 14)) & !0x80u16;
        &&& v & 7 == ft
        &&& (v >> 4) & 1 == fp
        &&& (v >> 5) & 1 == ar
        &&& (v >> 6) & 1 == pic
        &&& (v >> 8) & 1 == sns
        &&& (v >> 9) & 1 == ie
        &&& (v >> 10) & 3 == dm
        &&& (v >> 12) & 3 == 2
        &&& (v >> 14) & 3 == sm
        &&& (v >> 3) & 1 == 0
    }) by (bit_vector)
        requires
            ft <= 3,
            fp <= 1,
            ar <= 1,
            pic <= 1,
            sns <= 1,
            ie <= 1,
            dm == 0 || dm == 2 || dm == 3,
            sm == 0 || sm == 2 || sm == 3,
    ;
    assert((ft | (fp << 4) | (ar << 5) | (pic << 6) | (sns << 8) | (ie << 9) | (dm << 10) | (2u16 << 12) | (sm << 14))
        & !0x80u16 == (ft | (fp << 4) | (ar << 5) | (pic << 6) | (sns << 8) | (ie << 9) | (dm << 10) | (2u16 << 12)
        | (sm << 14))) by (bit_vector)
        requires
            ft <= 3,
            fp <= 1,
            ar <= 1,
            pic <= 1,
            sns <= 1,
            ie <= 1,
            dm == 0 || dm == 2 || dm == 3,
            sm == 0 || sm == 2 || sm == 3,
    ;
}

proof fn lemma_take_address(a: Option<Address>, rest: Seq<u8>)
    ensures
        spec_take_address(spec_address_mode(a), spec_address_bytes(a) + rest) == (a, rest),
        spec_address_bytes(a).len() == spec_address_len(spec_address_mode(a)),
{
    reveal(spec_take_address);
    reveal(spec_address_bytes);
    crate::mac::format::primitives::lemma_primitive_roundtrip();
    let b = spec_address_bytes(a);
    assert((b + rest).subrange(0, b.len() as int) =~= b);
    assert((b + rest).subrange(b.len() as int, (b + rest).len() as int) =~= rest);
}

proof fn lemma_take_pan(p: Option<PanId>, rest: Seq<u8>)
    ensures
        spec_take_pan(p is Some, spec_pan_bytes(p) + rest) == (p, rest),
        spec_pan_bytes(p).len() == if p is Some { 2int } else { 0int },
{
    reveal(spec_take_pan);
    reveal(spec_pan_bytes);
    crate::mac::format::primitives::lemma_primitive_roundtrip();
    let b = spec_pan_bytes(p);
    assert((b + rest).subrange(0, b.len() as int) =~= b);
    assert((b + rest).subrange(b.len() as int, (b + rest).len() as int) =~= rest);
    match p {
        Some(x) => {
            assert(PanId::spec_deserialize(x.spec_serialize()) == x);
        },
        None => {
            assert(b + rest =~= rest);
        },
    }
}

proof fn lemma_take_sequence(s: Option<u8>, rest: Seq<u8>)
    ensures
        spec_take_sequence(s is Some, spec_sequence_bytes(s) + rest) == (s, rest),
        spec_sequence_bytes(s).len() == if s is Some { 1int } else { 0int },
{
    reveal(spec_take_sequence);
    reveal(spec_sequence_bytes);
    let b = spec_sequence_bytes(s);
    match s {
        Some(x) => {
            assert((b + rest).subrange(1, (b + rest).len() as int) =~= rest);
        },
        None => {
            assert(b + rest =~= rest);
        },
    }
}

proof fn lemma_decode_fields(
    s: Option<u8>,
    dp: Option<PanId>,
    da: Option<Address>,
    sp: Option<PanId>,
    sa: Option<Address>,
    rest: Seq<u8>,
)
    ensures
        spec_decode_fields(
            s is Some,
            dp is Some,
            spec_address_mode(da),
            sp is Some,
            spec_address_mode(sa),
            spec_sequence_bytes(s) + (spec_pan_bytes(dp) + (spec_address_bytes(da) + (spec_pan_bytes(sp)
                + spec_address_bytes(sa)))) + rest,
        ) == Some((s, dp, da, sp, sa, rest)),
{
    reveal(spec_decode_fields);
    let r4 = spec_address_bytes(sa) + rest;
    let r3 = spec_pan_bytes(sp) + r4;
    let r2 = spec_address_bytes(da) + r3;
    let r1 = spec_pan_bytes(dp) + r2;
    let body = spec_sequence_bytes(s) + r1;
    lemma_take_sequence(s, r1);
    lemma_take_pan(dp, r2);
    lemma_take_address(da, r3);
    lemma_take_pan(sp, r4);
    lemma_take_address(sa, rest);
    assert(spec_sequence_bytes(s) + (spec_pan_bytes(dp) + (spec_address_bytes(da) + (spec_pan_bytes(sp)
        + spec_address_bytes(sa)))) + rest =~= body);
}

proof fn lemma_layout(h: Header)
    requires
        spec_header_valid(h),
    ensures
        ({
            let pic = spec_pan_id_compression(h).unwrap();
            let dm = spec_address_mode(h.destination_address);
            let sm = spec_address_mode(h.source_address);
            let layout = spec_pan_id_layout(false, dm, sm, pic);
            &&& layout is Some
            &&& layout.unwrap().0 == h.destination_pan_id is Some
            &&& layout.unwrap().1 == (!pic && h.source_pan_id is Some)
            &&& h.source_pan_id == if layout.unwrap().1 {
                h.source_pan_id
            } else if layout.unwrap().2 {
                h.destination_pan_id
            } else {
                None
            }
            &&& (dm == 0 || dm == 2 || dm == 3)
            &&& (sm == 0 || sm == 2 || sm == 3)
        }),
{
}

/// A header written by the frame builder reads back as itself, with the
/// information-element flag it was written with and the octets after it.
pub proof fn law_header_roundtrip(h: Header, ie_present: bool, rest: Seq<u8>)
    requires
        spec_header_valid(h),
    ensures
        spec_parse_header(spec_header_bytes(h, ie_present) + rest) == Ok::<(Header, bool, Seq<u8>), ParseError>(
            (h, ie_present, rest),
        ),
{
    lemma_layout(h);
    let pic = spec_pan_id_compression(h).unwrap();
    let fc = spec_frame_control(h, pic, ie_present);
    let dm = spec_address_mode(h.destination_address);
    let sm = spec_address_mode(h.source_address);
    let src_pan_written: Option<PanId> = if pic { None } else { h.source_pan_id };
    let fields = spec_header_fields(h, pic);
    assert(fields == spec_sequence_bytes(h.sequence_number) + (spec_pan_bytes(h.destination_pan_id) + (
    spec_address_bytes(h.destination_address) + (spec_pan_bytes(src_pan_written) + spec_address_bytes(
        h.source_address,
    )))));
    lemma_decode_fields(
        h.sequence_number,
        h.destination_pan_id,
        h.destination_address,
        src_pan_written,
        h.source_address,
        rest,
    );
    lemma_frame_control_fields(
        spec_frame_type_code(h.frame_type),
        spec_bit(h.frame_pending),
        spec_bit(h.ack_request),
        spec_bit(pic),
        spec_bit(h.sequence_number is None),
        spec_bit(ie_present),
        dm,
        sm,
    );
    assert(spec_frame_type_from(fc) == h.frame_type);
    assert(spec_header_from_control(fc, fields + rest) == Ok::<(Header, bool, Seq<u8>), ParseError>(
        (h, ie_present, rest),
    ));
    crate::mac::format::primitives::lemma_primitive_roundtrip();
    let bytes = spec_header_bytes(h, ie_present) + rest;
    assert(bytes.subrange(0, 2) =~= fc.spec_serialize());
    assert(bytes.subrange(2, bytes.len() as int) =~= fields + rest);
}


/// The frame control a header is written with carries, in its low three
/// bits, the IEEE 802.15.4 code of the frame type: beacon 0, data 1,
/// acknowledgment 2, MAC command 3 (reserved 4, multipurpose 5, fragment 6,
/// extended 7), as a receiver reads it from the first two octets.
pub proof fn law_frame_type_code(h: Header, ie_present: bool, rest: Seq<u8>)
    requires
        spec_header_valid(h),
    ensures
        spec_received_control(spec_header_bytes(h, ie_present) + rest) & 7 == match h.frame_type {
            FrameType::Beacon => 0u16,
            FrameType::Data => 1u16,
            FrameType::Ack => 2u16,
            FrameType::MacCommand => 3u16,
            FrameType::_Reserved100 => 4u16,
            FrameType::Multipurpose => 5u16,
            FrameType::Fragment => 6u16,
            FrameType::Extended => 7u16,
        },
{
    lemma_layout(h);
    let pic = spec_pan_id_compression(h).unwrap();
    let fc = spec_frame_control(h, pic, ie_present);
    lemma_frame_control_fields(
        spec_frame_type_code(h.frame_type),
        spec_bit(h.frame_pending),
        spec_bit(h.ack_request),
        spec_bit(pic),
        spec_bit(h.sequence_number is None),
        spec_bit(ie_present),
        spec_address_mode(h.destination_address),
        spec_address_mode(h.source_address),
    );
    crate::mac::format::primitives::lemma_primitive_roundtrip();
    let bytes = spec_header_bytes(h, ie_present) + rest;
    assert(bytes.subrange(0, 2) =~= fc.spec_serialize());
}

/// The frame control a header is written with holds its other fields where
/// IEEE 802.15.4 puts them: security off (bit 3), frame pending (bit 4),
/// acknowledgment request (bit 5), sequence number suppressed (bit 8),
/// information elements present (bit 9), the destination addressing mode
/// (bits 10 and 11: 0 none, 2 short, 3 extended), frame version 2 (bits 12
/// and 13) and the source addressing mode (bits 14 and 15).
pub proof fn law_frame_control_fields(h: Header, ie_present: bool, rest: Seq<u8>)
    requires
        spec_header_valid(h),
    ensures
        ({
            let v = spec_received_control(spec_header_bytes(h, ie_present) + rest);
            &&& (v >> 3) & 1 == 0
            &&& ((v >> 4) & 1 == 1) == h.frame_pending
            &&& ((v >> 5) & 1 == 1) == h.ack_request
            &&& ((v >> 8) & 1 == 1) == (h.sequence_number is None)
            &&& ((v >> 9) & 1 == 1) == ie_present
            &&& (v >> 10) & 3 == match h.destination_address {
                None => 0u16,
                Some(Address::Short(_)) => 2u16,
                Some(Address::Extended(_)) => 3u16,
            }
            &&& (v >> 12) & 3 == 2
            &&& (v >> 14) & 3 == match h.source_address {
                None => 0u16,
                Some(Address::Short(_)) => 2u16,
                Some(Address::Extended(_)) => 3u16,
            }
        }),
{
    lemma_layout(h);
    let pic = spec_pan_id_compression(h).unwrap();
    let fc = spec_frame_control(h, pic, ie_present);
    lemma_frame_control_fields(
        spec_frame_type_code(h.frame_type),
        spec_bit(h.frame_pending),
        spec_bit(h.ack_request),
        spec_bit(pic),
        spec_bit(h.sequence_number is None),
        spec_bit(ie_present),
        spec_address_mode(h.destination_address),
        spec_address_mode(h.source_address),
    );
    crate::mac::format::primitives::lemma_primitive_roundtrip();
    let bytes = spec_header_bytes(h, ie_present) + rest;
    assert(bytes.subrange(0, 2) =~= fc.spec_serialize());
}

/// The frame type of a parsed header is the one the IEEE 802.15.4 code in
/// the low three bits of its frame control names: 0 beacon, 1 data, 2
/// acknowledgment, 3 MAC command; other codes are refused.
pub proof fn law_parsed_frame_type(bytes: Seq<u8>)
    ensures
        spec_parse_header(bytes) matches Ok((h, _, _)) ==> {
            let c = spec_received_control(bytes) & 7;
            h.frame_type == if c == 0 {
                FrameType::Beacon
            } else if c == 1 {
                FrameType::Data
            } else if c == 2 {
                FrameType::Ack
            } else if c == 3 {
                FrameType::MacCommand
            } else {
                h.frame_type
            }
        },
        bytes.len() >= 2 && spec_received_control(bytes) & 7 > 3 ==> spec_parse_header(bytes) is Err,
{
}

/// A frame with both addresses and the PAN ID compression bit set carries
/// a single PAN ID, which the parsed header has as both the destination and
/// the source PAN ID; in a frame of version 0 or 1 this holds whatever the
/// address kinds, in a version 2 frame unless both addresses are extended
/// (then no PAN ID is carried). Without the bit, both PAN IDs are carried.
pub proof fn law_compressed_pan_id(bytes: Seq<u8>)
    requires
        bytes.len() >= 2,
        (spec_received_control(bytes) >> 10) & 3 == 2 || (spec_received_control(bytes) >> 10) & 3 == 3,
        (spec_received_control(bytes) >> 14) & 3 == 2 || (spec_received_control(bytes) >> 14) & 3 == 3,
    ensures
        ({
            let v = spec_received_control(bytes);
            let legacy = (v >> 12) & 3 <= 1;
            let both_extended = (v >> 10) & 3 == 3 && (v >> 14) & 3 == 3;
            let pic = (v >> 6) & 1 != 0;
            spec_parse_header(bytes) matches Ok((h, _, _)) ==> {
                &&& pic && (legacy || !both_extended) ==> h.destination_pan_id is Some && h.source_pan_id
                    == h.destination_pan_id
                &&& !pic && (legacy || !both_extended) ==> h.destination_pan_id is Some && h.source_pan_id is Some
                &&& pic && !legacy && both_extended ==> h.destination_pan_id is None && h.source_pan_id is None
            }
        }),
{
    reveal(spec_decode_fields);
    reveal(spec_take_pan);
    reveal(spec_take_sequence);
}

/// Frame control field.
#[derive(Clone, Copy)]
struct FrameControl(u16);

impl FrameControl {
    fn set_frame_type(&mut self, value: FrameType)
        ensures
            final(self).0 == (old(self).0 & !7u16) | spec_frame_type_code(value),
    {
        self.0 = (self.0 & !0b111u16) | value.code();
    }

    fn set_frame_pending(&mut self, value: bool)
        ensures
            final(self).0 == (old(self).0 & !(1u16 << 4)) | (spec_bit(value) << 4),
    {
        let b: u16 = if value { 1 } else { 0 };
        self.0 = (self.0 & !(1u16 << 4)) | (b << 4);
    }

    fn set_ack_request(&mut self, value: bool)
        ensures
            final(self).0 == (old(self).0 & !(1u16 << 5)) | (spec_bit(value) << 5),
    {
        let b: u16 = if value { 1 } else { 0 };
        self.0 = (self.0 & !(1u16 << 5)) | (b << 5);
    }

    fn set_pan_id_compression(&mut self, value: bool)
        ensures
            final(self).0 == (old(self).0 & !(1u16 << 6)) | (spec_bit(value) << 6),
    {
        let b: u16 = if value { 1 } else { 0 };
        self.0 = (self.0 & !(1u16 << 6)) | (b << 6);
    }

    fn set_seq_num_suppression(&mut self, value: bool)
        ensures
            final(self).0 == (old(self).0 & !(1u16 << 8)) | (spec_bit(value) << 8),
    {
        let b: u16 = if value { 1 } else { 0 };
        self.0 = (self.0 & !(1u16 << 8)) | (b << 8);
    }

    fn set_ie_present(&mut self, value: bool)
        ensures
            final(self).0 == (old(self).0 & !(1u16 << 9)) | (spec_bit(value) << 9),
    {
        let b: u16 = if value { 1 } else { 0 };
        self.0 = (self.0 & !(1u16 << 9)) | (b << 9);
    }

    fn set_dst_address_mode(&mut self, value: Option<Address>)
        ensures
            final(self).0 == (old(self).0 & !(11u16 << 10)) | (spec_address_mode(value) << 10),
    {
        self.0 = (self.0 & !(11u16 << 10)) | (address_mode(value) << 10);
    }

    fn set_frame_version_2(&mut self)
        ensures
            final(self).0 == (old(self).0 & !(11u16 << 12)) | (2u16 << 12),
    {
        self.0 = (self.0 & !(11u16 << 12)) | (2u16 << 12);
    }

    fn set_src_address_mode(&mut self, value: Option<Address>)
        ensures
            final(self).0 == (old(self).0 & !(11u16 << 14)) | (spec_address_mode(value) << 14),
    {
        self.0 = (self.0 & !(11u16 << 14)) | (address_mode(value) << 14);
    }
}

fn address_mode(value: Option<Address>) -> (r: u16)
    ensures
        r == spec_address_mode(value),
{
    match value {
        None => 0,
        Some(Address::Short(_)) => 2,
        Some(Address::Extended(_)) => 3,
    }
}

impl FixSerializationLength for FrameControl {
    closed spec fn spec_ser_len() -> nat {
        2
    }

    fn ser_len() -> (n: usize) {
        2
    }
}

impl FixSerializable for FrameControl {
    closed spec fn spec_serialize(&self) -> Seq<u8> {
        self.0.spec_serialize()
    }

    proof fn lemma_serialize_len(&self) {
        crate::mac::format::primitives::lemma_primitive_roundtrip();
    }

    fn serialize(&self) -> (r: Vec<u8>) {
        self.0.serialize()
    }
}

impl FixDeserializable for FrameControl {
    /// The reserved bit 7 is dropped.
    closed spec fn spec_deserialize(buf: Seq<u8>) -> FrameControl {
        FrameControl(u16::spec_deserialize(buf) & !0x80u16)
    }

    fn deserialize(buf: &[u8]) -> (r: FrameControl) {
        let val = u16::deserialize(buf);
        FrameControl(val & !0x80u16)
    }
}

/// The frame control value the builder sets up, by its setters applied in
/// order to an empty field.
proof fn lemma_frame_control_setters(ft: u16, fp: u16, ar: u16, pic: u16, sns: u16, dm: u16, sm: u16)
    requires
        ft <= 3,
        fp <= 1,
        ar <= 1,
        pic <= 1,
        sns <= 1,
        dm == 0 || dm == 2 || dm == 3,
        sm == 0 || sm == 2 || sm == 3,
    ensures
        ({
            let v1 = (0u16 & !7u16) | ft;
            let v2 = (v1 & !(1u16 << 4)) | (fp << 4);
            let v3 = (v2 & !(1u16 << 5)) | (ar << 5);
            let v4 = (v3 & !(1u16 << 6)) | (pic << 6);
            let v5 = (v4 & !(1u16 << 8)) | (sns << 8);
            let v6 = (v5 & !(11u16 << 10)) | (dm << 10);
            let v7 = (v6 & !(11u16 << 12)) | (2u16 << 12);
            let v8 = (v7 & !(11u16 << 14)) | (sm << 14);
            v8 == ft | (fp << 4) | (ar << 5) | (pic << 6) | (sns << 8) | (0u16 << 9) | (dm << 10) | (2u16 << 12) | (sm
                << 14)
        }),
{
    assert({
        let v1 = (0u16 & !7u16) | ft;
        let v2 = (v1 & !(1u16 << 4)) | (fp << 4);
        let v3 = (v2 & !(1u16 << 5)) | (ar << 5);
        let v4 = (v3 & !(1u16 << 6)) | (pic << 6);
        let v5 = (v4 & !(1u16 << 8)) | (sns << 8);
        let v6 = (v5 & !(11u16 << 10)) | (dm << 10);
        let v7 = (v6 & !(11u16 << 12)) | (2u16 << 12);
        let v8 = (v7 & !(11u16 << 14)) | (sm << 14);
        v8 == ft | (fp << 4) | (ar << 5) | (pic << 6) | (sns << 8) | (0u16 << 9) | (dm << 10) | (2u16 << 12) | (sm
            << 14)
    }) by (bit_vector)
        requires
            ft <= 3,
            fp <= 1,
            ar <= 1,
            pic <= 1,
            sns <= 1,
            dm == 0 || dm == 2 || dm == 3,
            sm == 0 || sm == 2 || sm == 3,
    ;
}

/// Setting the information-element flag of a header's frame control.
proof fn lemma_frame_control_ie(ft: u16, fp: u16, ar: u16, pic: u16, sns: u16, ie: u16, dm: u16, sm: u16)
    requires
        ft <= 3,
        fp <= 1,
        ar <= 1,
        pic <= 1,
        sns <= 1,
        ie <= 1,
        dm == 0 || dm == 2 || dm == 3,
        sm == 0 || sm == 2 || sm == 3,
    ensures
        ((ft | (fp << 4) | (ar << 5) | (pic << 6) | (sns << 8) | (ie << 9) | (dm << 10) | (2u16 << 12) | (sm << 14)) & !(
        1u16 << 9)) | (1u16 << 9) == ft | (fp << 4) | (ar << 5) | (pic << 6) | (sns << 8) | (1u16 << 9) | (dm << 10) | (
        2u16 << 12) | (sm << 14),
{
    assert(((ft | (fp << 4) | (ar << 5) | (pic << 6) | (sns << 8) | (ie << 9) | (dm << 10) | (2u16 << 12) | (sm << 14))
        & !(1u16 << 9)) | (1u16 << 9) == ft | (fp << 4) | (ar << 5) | (pic << 6) | (sns << 8) | (1u16 << 9) | (dm << 10)
        | (2u16 << 12) | (sm << 14)) by (bit_vector)
        requires
            ft <= 3,
            fp <= 1,
            ar <= 1,
            pic <= 1,
            sns <= 1,
            ie <= 1,
            dm == 0 || dm == 2 || dm == 3,
            sm == 0 || sm == 2 || sm == 3,
    ;
}

pub const HEADER_TERMINATION_1_ID: u8 = 0x7e;

pub const HEADER_TERMINATION_2_ID: u8 = 0x7f;

pub const PAYLOAD_TERMINATION_ID: u8 = 0xf;

#[derive(Clone, Copy, Eq, PartialEq, Structural, Debug)]
pub enum BuilderError {
    NoSpaceLeft,
    IllegalValue(HeaderField),
    IncorrectElementOrder,
}

/// Which part of the frame the builder is in.
#[derive(Clone, Copy, Eq, PartialEq, Structural, Debug)]
pub enum State {
    FrameHeader,
    HeaderIe,
    PayloadIe,
    Payload,
}

fn append_addr(buffer: &mut WriteBuffer, addr: Address) -> (r: Result<(), NoSpaceLeft>)
    ensures
        final(buffer).spec_capacity() == old(buffer).spec_capacity(),
        r is Ok <==> old(buffer).spec_remaining() >= spec_address_bytes(Some(addr)).len(),
        r is Ok ==> final(buffer)@ == old(buffer)@ + spec_address_bytes(Some(addr)),
        r is Err ==> final(buffer)@ == old(buffer)@,
{
    reveal(spec_address_bytes);
    match addr {
        Address::Short(value) => buffer.append_field(value),
        Address::Extended(value) => buffer.append_field(value),
    }
}

fn append_opt_addr(buffer: &mut WriteBuffer, addr: Option<Address>) -> (r: Result<(), NoSpaceLeft>)
    ensures
        final(buffer).spec_capacity() == old(buffer).spec_capacity(),
        r is Ok <==> old(buffer).spec_remaining() >= spec_address_bytes(addr).len(),
        r is Ok ==> final(buffer)@ == old(buffer)@ + spec_address_bytes(addr),
        r is Err ==> final(buffer)@ == old(buffer)@,
{
    match addr {
        Some(a) => append_addr(buffer, a),
        None => {
            proof {
                use_type_invariant(&*buffer);
                reveal(spec_address_bytes);
                assert(old(buffer)@ + spec_address_bytes(addr) =~= old(buffer)@);
            }
            Ok(())
        },
    }
}

fn append_opt_pan(buffer: &mut WriteBuffer, pan: Option<PanId>) -> (r: Result<(), NoSpaceLeft>)
    ensures
        final(buffer).spec_capacity() == old(buffer).spec_capacity(),
        r is Ok <==> old(buffer).spec_remaining() >= spec_pan_bytes(pan).len(),
        r is Ok ==> final(buffer)@ == old(buffer)@ + spec_pan_bytes(pan),
        r is Err ==> final(buffer)@ == old(buffer)@,
{
    reveal(spec_pan_bytes);
    match pan {
        Some(p) => buffer.append_field(p),
        None => {
            proof { use_type_invariant(&*buffer); }
            assert(old(buffer)@ + spec_pan_bytes(pan) =~= old(buffer)@);
            Ok(())
        },
    }
}

fn append_opt_seq(buffer: &mut WriteBuffer, seq: Option<u8>) -> (r: Result<(), NoSpaceLeft>)
    ensures
        final(buffer).spec_capacity() == old(buffer).spec_capacity(),
        r is Ok <==> old(buffer).spec_remaining() >= spec_sequence_bytes(seq).len(),
        r is Ok ==> final(buffer)@ == old(buffer)@ + spec_sequence_bytes(seq),
        r is Err ==> final(buffer)@ == old(buffer)@,
{
    reveal(spec_sequence_bytes);
    match seq {
        Some(s) => buffer.append_field::<u8>(s),
        None => {
            proof { use_type_invariant(&*buffer); }
            assert(old(buffer)@ + spec_sequence_bytes(seq) =~= old(buffer)@);
            Ok(())
        },
    }
}

proof fn lemma_fields_len(h: Header, pic: bool)
    ensures
        spec_header_fields(h, pic).len() == spec_sequence_bytes(h.sequence_number).len() + spec_pan_bytes(
            h.destination_pan_id,
        ).len() + spec_address_bytes(h.destination_address).len() + spec_pan_bytes(
            if pic { None } else { h.source_pan_id },
        ).len() + spec_address_bytes(h.source_address).len(),
        spec_header_fields(h, pic).len() <= 21,
{
    reveal(spec_sequence_bytes);
    reveal(spec_pan_bytes);
    reveal(spec_address_bytes);
    crate::mac::format::primitives::lemma_primitive_roundtrip();
}

/// Builds a version 2 frame: header, then header IEs, payload IEs and
/// payload, in that order, each written in a nested buffer and committed.
pub struct FrameV2Builder {
    buffer: WriteBuffer,
    frame_control: FrameControl,
    frame_control_field: Placeholder<FrameControl>,
    len: usize,
    state: State,
    next_state: Option<State>,
    prefix: Ghost<Seq<u8>>,
    header: Ghost<Header>,
    ie_present: Ghost<bool>,
}

impl FrameV2Builder {
    /// Octets written so far; the frame control is written by `finish`.
    pub closed spec fn contents(&self) -> Seq<u8> {
        self.buffer@
    }

    pub closed spec fn spec_capacity(&self) -> nat {
        self.buffer.spec_capacity()
    }

    pub open spec fn spec_remaining(&self) -> int {
        self.spec_capacity() - self.contents().len()
    }

    /// What the buffer held before the frame.
    pub closed spec fn spec_prefix(&self) -> Seq<u8> {
        self.prefix@
    }

    pub closed spec fn spec_header(&self) -> Header {
        self.header@
    }

    /// Where the elements after the header start in the contents.
    pub open spec fn spec_elements_start(&self) -> int {
        let h = self.spec_header();
        (self.spec_prefix().len() + 2 + spec_header_fields(h, spec_pan_id_compression(h).unwrap()).len()) as int
    }

    /// The committed information elements and payload, in order.
    pub open spec fn spec_elements(&self) -> Seq<u8> {
        self.contents().subrange(self.spec_elements_start(), self.contents().len() as int)
    }

    /// The part of the frame the last committed element belongs to.
    pub closed spec fn spec_state(&self) -> State {
        self.state
    }

    /// The part the element handed out last belongs to.
    pub closed spec fn spec_next_state(&self) -> Option<State> {
        self.next_state
    }

    /// Whether an element was committed since the state was last updated.
    pub closed spec fn spec_moved(&self) -> bool {
        self.len != self.buffer@.len()
    }

    pub closed spec fn spec_ie_present(&self) -> bool {
        self.ie_present@
    }

    /// The state once the last committed element is accounted for.
    pub open spec fn spec_current_state(&self) -> State {
        if self.spec_moved() {
            self.spec_next_state().unwrap()
        } else {
            self.spec_state()
        }
    }

    /// Whether information elements follow the header, once the last
    /// committed element is accounted for.
    pub open spec fn spec_current_ie_present(&self) -> bool {
        self.spec_ie_present() || (self.spec_moved() && (self.spec_current_state() == State::HeaderIe
            || self.spec_current_state() == State::PayloadIe))
    }

    /// What a call that hands out a nested buffer leaves unchanged, and the
    /// state update it makes first.
    pub open spec fn spec_updated_from(&self, old: &Self) -> bool {
        &&& self.wf()
        &&& self.contents() == old.contents()
        &&& self.spec_capacity() == old.spec_capacity()
        &&& self.spec_prefix() == old.spec_prefix()
        &&& self.spec_header() == old.spec_header()
        &&& self.spec_state() == old.spec_current_state()
        &&& self.spec_ie_present() == old.spec_current_ie_present()
        &&& !self.spec_moved()
    }

    pub closed spec fn wf(&self) -> bool {
        let h = self.header@;
        let pic = spec_pan_id_compression(h).unwrap();
        let p = self.prefix@.len() as int;
        let fields = spec_header_fields(h, pic);
        &&& spec_header_valid(h)
        &&& self.frame_control_field.offset() == p
        &&& self.frame_control.0 == spec_frame_control(h, pic, self.ie_present@)
        &&& p + 2 + fields.len() <= self.len <= self.buffer@.len()
        &&& self.buffer@.subrange(0, p) == self.prefix@
        &&& self.buffer@.subrange(p + 2, p + 2 + fields.len()) == fields
        &&& (self.len != self.buffer@.len() ==> self.next_state is Some)
    }

    pub fn new(buffer: WriteBuffer, header: Header) -> (r: Result<Self, BuilderError>)
        ensures
            r matches Err(e) ==> e == if spec_frame_type_code(header.frame_type) > 3 {
                BuilderError::IllegalValue(HeaderField::FrameType)
            } else if spec_pan_id_compression(header) is None {
                BuilderError::IllegalValue(HeaderField::Addressing)
            } else {
                BuilderError::NoSpaceLeft
            },
            r is Ok <==> spec_header_valid(header) && buffer.spec_remaining() >= 2 + spec_header_fields(
                header,
                spec_pan_id_compression(header).unwrap(),
            ).len(),
            r matches Ok(b) ==> {
                &&& b.wf()
                &&& b.spec_prefix() == buffer@
                &&& b.spec_header() == header
                &&& b.contents() == buffer@ + seq![0u8, 0u8] + spec_header_fields(
                    header,
                    spec_pan_id_compression(header).unwrap(),
                )
                &&& b.spec_state() == State::FrameHeader
                &&& b.spec_next_state() is None
                &&& !b.spec_moved()
                &&& !b.spec_ie_present()
                &&& b.spec_capacity() == buffer.spec_capacity()
            },
    {
        let mut buffer = buffer;
        let ghost prefix = buffer@;
        // Multipurpose frame has different layout
        if header.frame_type.code() > 3 {
            return Err(BuilderError::IllegalValue(HeaderField::FrameType));
        }
        let pan_id_compression = match pan_id_compression(&header) {
            Some(pic) => pic,
            None => return Err(BuilderError::IllegalValue(HeaderField::Addressing)),
        };
        let frame_control = header_frame_control(&header, pan_id_compression);
        proof { lemma_fields_len(header, pan_id_compression); }
        let frame_control_field = match buffer.append_placeholder::<FrameControl>() {
            Ok(f) => f,
            Err(_) => return Err(BuilderError::NoSpaceLeft),
        };
        let ghost b0 = buffer@;
        proof {
            assert(Seq::new(2, |i: int| 0u8) =~= seq![0u8, 0u8]);
        }
        if append_header_fields(&mut buffer, &header, pan_id_compression).is_err() {
            return Err(BuilderError::NoSpaceLeft);
        }
        let len = buffer.len();
        proof {
            let fields = spec_header_fields(header, pan_id_compression);
            let p = prefix.len() as int;
            assert(buffer@.subrange(0, p) =~= prefix);
            assert(buffer@.subrange(p + 2, p + 2 + fields.len()) =~= fields);
        }
        Ok(Self {
            buffer,
            frame_control,
            frame_control_field,
            len,
            state: State::FrameHeader,
            next_state: None,
            prefix: Ghost(prefix),
            header: Ghost(header),
            ie_present: Ghost(false),
        })
    }

    fn update_state(&mut self)
        requires
            old(self).wf(),
        ensures
            final(self).spec_updated_from(&*old(self)),
            final(self).spec_next_state() == old(self).spec_next_state(),
    {
        if self.len != self.buffer.len() {
            self.state = match self.next_state {
                Some(s) => s,
                None => self.state,
            };
            self.len = self.buffer.len();
            match self.state {
                State::HeaderIe | State::PayloadIe => {
                    let ghost fc0 = self.frame_control.0;
                    self.frame_control.set_ie_present(true);
                    proof {
                        let h = self.header@;
                        let pic = spec_pan_id_compression(h).unwrap();
                        lemma_frame_control_ie(
                            spec_frame_type_code(h.frame_type),
                            spec_bit(h.frame_pending),
                            spec_bit(h.ack_request),
                            spec_bit(pic),
                            spec_bit(h.sequence_number is None),
                            spec_bit(self.ie_present@),
                            spec_address_mode(h.destination_address),
                            spec_address_mode(h.source_address),
                        );
                        self.ie_present = Ghost(true);
                    }
                },
                _ => {},
            }
        }
    }

    /// Hands out a nested buffer for one header IE.
    pub fn add_header_ie(&mut self) -> (r: Result<WriteBuffer, BuilderError>)
        requires
            old(self).wf(),
        ensures
            final(self).spec_updated_from(&*old(self)),
            r is Ok <==> (old(self).spec_current_state() == State::FrameHeader || old(self).spec_current_state()
                == State::HeaderIe),
            r is Err ==> r == Err::<WriteBuffer, BuilderError>(BuilderError::IncorrectElementOrder)
                && final(self).spec_next_state() == old(self).spec_next_state(),
            r matches Ok(child) ==> {
                &&& child@ == Seq::<u8>::empty()
                &&& child.spec_capacity() == old(self).spec_remaining()
                &&& final(self).spec_next_state() == Some(State::HeaderIe)
            },
    {
        self.update_state();
        match self.state {
            State::FrameHeader | State::HeaderIe => {
                self.next_state = Some(State::HeaderIe);
                Ok(self.buffer.nested_buffer(usize::MAX))
            },
            _ => Err(BuilderError::IncorrectElementOrder),
        }
    }

    /// Hands out a nested buffer for one payload IE; after header IEs it
    /// holds the header termination that opens the payload IEs.
    pub fn add_payload_ie(&mut self) -> (r: Result<WriteBuffer, BuilderError>)
        requires
            old(self).wf(),
        ensures
            final(self).spec_updated_from(&*old(self)),
            r is Err ==> final(self).spec_next_state() == old(self).spec_next_state(),
            r is Ok ==> final(self).spec_next_state() == Some(State::PayloadIe),
            r matches Ok(child) ==> child.spec_capacity() == old(self).spec_remaining(),
            match old(self).spec_current_state() {
                State::FrameHeader | State::HeaderIe => if old(self).spec_remaining() >= 2 {
                    r matches Ok(child) && child@ == spec_header_terminator(HEADER_TERMINATION_1_ID)
                } else {
                    r == Err::<WriteBuffer, BuilderError>(BuilderError::NoSpaceLeft)
                },
                State::PayloadIe => r matches Ok(child) && child@ == Seq::<u8>::empty(),
                State::Payload => r == Err::<WriteBuffer, BuilderError>(BuilderError::IncorrectElementOrder),
            },
    {
        self.update_state();
        let mut buffer = self.buffer.nested_buffer(usize::MAX);
        match self.state {
            State::FrameHeader | State::HeaderIe => {
                let terminator = header_terminator(HEADER_TERMINATION_1_ID);
                if buffer.append_field(terminator).is_err() {
                    return Err(BuilderError::NoSpaceLeft);
                }
            },
            State::PayloadIe => {},
            _ => return Err(BuilderError::IncorrectElementOrder),
        }
        self.next_state = Some(State::PayloadIe);
        Ok(buffer)
    }

    /// Hands out a nested buffer for the payload, opened by the termination
    /// of the IEs before it, if any.
    pub fn add_payload(&mut self) -> (r: Result<WriteBuffer, BuilderError>)
        requires
            old(self).wf(),
        ensures
            final(self).spec_updated_from(&*old(self)),
            r is Err ==> final(self).spec_next_state() == old(self).spec_next_state(),
            r is Ok ==> final(self).spec_next_state() == Some(State::Payload),
            r matches Ok(child) ==> child.spec_capacity() == old(self).spec_remaining(),
            match old(self).spec_current_state() {
                State::FrameHeader => r matches Ok(child) && child@ == Seq::<u8>::empty(),
                State::HeaderIe => if old(self).spec_remaining() >= 2 {
                    r matches Ok(child) && child@ == spec_header_terminator(HEADER_TERMINATION_2_ID)
                } else {
                    r == Err::<WriteBuffer, BuilderError>(BuilderError::NoSpaceLeft)
                },
                State::PayloadIe => if old(self).spec_remaining() >= 2 {
                    r matches Ok(child) && child@ == spec_payload_terminator()
                } else {
                    r == Err::<WriteBuffer, BuilderError>(BuilderError::NoSpaceLeft)
                },
                State::Payload => r == Err::<WriteBuffer, BuilderError>(BuilderError::IncorrectElementOrder),
            },
    {
        self.update_state();
        let mut buffer = self.buffer.nested_buffer(usize::MAX);
        match self.state {
            State::FrameHeader => {},
            State::HeaderIe => {
                let terminator = header_terminator(HEADER_TERMINATION_2_ID);
                if buffer.append_field(terminator).is_err() {
                    return Err(BuilderError::NoSpaceLeft);
                }
            },
            State::PayloadIe => {
                let terminator = payload_terminator();
                if buffer.append_field(terminator).is_err() {
                    return Err(BuilderError::NoSpaceLeft);
                }
            },
            _ => return Err(BuilderError::IncorrectElementOrder),
        }
        self.next_state = Some(State::Payload);
        Ok(buffer)
    }

    /// Appends a nested buffer handed out by one of the `add_` methods.
    pub fn commit(&mut self, child: WriteBuffer)
        requires
            old(self).wf(),
            old(self).spec_next_state() is Some,
            child@.len() <= old(self).spec_remaining(),
        ensures
            final(self).wf(),
            final(self).contents() == old(self).contents() + child@,
            final(self).spec_elements() == old(self).spec_elements() + child@,
            final(self).spec_capacity() == old(self).spec_capacity(),
            final(self).spec_prefix() == old(self).spec_prefix(),
            final(self).spec_header() == old(self).spec_header(),
            final(self).spec_state() == old(self).spec_state(),
            final(self).spec_next_state() == old(self).spec_next_state(),
            final(self).spec_ie_present() == old(self).spec_ie_present(),
            final(self).spec_moved() == (old(self).spec_moved() || child@.len() > 0),
    {
        let ghost old_contents = self.buffer@;
        child.commit(&mut self.buffer);
        proof {
            let h = self.header@;
            let p = self.prefix@.len() as int;
            let fields = spec_header_fields(h, spec_pan_id_compression(h).unwrap());
            assert(self.buffer@.subrange(0, p) =~= old_contents.subrange(0, p));
            assert(self.buffer@.subrange(p + 2, p + 2 + fields.len()) =~= old_contents.subrange(
                p + 2,
                p + 2 + fields.len(),
            ));
            assert(self.spec_elements() =~= old(self).spec_elements() + child@);
        }
    }

    /// Writes the frame control and hands back the buffer with the frame.
    pub fn finish(self) -> (r: WriteBuffer)
        requires
            self.wf(),
        ensures
            r@ == self.spec_prefix() + spec_header_bytes(self.spec_header(), self.spec_current_ie_present())
                + self.spec_elements(),
            r.spec_capacity() == self.spec_capacity(),
    {
        let mut this = self;
        this.update_state();
        let mut buffer = this.buffer;
        buffer.write_placeholder(&this.frame_control_field, this.frame_control);
        proof {
            let h = this.header@;
            let pic = spec_pan_id_compression(h).unwrap();
            let p = this.prefix@.len() as int;
            let fields = spec_header_fields(h, pic);
            let c = this.buffer@;
            let fc = this.frame_control.spec_serialize();
            assert(fc == spec_frame_control(h, pic, this.ie_present@).spec_serialize());
            assert(buffer@ =~= self.spec_prefix() + spec_header_bytes(h, this.ie_present@) + self.spec_elements())
                by {
                assert(c =~= c.subrange(0, p) + c.subrange(p, p + 2) + c.subrange(p + 2, p + 2 + fields.len())
                    + c.subrange(p + 2 + fields.len(), c.len() as int));
            }
        }
        buffer
    }
}


/// What `finish` hands back, once the frame is alone in its buffer, parses
/// back to the header the builder was made with, with the IE flag it wrote,
/// and what follows the header is the committed elements.
pub proof fn law_finished_frame_parses(b: FrameV2Builder, out: Seq<u8>)
    requires
        b.wf(),
        b.spec_prefix().len() == 0,
        out == b.spec_prefix() + spec_header_bytes(b.spec_header(), b.spec_current_ie_present()) + b.spec_elements(),
    ensures
        spec_parse_header(out) == Ok::<(Header, bool, Seq<u8>), ParseError>(
            (b.spec_header(), b.spec_current_ie_present(), b.spec_elements()),
        ),
{
    law_header_roundtrip(b.spec_header(), b.spec_current_ie_present(), b.spec_elements());
    assert(out =~= spec_header_bytes(b.spec_header(), b.spec_current_ie_present()) + b.spec_elements());
}

/// The octets of a header IE descriptor with no content and this element ID.
pub open spec fn spec_header_terminator(element_id: u8) -> Seq<u8> {
    header_ie::spec_descriptor(0, element_id).spec_serialize()
}

/// The octets of the payload IE that ends the payload IEs.
pub open spec fn spec_payload_terminator() -> Seq<u8> {
    (payload_ie::spec_descriptor(0, PAYLOAD_TERMINATION_ID) | 0x8000u16).spec_serialize()
}

fn header_terminator(element_id: u8) -> (r: header_ie::Header)
    ensures
        r.spec_serialize() == spec_header_terminator(element_id),
{
    let mut terminator = header_ie::Header::default();
    terminator.set_element_id(element_id);
    proof {
        let e = element_id;
        assert((0u16 & !(0xffu16 << 7)) | ((e as u16) << 7) == ((e as u16) << 7) | (0u8 as u16)) by (bit_vector);
    }
    terminator
}

fn payload_terminator() -> (r: payload_ie::Header)
    ensures
        r.spec_serialize() == spec_payload_terminator(),
{
    let mut terminator = payload_ie::Header::default();
    terminator.set_group_id(PAYLOAD_TERMINATION_ID);
    proof {
        assert((0u16 & !(0xfu16 << 11)) | ((0xfu8 as u16) << 11) == ((0xfu8 as u16) << 11) | 0u16) by (bit_vector);
    }
    terminator
}

/// Whether the source PAN ID is left out, following table 7-2; `None` for
/// an addressing combination the table does not list.
fn pan_id_compression(header: &Header) -> (r: Option<bool>)
    ensures
        r == spec_pan_id_compression(*header),
{
    let equal_pan_id: bool = match (header.destination_pan_id, header.source_pan_id) {
        (Some(d), Some(s)) => {
            proof {
                crate::phy::lemma_pan_id_from_view(d);
                crate::phy::lemma_pan_id_from_view(s);
            }
            d.as_u16() == s.as_u16()
        },
        _ => false,
    };
    match (
        header.destination_address,
        header.source_address,
        header.destination_pan_id,
        header.source_pan_id,
    ) {
        (None, None, None, None) => Some(false),
        (None, None, Some(_), None) => Some(true),
        (Some(_), None, Some(_), None) => Some(false),
        (Some(_), None, None, None) => Some(true),
        (None, Some(_), None, Some(_)) => Some(false),
        (None, Some(_), None, None) => Some(true),
        (Some(Address::Extended(_)), Some(Address::Extended(_)), Some(_), None) => Some(false),
        (Some(Address::Extended(_)), Some(Address::Extended(_)), None, None) => Some(true),
        (Some(Address::Short(_)), Some(Address::Short(_)), Some(_), Some(_)) => Some(equal_pan_id),
        (Some(Address::Short(_)), Some(Address::Extended(_)), Some(_), Some(_)) => Some(equal_pan_id),
        (Some(Address::Extended(_)), Some(Address::Short(_)), Some(_), Some(_)) => Some(equal_pan_id),
        _ => None,
    }
}

/// The frame control of a version 2 frame with this header, no IE yet.
fn header_frame_control(header: &Header, pan_id_compression: bool) -> (r: FrameControl)
    requires
        spec_frame_type_code(header.frame_type) <= 3,
    ensures
        r.0 == spec_frame_control(*header, pan_id_compression, false),
{
    let mut frame_control = FrameControl(0);
    frame_control.set_frame_type(header.frame_type);
    frame_control.set_frame_pending(header.frame_pending);
    frame_control.set_ack_request(header.ack_request);
    frame_control.set_pan_id_compression(pan_id_compression);
    frame_control.set_seq_num_suppression(header.sequence_number.is_none());
    frame_control.set_dst_address_mode(header.destination_address);
    frame_control.set_frame_version_2();
    frame_control.set_src_address_mode(header.source_address);
    proof {
        lemma_frame_control_setters(
            spec_frame_type_code(header.frame_type),
            spec_bit(header.frame_pending),
            spec_bit(header.ack_request),
            spec_bit(pan_id_compression),
            spec_bit(header.sequence_number is None),
            spec_address_mode(header.destination_address),
            spec_address_mode(header.source_address),
        );
        assert(spec_bit(false) << 9 == 0u16) by (bit_vector);
    }
    frame_control
}

/// Writes the header fields after the frame control.
fn append_header_fields(buffer: &mut WriteBuffer, header: &Header, pan_id_compression: bool) -> (r: Result<(), NoSpaceLeft>)
    ensures
        final(buffer).spec_capacity() == old(buffer).spec_capacity(),
        r is Ok <==> old(buffer).spec_remaining() >= spec_header_fields(*header, pan_id_compression).len(),
        r is Ok ==> final(buffer)@ == old(buffer)@ + spec_header_fields(*header, pan_id_compression),
{
    let ghost b0 = buffer@;
    proof { lemma_fields_len(*header, pan_id_compression); }
    append_opt_seq(buffer, header.sequence_number)?;
    append_opt_pan(buffer, header.destination_pan_id)?;
    append_opt_addr(buffer, header.destination_address)?;
    // If destination and source PAN ID equal, the later is suppressed
    // See [1] table 7-2, p. 163
    let src_pan_written = if pan_id_compression { None } else { header.source_pan_id };
    append_opt_pan(buffer, src_pan_written)?;
    append_opt_addr(buffer, header.source_address)?;
    proof {
        assert(buffer@ =~= b0 + spec_header_fields(*header, pan_id_compression));
    }
    Ok(())
}


impl FrameControl {
    fn frame_type(&self) -> (r: FrameType)
        ensures
            r == spec_frame_type_from(self.0),
    {
        let v = self.0;
        assert(((v & 7) as u8) as u16 & 7 == v & 7) by (bit_vector);
        FrameType::from_u8_truncate((self.0 & 0b111) as u8)
    }

    fn bit(&self, n: u16) -> (r: bool)
        requires
            n < 16,
        ensures
            r == ((self.0 >> n) & 1 != 0),
    {
        (self.0 >> n) & 1 != 0
    }

    fn two_bits(&self, n: u16) -> (r: u16)
        requires
            n < 16,
        ensures
            r == (self.0 >> n) & 3,
    {
        (self.0 >> n) & 3
    }
}

/// Which PAN IDs a frame with this layout carries; see `spec_pan_id_layout`.
fn pan_id_layout(legacy: bool, dm: u16, sm: u16, pic: bool) -> (r: Option<(bool, bool, bool)>)
    ensures
        r == spec_pan_id_layout(legacy, dm, sm, pic),
{
    let d_addr = dm == 2 || dm == 3;
    let s_addr = sm == 2 || sm == 3;
    if legacy {
        if d_addr && s_addr {
            Some((true, !pic, pic))
        } else if d_addr && sm == 0 && !pic {
            Some((true, false, false))
        } else if dm == 0 && s_addr && !pic {
            Some((false, true, false))
        } else if dm == 0 && sm == 0 && !pic {
            Some((false, false, false))
        } else {
            None
        }
    } else {
        if dm == 0 && sm == 0 {
            Some((pic, false, false))
        } else if d_addr && sm == 0 {
            Some((!pic, false, false))
        } else if dm == 0 && s_addr {
            Some((false, !pic, false))
        } else if dm == 3 && sm == 3 {
            Some((!pic, false, false))
        } else if d_addr && s_addr {
            Some((true, !pic, pic))
        } else {
            None
        }
    }
}

fn pop_addr(buffer: &mut ReadBuffer, mode: u16) -> (r: Result<Option<Address>, ParseError>)
    ensures
        r is Ok <==> spec_address_len(mode) <= old(buffer)@.len(),
        r matches Ok(a) ==> (a, final(buffer)@) == spec_take_address(mode, old(buffer)@),
        r matches Err(e) ==> e == ParseError::UnexpectedTermination,
{
    proof { reveal(spec_take_address); }
    if mode == 2 {
        match buffer.pop_field::<ShortAddress>() {
            Ok(a) => Ok(Some(Address::Short(a))),
            Err(_) => Err(ParseError::UnexpectedTermination),
        }
    } else if mode == 3 {
        match buffer.pop_field::<ExtendedAddress>() {
            Ok(a) => Ok(Some(Address::Extended(a))),
            Err(_) => Err(ParseError::UnexpectedTermination),
        }
    } else {
        proof {
            assert(old(buffer)@.subrange(0, old(buffer)@.len() as int) =~= old(buffer)@);
        }
        Ok(None)
    }
}

fn pop_pan(buffer: &mut ReadBuffer, present: bool) -> (r: Result<Option<PanId>, ParseError>)
    ensures
        r is Ok <==> (present ==> 2 <= old(buffer)@.len()),
        r matches Ok(p) ==> (p, final(buffer)@) == spec_take_pan(present, old(buffer)@),
        r matches Err(e) ==> e == ParseError::UnexpectedTermination,
{
    proof { reveal(spec_take_pan); }
    if present {
        match buffer.pop_field::<PanId>() {
            Ok(p) => Ok(Some(p)),
            Err(_) => Err(ParseError::UnexpectedTermination),
        }
    } else {
        Ok(None)
    }
}

fn pop_sequence(buffer: &mut ReadBuffer, present: bool) -> (r: Result<Option<u8>, ParseError>)
    ensures
        r is Ok <==> (present ==> 1 <= old(buffer)@.len()),
        r matches Ok(s) ==> (s, final(buffer)@) == spec_take_sequence(present, old(buffer)@),
        r matches Err(e) ==> e == ParseError::UnexpectedTermination,
{
    proof { reveal(spec_take_sequence); }
    if present {
        match buffer.pop_field::<u8>() {
            Ok(s) => Ok(Some(s)),
            Err(_) => Err(ParseError::UnexpectedTermination),
        }
    } else {
        Ok(None)
    }
}

/// Takes the addressing fields described by the frame control from the front
/// of the buffer.
fn pop_fields(buffer: &mut ReadBuffer, seq_present: bool, dpp: bool, dm: u16, spp: bool, sm: u16) -> (r: Result<
    (Option<u8>, Option<PanId>, Option<Address>, Option<PanId>, Option<Address>),
    ParseError,
>)
    ensures
        match spec_decode_fields(seq_present, dpp, dm, spp, sm, old(buffer)@) {
            None => r == Err::<(Option<u8>, Option<PanId>, Option<Address>, Option<PanId>, Option<Address>), ParseError>(
                ParseError::UnexpectedTermination,
            ),
            Some((s, dp, da, sp, sa, rest)) => r == Ok::<
                (Option<u8>, Option<PanId>, Option<Address>, Option<PanId>, Option<Address>),
                ParseError,
            >((s, dp, da, sp, sa)) && final(buffer)@ == rest,
        },
{
    proof {
        reveal(spec_decode_fields);
        reveal(spec_take_sequence);
        reveal(spec_take_pan);
        reveal(spec_take_address);
    }
    let seq_num = pop_sequence(buffer, seq_present)?;
    let dst_pan_id = pop_pan(buffer, dpp)?;
    let dst_addr = pop_addr(buffer, dm)?;
    let src_pan_id = pop_pan(buffer, spp)?;
    let src_addr = pop_addr(buffer, sm)?;
    Ok((seq_num, dst_pan_id, dst_addr, src_pan_id, src_addr))
}

/// Which part of the frame the content parser is in.
#[derive(Clone, Copy, Eq, PartialEq, Structural, Debug)]
pub enum ParserState {
    HeaderIe,
    PayloadIe,
    Payload,
}

#[derive(Clone, Copy, Debug, PartialEq, Eq, Structural)]
pub enum ContentError {
    UnexpectedTermination,
    InvalidHeaderIe,
    InvalidPayloadIe,
}

/// An element after the frame header.
pub enum Content<'a> {
    HeaderIe { element_id: u8, payload: ReadBuffer<'a> },
    PayloadIe { group_id: u8, payload: ReadBuffer<'a> },
    Payload(ReadBuffer<'a>),
}

/// What an element after the frame header holds.
pub enum SpecContent {
    HeaderIe { element_id: u8, payload: Seq<u8> },
    PayloadIe { group_id: u8, payload: Seq<u8> },
    Payload(Seq<u8>),
}

impl<'a> View for Content<'a> {
    type V = SpecContent;

    open spec fn view(&self) -> SpecContent {
        match self {
            Content::HeaderIe { element_id, payload } => SpecContent::HeaderIe {
                element_id: *element_id,
                payload: payload@,
            },
            Content::PayloadIe { group_id, payload } => SpecContent::PayloadIe { group_id: *group_id, payload: payload@ },
            Content::Payload(payload) => SpecContent::Payload(payload@),
        }
    }
}

/// Parses elements from the front of `b` in parser state `state`, skipping
/// the terminations that move to the next part: the element found (`None` at
/// the end), the state reached and the octets after the element.
pub open spec fn spec_content_step(state: ParserState, b: Seq<u8>) -> (
    Result<Option<SpecContent>, ContentError>,
    ParserState,
    Seq<u8>,
)
    decreases b.len(),
{
    if b.len() == 0 {
        (Ok(None), state, b)
    } else {
        match state {
            ParserState::HeaderIe => {
                if b.len() < 2 {
                    (Err(ContentError::UnexpectedTermination), state, b)
                } else {
                    let v = spec_u16_from_le_bytes(b.subrange(0, 2));
                    let rest = b.subrange(2, b.len() as int);
                    let len = header_ie::spec_length(v) as int;
                    if v & 0x8000 != 0 {
                        (Err(ContentError::InvalidHeaderIe), state, b)
                    } else if rest.len() < len {
                        (Err(ContentError::UnexpectedTermination), state, rest)
                    } else {
                        let payload = rest.subrange(0, len);
                        let after = rest.subrange(len, rest.len() as int);
                        let id = header_ie::spec_element_id(v);
                        if id == HEADER_TERMINATION_1_ID {
                            spec_content_step(ParserState::PayloadIe, after)
                        } else if id == HEADER_TERMINATION_2_ID {
                            spec_content_step(ParserState::Payload, after)
                        } else {
                            (Ok(Some(SpecContent::HeaderIe { element_id: id, payload })), state, after)
                        }
                    }
                }
            },
            ParserState::PayloadIe => {
                if b.len() < 2 {
                    (Err(ContentError::UnexpectedTermination), state, b)
                } else {
                    let v = spec_u16_from_le_bytes(b.subrange(0, 2));
                    let w = v & !0x8000u16;
                    let rest = b.subrange(2, b.len() as int);
                    let len = payload_ie::spec_length(w) as int;
                    if v & 0x8000 == 0 {
                        (Err(ContentError::InvalidHeaderIe), state, b)
                    } else if rest.len() < len {
                        (Err(ContentError::UnexpectedTermination), state, rest)
                    } else {
                        let payload = rest.subrange(0, len);
                        let after = rest.subrange(len, rest.len() as int);
                        let id = payload_ie::spec_group_id(w);
                        if id == PAYLOAD_TERMINATION_ID {
                            spec_content_step(ParserState::Payload, after)
                        } else {
                            (Ok(Some(SpecContent::PayloadIe { group_id: id, payload })), state, after)
                        }
                    }
                }
            },
            ParserState::Payload => (Ok(Some(SpecContent::Payload(b))), state, Seq::empty()),
        }
    }
}

/// What one call of `ContentIterator::next` gives in parser state `state`
/// with octets `b` left: the item and the state and octets after it; the
/// octets are dropped after an error.
pub open spec fn spec_content_next(state: ParserState, b: Seq<u8>) -> (
    Option<Result<SpecContent, ContentError>>,
    ParserState,
    Seq<u8>,
) {
    match spec_content_step(state, b) {
        (Ok(None), s, rest) => (None, s, rest),
        (Ok(Some(c)), s, rest) => (Some(Ok(c)), s, rest),
        (Err(e), s, _) => (Some(Err(e)), s, Seq::empty()),
    }
}

/// An item of a content iterator without its borrowed buffers.
pub open spec fn spec_content_item(r: Option<Result<Content, ContentError>>) -> Option<Result<SpecContent, ContentError>> {
    match r {
        None => None,
        Some(Ok(c)) => Some(Ok(c@)),
        Some(Err(e)) => Some(Err(e)),
    }
}

/// Iterator over the information elements and payload after a frame header.
pub struct ContentIterator<'a> {
    buffer: ReadBuffer<'a>,
    state: ParserState,
}

impl<'a> ContentIterator<'a> {
    pub closed spec fn spec_state(&self) -> ParserState {
        self.state
    }

    /// The octets not parsed yet.
    pub closed spec fn spec_bytes(&self) -> Seq<u8> {
        self.buffer@
    }

    fn new(buffer: ReadBuffer<'a>, ie_present: bool) -> (r: Self)
        ensures
            r.spec_bytes() == buffer@,
            r.spec_state() == if ie_present {
                ParserState::HeaderIe
            } else {
                ParserState::Payload
            },
    {
        let state = if ie_present {
            ParserState::HeaderIe
        } else {
            ParserState::Payload
        };
        Self { buffer, state }
    }

    fn raw_next(&mut self) -> (r: Result<Option<Content<'a>>, ContentError>)
        ensures
            ({
                let (res, s, rest) = spec_content_step(old(self).state, old(self).buffer@);
                &&& match r {
                    Ok(None) => res == Ok::<Option<SpecContent>, ContentError>(None),
                    Ok(Some(c)) => res == Ok::<Option<SpecContent>, ContentError>(Some(c@)),
                    Err(e) => res == Err::<Option<SpecContent>, ContentError>(e),
                }
                &&& final(self).state == s
                &&& r is Ok ==> final(self).buffer@ == rest
            }),
    {
        loop
            invariant
                spec_content_step(self.state, self.buffer@) == spec_content_step(old(self).state, old(self).buffer@),
            decreases self.buffer@.len(),
        {
            if self.buffer.is_empty() {
                return Ok(None);
            }
            let ghost b = self.buffer@;
            match self.state {
                ParserState::HeaderIe => {
                    let header = match self.buffer.try_pop_field::<header_ie::Header>() {
                        Err(_) => return Err(ContentError::UnexpectedTermination),
                        Ok(None) => return Err(ContentError::InvalidHeaderIe),
                        Ok(Some(h)) => h,
                    };
                    proof {
                        header_ie::Header::lemma_view(spec_u16_from_le_bytes(b.subrange(0, 2)), header);
                    }
                    let payload = match self.buffer.pop_buffer(header.length() as usize) {
                        Err(_) => return Err(ContentError::UnexpectedTermination),
                        Ok(p) => p,
                    };
                    let id = header.element_id();
                    if id == HEADER_TERMINATION_1_ID {
                        self.state = ParserState::PayloadIe;
                    } else if id == HEADER_TERMINATION_2_ID {
                        self.state = ParserState::Payload;
                    } else {
                        return Ok(Some(Content::HeaderIe { element_id: id, payload }));
                    }
                },
                ParserState::PayloadIe => {
                    let header = match self.buffer.try_pop_field::<payload_ie::Header>() {
                        Err(_) => return Err(ContentError::UnexpectedTermination),
                        Ok(None) => return Err(ContentError::InvalidHeaderIe),
                        Ok(Some(h)) => h,
                    };
                    proof {
                        payload_ie::Header::lemma_view(
                            spec_u16_from_le_bytes(b.subrange(0, 2)) & !0x8000u16,
                            header,
                        );
                    }
                    let payload = match self.buffer.pop_buffer(header.length() as usize) {
                        Err(_) => return Err(ContentError::UnexpectedTermination),
                        Ok(p) => p,
                    };
                    let id = header.group_id();
                    if id == PAYLOAD_TERMINATION_ID {
                        self.state = ParserState::Payload;
                    } else {
                        return Ok(Some(Content::PayloadIe { group_id: id, payload }));
                    }
                },
                ParserState::Payload => {
                    let n = self.buffer.len();
                    let payload = self.buffer.pop_buffer(n).unwrap();
                    proof {
                        assert(payload@ =~= b);
                    }
                    return Ok(Some(Content::Payload(payload)));
                },
            }
        }
    }

    /// The next element; after an error the iterator is exhausted.
    pub fn next(&mut self) -> (r: Option<Result<Content<'a>, ContentError>>)
        ensures
            ({
                let (item, s, rest) = spec_content_next(old(self).spec_state(), old(self).spec_bytes());
                &&& spec_content_item(r) == item
                &&& final(self).spec_state() == s
                &&& final(self).spec_bytes() == rest
            }),
    {
        let val = self.raw_next();
        match val {
            Ok(Some(c)) => Some(Ok(c)),
            Ok(None) => None,
            Err(e) => {
                self.buffer.clear();
                Some(Err(e))
            },
        }
    }
}

/// Parses the frame header at the front of the buffer, and hands out an
/// iterator over what follows it.
pub fn parse_frame(buffer: ReadBuffer) -> (r: Result<(Header, ContentIterator), ParseError>)
    ensures
        match spec_parse_header(buffer@) {
            Err(e) => r matches Err(e2) && e2 == e,
            Ok((h, ie, rest)) => r matches Ok((h2, iter)) && h2 == h && iter.spec_bytes() == rest
                && iter.spec_state() == if ie {
                ParserState::HeaderIe
            } else {
                ParserState::Payload
            },
        },
{
    let mut buffer = buffer;
    let ghost bytes = buffer@;
    let frame_control = match buffer.pop_field::<FrameControl>() {
        Ok(fc) => fc,
        Err(_) => return Err(ParseError::UnexpectedTermination),
    };
    let ghost v = frame_control.0;
    proof {
        assert(v == spec_received_control(bytes));
    }
    if frame_control.0 & 0b111 > 3 {
        return Err(ParseError::UnsupportedValue(HeaderField::FrameType));
    }
    let version = frame_control.two_bits(12);
    if version > 2 {
        return Err(ParseError::UnsupportedValue(HeaderField::FrameVersion));
    }
    if frame_control.bit(3) {
        return Err(ParseError::UnsupportedValue(HeaderField::SecurityEnable));
    }
    let legacy_ver = version <= 1;
    let dm = frame_control.two_bits(10);
    let sm = frame_control.two_bits(14);
    let pic = frame_control.bit(6);
    let sns = frame_control.bit(8);
    let ie = frame_control.bit(9);
    let (dst_pan_id_present, src_pan_id_present, src_pan_id_copy) = match pan_id_layout(legacy_ver, dm, sm, pic) {
        Some(layout) => layout,
        None => return Err(ParseError::UnsupportedValue(HeaderField::Addressing)),
    };
    if sns && legacy_ver {
        return Err(ParseError::UnsupportedValue(HeaderField::SeqNumSuppression));
    }
    if ie && legacy_ver {
        return Err(ParseError::UnsupportedValue(HeaderField::IePreset));
    }
    let (seq_num, dst_pan_id, dst_addr, src_pan_popped, src_addr) = pop_fields(
        &mut buffer,
        !sns,
        dst_pan_id_present,
        dm,
        src_pan_id_present,
        sm,
    )?;
    let src_pan_id = if src_pan_id_present {
        src_pan_popped
    } else if src_pan_id_copy {
        dst_pan_id
    } else {
        None
    };
    let header = Header {
        frame_type: frame_control.frame_type(),
        frame_pending: frame_control.bit(4),
        ack_request: frame_control.bit(5),
        sequence_number: seq_num,
        destination_pan_id: dst_pan_id,
        destination_address: dst_addr,
        source_pan_id: src_pan_id,
        source_address: src_addr,
    };
    let iter = ContentIterator::new(buffer, ie);
    Ok((header, iter))
}

/// What `spec_content_step` leaves is a suffix of what it was given, shorter
/// by a descriptor at least when it yields a payload IE.
pub proof fn lemma_content_step_len(state: ParserState, b: Seq<u8>)
    ensures
        spec_content_step(state, b).2.len() <= b.len(),
        spec_content_step(state, b).0 matches Ok(Some(SpecContent::PayloadIe { .. })) ==> spec_content_step(
            state,
            b,
        ).2.len() + 2 <= b.len(),
    decreases b.len(),
{
    if b.len() >= 2 {
        let rest = b.subrange(2, b.len() as int);
        let v = spec_u16_from_le_bytes(b.subrange(0, 2));
        match state {
            ParserState::HeaderIe => {
                let len = header_ie::spec_length(v) as int;
                if v & 0x8000 == 0 && rest.len() >= len {
                    let after = rest.subrange(len, rest.len() as int);
                    lemma_content_step_len(ParserState::PayloadIe, after);
                    lemma_content_step_len(ParserState::Payload, after);
                }
            },
            ParserState::PayloadIe => {
                let w = v & !0x8000u16;
                let len = payload_ie::spec_length(w) as int;
                if v & 0x8000 != 0 && rest.len() >= len {
                    let after = rest.subrange(len, rest.len() as int);
                    lemma_content_step_len(ParserState::Payload, after);
                }
            },
            ParserState::Payload => {},
        }
    }
}

/// An element after the frame header, with the nested IEs of MLME payload
/// IEs taken out of their container.
#[derive(Debug)]
pub enum FlattenContent<'a> {
    HeaderIe { element_id: u8, payload: ReadBuffer<'a> },
    PayloadIe { group_id: u8, payload: ReadBuffer<'a> },
    ShortNestedIe { sub_id: u8, payload: ReadBuffer<'a> },
    LongNestedIe { sub_id: u8, payload: ReadBuffer<'a> },
    Payload(ReadBuffer<'a>),
}

/// What a flattened element holds.
pub enum SpecFlattenContent {
    HeaderIe { element_id: u8, payload: Seq<u8> },
    PayloadIe { group_id: u8, payload: Seq<u8> },
    ShortNestedIe { sub_id: u8, payload: Seq<u8> },
    LongNestedIe { sub_id: u8, payload: Seq<u8> },
    Payload(Seq<u8>),
}

impl<'a> View for FlattenContent<'a> {
    type V = SpecFlattenContent;

    open spec fn view(&self) -> SpecFlattenContent {
        match self {
            FlattenContent::HeaderIe { element_id, payload } => SpecFlattenContent::HeaderIe {
                element_id: *element_id,
                payload: payload@,
            },
            FlattenContent::PayloadIe { group_id, payload } => SpecFlattenContent::PayloadIe {
                group_id: *group_id,
                payload: payload@,
            },
            FlattenContent::ShortNestedIe { sub_id, payload } => SpecFlattenContent::ShortNestedIe {
                sub_id: *sub_id,
                payload: payload@,
            },
            FlattenContent::LongNestedIe { sub_id, payload } => SpecFlattenContent::LongNestedIe {
                sub_id: *sub_id,
                payload: payload@,
            },
            FlattenContent::Payload(payload) => SpecFlattenContent::Payload(payload@),
        }
    }
}

pub open spec fn spec_flatten_content(c: SpecContent) -> SpecFlattenContent {
    match c {
        SpecContent::HeaderIe { element_id, payload } => SpecFlattenContent::HeaderIe { element_id, payload },
        SpecContent::PayloadIe { group_id, payload } => SpecFlattenContent::PayloadIe { group_id, payload },
        SpecContent::Payload(payload) => SpecFlattenContent::Payload(payload),
    }
}

pub open spec fn spec_flatten_nested(n: SpecNested) -> SpecFlattenContent {
    match n {
        SpecNested::Short { sub_id, payload } => SpecFlattenContent::ShortNestedIe { sub_id, payload },
        SpecNested::Long { sub_id, payload } => SpecFlattenContent::LongNestedIe { sub_id, payload },
    }
}

/// What one call of `FlattenContentIterator::next` gives with the content
/// parser in `state` with octets `b` left and `nested` the octets left in the
/// MLME IE being walked, if any: the item, and the state, octets and nested
/// octets after it.
pub open spec fn spec_flatten_next(state: ParserState, b: Seq<u8>, nested: Option<Seq<u8>>) -> (
    Option<Result<SpecFlattenContent, ContentError>>,
    ParserState,
    Seq<u8>,
    Option<Seq<u8>>,
)
    decreases b.len(), if nested is Some { 1int } else { 0int },
{
    match nested {
        Some(nb) => {
            let (item, rest) = spec_mlme_next(nb);
            match item {
                Some(Ok(n)) => (Some(Ok(spec_flatten_nested(n))), state, b, Some(rest)),
                Some(Err(_)) => (Some(Err(ContentError::UnexpectedTermination)), state, b, Some(rest)),
                None => spec_flatten_next(state, b, None),
            }
        },
        None => {
            let (item, s, rest) = spec_content_next(state, b);
            match item {
                Some(Ok(SpecContent::PayloadIe { group_id, payload })) => {
                    if group_id == payload_ie::MLME_GROUP_ID {
                        proof {
                            lemma_content_step_len(state, b);
                        }
                        spec_flatten_next(s, rest, Some(payload))
                    } else {
                        (Some(Ok(SpecFlattenContent::PayloadIe { group_id, payload })), s, rest, None)
                    }
                },
                Some(Ok(c)) => (Some(Ok(spec_flatten_content(c))), s, rest, None),
                Some(Err(e)) => (Some(Err(e)), s, rest, None),
                None => (None, s, rest, None),
            }
        },
    }
}

/// An item of a flattening iterator without its borrowed buffers.
pub open spec fn spec_flatten_item(r: Option<Result<FlattenContent, ContentError>>) -> Option<
    Result<SpecFlattenContent, ContentError>,
> {
    match r {
        None => None,
        Some(Ok(c)) => Some(Ok(c@)),
        Some(Err(e)) => Some(Err(e)),
    }
}

fn flatten_content(c: Content) -> (r: FlattenContent)
    ensures
        r@ == spec_flatten_content(c@),
{
    match c {
        Content::HeaderIe { element_id, payload } => FlattenContent::HeaderIe { element_id, payload },
        Content::PayloadIe { group_id, payload } => FlattenContent::PayloadIe { group_id, payload },
        Content::Payload(payload) => FlattenContent::Payload(payload),
    }
}

fn flatten_nested(n: NestedContent) -> (r: FlattenContent)
    ensures
        r@ == spec_flatten_nested(n@),
{
    match n {
        NestedContent::Short { sub_id, payload } => FlattenContent::ShortNestedIe { sub_id, payload },
        NestedContent::Long { sub_id, payload } => FlattenContent::LongNestedIe { sub_id, payload },
    }
}

/// Iterator over the elements after a frame header that walks into MLME
/// payload IEs and yields their nested IEs in their place.
pub struct FlattenContentIterator<'a> {
    content_iter: ContentIterator<'a>,
    nested_iter: Option<MlmeIeIter<'a>>,
}

impl<'a> FlattenContentIterator<'a> {
    pub closed spec fn spec_state(&self) -> ParserState {
        self.content_iter.spec_state()
    }

    pub closed spec fn spec_bytes(&self) -> Seq<u8> {
        self.content_iter.spec_bytes()
    }

    /// The octets left in the MLME IE being walked, if any.
    pub closed spec fn spec_nested(&self) -> Option<Seq<u8>> {
        match self.nested_iter {
            Some(it) => Some(it@),
            None => None,
        }
    }

    fn new(content_iter: ContentIterator<'a>) -> (r: Self)
        ensures
            r.spec_state() == content_iter.spec_state(),
            r.spec_bytes() == content_iter.spec_bytes(),
            r.spec_nested() is None,
    {
        Self { content_iter, nested_iter: None }
    }

    /// The next element; nested IEs of an MLME payload IE take its place.
    pub fn next(&mut self) -> (r: Option<Result<FlattenContent<'a>, ContentError>>)
        ensures
            ({
                let (item, s, rest, nested) = spec_flatten_next(
                    old(self).spec_state(),
                    old(self).spec_bytes(),
                    old(self).spec_nested(),
                );
                &&& spec_flatten_item(r) == item
                &&& final(self).spec_state() == s
                &&& final(self).spec_bytes() == rest
                &&& final(self).spec_nested() == nested
            }),
    {
        loop
            invariant
                spec_flatten_next(self.spec_state(), self.spec_bytes(), self.spec_nested()) == spec_flatten_next(
                    old(self).spec_state(),
                    old(self).spec_bytes(),
                    old(self).spec_nested(),
                ),
            decreases self.spec_bytes().len(), if self.spec_nested() is Some { 1int } else { 0int },
        {
            let mut nested_done = false;
            match &mut self.nested_iter {
                Some(iter) => {
                    match iter.next() {
                        Some(Ok(val)) => return Some(Ok(flatten_nested(val))),
                        Some(Err(_)) => return Some(Err(ContentError::UnexpectedTermination)),
                        None => {
                            nested_done = true;
                        },
                    }
                },
                None => {},
            }
            if nested_done {
                self.nested_iter = None;
                continue;
            }
            let ghost st = self.content_iter.spec_state();
            let ghost b = self.content_iter.spec_bytes();
            match self.content_iter.next() {
                Some(Ok(Content::PayloadIe { group_id, payload })) => {
                    if group_id == payload_ie::MLME_GROUP_ID {
                        proof {
                            lemma_content_step_len(st, b);
                        }
                        self.nested_iter = Some(MlmeIeIter::new(payload));
                        continue;
                    } else {
                        return Some(Ok(FlattenContent::PayloadIe { group_id, payload }));
                    }
                },
                Some(Ok(val)) => return Some(Ok(flatten_content(val))),
                Some(Err(err)) => return Some(Err(err)),
                None => return None,
            }
        }
    }
}

/// Parses the frame header and hands out an iterator over what follows it
/// that walks into MLME payload IEs.
pub fn parse_frame_flatten(buffer: ReadBuffer) -> (r: Result<(Header, FlattenContentIterator), ParseError>)
    ensures
        match spec_parse_header(buffer@) {
            Err(e) => r matches Err(e2) && e2 == e,
            Ok((h, ie, rest)) => r matches Ok((h2, iter)) && h2 == h && iter.spec_bytes() == rest
                && iter.spec_nested() is None && iter.spec_state() == if ie {
                ParserState::HeaderIe
            } else {
                ParserState::Payload
            },
        },
{
    let (header, iter) = parse_frame(buffer)?;
    let nested_iter = FlattenContentIterator::new(iter);
    Ok((header, nested_iter))
}

/// The octets of a header IE with this element ID and content.
pub open spec fn spec_header_ie_bytes(element_id: u8, content: Seq<u8>) -> Seq<u8> {
    header_ie::spec_descriptor(content.len() as u8, element_id).spec_serialize() + content
}

/// The octets of a payload IE with this group ID and content.
pub open spec fn spec_payload_ie_bytes(group_id: u8, content: Seq<u8>) -> Seq<u8> {
    (payload_ie::spec_descriptor(content.len() as u16, group_id) | 0x8000u16).spec_serialize() + content
}

proof fn lemma_header_descriptor(len: u8, id: u8)
    requires
        len <= 0x7f,
    ensures
        header_ie::spec_descriptor(len, id) & 0x8000 == 0,
        header_ie::spec_length(header_ie::spec_descriptor(len, id)) == len,
        header_ie::spec_element_id(header_ie::spec_descriptor(len, id)) == id,
{
    assert({
        &&& (((id as u16) << 7) | (len as u16)) & 0x8000 == 0
        &&& ((((id as u16) << 7) | (len as u16)) & 0x7f) as u8 == len
        &&& (((((id as u16) << 7) | (len as u16)) >> 7) & 0xff) as u8 == id
    }) by (bit_vector)
        requires
            len <= 0x7f,
    ;
}

proof fn lemma_payload_descriptor(len: u16, id: u8)
    requires
        len <= 0x7ff,
        id <= 0xf,
    ensures
        (payload_ie::spec_descriptor(len, id) | 0x8000u16) & 0x8000 != 0,
        (payload_ie::spec_descriptor(len, id) | 0x8000u16) & !0x8000u16 == payload_ie::spec_descriptor(len, id),
        payload_ie::spec_length(payload_ie::spec_descriptor(len, id)) == len,
        payload_ie::spec_group_id(payload_ie::spec_descriptor(len, id)) == id,
{
    assert({
        &&& ((((id as u16) << 11) | len) | 0x8000u16) & 0x8000 != 0
        &&& ((((id as u16) << 11) | len) | 0x8000u16) & !0x8000u16 == (((id as u16) << 11) | len)
        &&& (((id as u16) << 11) | len) & 0x7ff == len
        &&& (((((id as u16) << 11) | len) >> 11) & 0xf) as u8 == id
    }) by (bit_vector)
        requires
            len <= 0x7ff,
            id <= 0xf,
    ;
}

proof fn lemma_split_descriptor(d: u16, content: Seq<u8>, rest: Seq<u8>)
    ensures
        ({
            let b = d.spec_serialize() + content + rest;
            &&& b.len() == 2 + content.len() + rest.len()
            &&& spec_u16_from_le_bytes(b.subrange(0, 2)) == d
            &&& b.subrange(2, b.len() as int).subrange(0, content.len() as int) == content
            &&& b.subrange(2, b.len() as int).subrange(content.len() as int, b.len() - 2) == rest
        }),
{
    crate::mac::format::primitives::lemma_primitive_roundtrip();
    let b = d.spec_serialize() + content + rest;
    assert(b.subrange(0, 2) =~= d.spec_serialize());
    assert(b.subrange(2, b.len() as int).subrange(0, content.len() as int) =~= content);
    assert(b.subrange(2, b.len() as int).subrange(content.len() as int, b.len() - 2) =~= rest);
}

/// A header IE written with an element ID other than the two terminations
/// reads back as itself, with the parser staying among the header IEs.
pub proof fn law_header_ie_roundtrip(element_id: u8, content: Seq<u8>, rest: Seq<u8>)
    requires
        content.len() <= header_ie::MAX_LENGTH,
        element_id != HEADER_TERMINATION_1_ID,
        element_id != HEADER_TERMINATION_2_ID,
    ensures
        spec_content_next(ParserState::HeaderIe, spec_header_ie_bytes(element_id, content) + rest) == (
            Some(Ok::<SpecContent, ContentError>(SpecContent::HeaderIe { element_id, payload: content })),
            ParserState::HeaderIe,
            rest,
        ),
{
    let d = header_ie::spec_descriptor(content.len() as u8, element_id);
    lemma_header_descriptor(content.len() as u8, element_id);
    lemma_split_descriptor(d, content, rest);
    let b = spec_header_ie_bytes(element_id, content) + rest;
    assert(b =~= d.spec_serialize() + content + rest);
    let r = b.subrange(2, b.len() as int);
    assert(header_ie::spec_length(d) as int == content.len());
    assert(r.subrange(0, content.len() as int) == content);
    assert(r.subrange(content.len() as int, r.len() as int) == rest);
    assert(spec_content_step(ParserState::HeaderIe, b) == (
        Ok::<Option<SpecContent>, ContentError>(Some(SpecContent::HeaderIe { element_id, payload: content })),
        ParserState::HeaderIe,
        rest,
    ));
}

/// A payload IE of a group other than the termination reads back as itself
/// among the payload IEs.
pub proof fn law_payload_ie_roundtrip(group_id: u8, content: Seq<u8>, rest: Seq<u8>)
    requires
        content.len() <= payload_ie::MAX_LENGTH,
        group_id <= payload_ie::MAX_GROUP_ID,
        group_id != PAYLOAD_TERMINATION_ID,
    ensures
        spec_content_next(ParserState::PayloadIe, spec_payload_ie_bytes(group_id, content) + rest) == (
            Some(Ok::<SpecContent, ContentError>(SpecContent::PayloadIe { group_id, payload: content })),
            ParserState::PayloadIe,
            rest,
        ),
{
    let d = payload_ie::spec_descriptor(content.len() as u16, group_id) | 0x8000u16;
    lemma_payload_descriptor(content.len() as u16, group_id);
    lemma_split_descriptor(d, content, rest);
    let b = spec_payload_ie_bytes(group_id, content) + rest;
    assert(b =~= d.spec_serialize() + content + rest);
    let r = b.subrange(2, b.len() as int);
    let w = d & !0x8000u16;
    assert(payload_ie::spec_length(w) as int == content.len());
    assert(r.subrange(0, content.len() as int) == content);
    assert(r.subrange(content.len() as int, r.len() as int) == rest);
    assert(spec_content_step(ParserState::PayloadIe, b) == (
        Ok::<Option<SpecContent>, ContentError>(Some(SpecContent::PayloadIe { group_id, payload: content })),
        ParserState::PayloadIe,
        rest,
    ));
}

/// The termination that opens the payload IEs moves the parser from the
/// header IEs to the payload IEs.
pub proof fn law_header_termination_to_payload_ies(rest: Seq<u8>)
    ensures
        spec_content_step(ParserState::HeaderIe, spec_header_terminator(HEADER_TERMINATION_1_ID) + rest)
            == spec_content_step(ParserState::PayloadIe, rest),
{
    let d = header_ie::spec_descriptor(0, HEADER_TERMINATION_1_ID);
    lemma_header_descriptor(0, HEADER_TERMINATION_1_ID);
    lemma_split_descriptor(d, Seq::empty(), rest);
    assert(spec_header_terminator(HEADER_TERMINATION_1_ID) + rest =~= d.spec_serialize() + Seq::<u8>::empty()
        + rest);
}

/// The termination that opens the payload after header IEs moves the parser
/// to the payload.
pub proof fn law_header_termination_to_payload(rest: Seq<u8>)
    ensures
        spec_content_step(ParserState::HeaderIe, spec_header_terminator(HEADER_TERMINATION_2_ID) + rest)
            == spec_content_step(ParserState::Payload, rest),
{
    let d = header_ie::spec_descriptor(0, HEADER_TERMINATION_2_ID);
    lemma_header_descriptor(0, HEADER_TERMINATION_2_ID);
    lemma_split_descriptor(d, Seq::empty(), rest);
    assert(spec_header_terminator(HEADER_TERMINATION_2_ID) + rest =~= d.spec_serialize() + Seq::<u8>::empty()
        + rest);
}

/// The termination of the payload IEs moves the parser to the payload.
pub proof fn law_payload_termination(rest: Seq<u8>)
    ensures
        spec_content_step(ParserState::PayloadIe, spec_payload_terminator() + rest) == spec_content_step(
            ParserState::Payload,
            rest,
        ),
{
    let d = payload_ie::spec_descriptor(0, PAYLOAD_TERMINATION_ID) | 0x8000u16;
    lemma_payload_descriptor(0, PAYLOAD_TERMINATION_ID);
    lemma_split_descriptor(d, Seq::empty(), rest);
    assert(spec_payload_terminator() + rest =~= d.spec_serialize() + Seq::<u8>::empty() + rest);
}

/// Whatever follows the terminations is the payload, whole.
pub proof fn law_payload_roundtrip(payload: Seq<u8>)
    requires
        payload.len() > 0,
    ensures
        spec_content_next(ParserState::Payload, payload) == (
            Some(Ok::<SpecContent, ContentError>(SpecContent::Payload(payload))),
            ParserState::Payload,
            Seq::<u8>::empty(),
        ),
{
}

/// Header IEs, each an element ID and its content, one after the other.
pub open spec fn spec_header_ies_bytes(ies: Seq<(u8, Seq<u8>)>) -> Seq<u8>
    decreases ies.len(),
{
    if ies.len() == 0 {
        Seq::empty()
    } else {
        spec_header_ie_bytes(ies[0].0, ies[0].1) + spec_header_ies_bytes(ies.drop_first())
    }
}

/// Payload IEs, each a group ID and its content, one after the other.
pub open spec fn spec_payload_ies_bytes(ies: Seq<(u8, Seq<u8>)>) -> Seq<u8>
    decreases ies.len(),
{
    if ies.len() == 0 {
        Seq::empty()
    } else {
        spec_payload_ie_bytes(ies[0].0, ies[0].1) + spec_payload_ies_bytes(ies.drop_first())
    }
}

/// Header IEs that the builder writes and the parser yields as such: a
/// content that fits the length field, and no termination ID.
pub open spec fn spec_valid_header_ies(ies: Seq<(u8, Seq<u8>)>) -> bool {
    forall|i: int|
        0 <= i < ies.len() ==> {
            &&& #[trigger] ies[i].1.len() <= header_ie::MAX_LENGTH
            &&& ies[i].0 != HEADER_TERMINATION_1_ID
            &&& ies[i].0 != HEADER_TERMINATION_2_ID
        }
}

/// Payload IEs that the builder writes and the parser yields as such: a
/// content that fits the length field, a group ID that fits its field, and
/// not the termination.
pub open spec fn spec_valid_payload_ies(ies: Seq<(u8, Seq<u8>)>) -> bool {
    forall|i: int|
        0 <= i < ies.len() ==> {
            &&& #[trigger] ies[i].1.len() <= payload_ie::MAX_LENGTH
            &&& ies[i].0 <= payload_ie::MAX_GROUP_ID
            &&& ies[i].0 != PAYLOAD_TERMINATION_ID
        }
}

/// Whether the frame control announces IEs, for a frame with these header
/// and payload IEs.
pub open spec fn spec_body_ie_present(hies: Seq<(u8, Seq<u8>)>, pies: Seq<(u8, Seq<u8>)>) -> bool {
    hies.len() > 0 || pies.len() > 0
}

/// What the frame builder writes after the frame header for header IEs
/// `hies`, payload IEs `pies` and `payload`: the header IEs, the
/// termination that opens what follows them, the payload IEs, the
/// termination that ends them before a payload, and the payload.
pub open spec fn spec_frame_body(hies: Seq<(u8, Seq<u8>)>, pies: Seq<(u8, Seq<u8>)>, payload: Seq<u8>) -> Seq<u8> {
    spec_header_ies_bytes(hies) + (if pies.len() > 0 {
        spec_header_terminator(HEADER_TERMINATION_1_ID)
    } else if hies.len() > 0 && payload.len() > 0 {
        spec_header_terminator(HEADER_TERMINATION_2_ID)
    } else {
        Seq::empty()
    }) + spec_payload_ies_bytes(pies) + (if pies.len() > 0 && payload.len() > 0 {
        spec_payload_terminator()
    } else {
        Seq::empty()
    }) + payload
}

/// The header IEs as parsed elements.
pub open spec fn spec_header_ie_items(ies: Seq<(u8, Seq<u8>)>) -> Seq<Option<Result<SpecContent, ContentError>>> {
    Seq::new(
        ies.len(),
        |i: int| Some(Ok::<SpecContent, ContentError>(SpecContent::HeaderIe { element_id: ies[i].0, payload: ies[i].1 })),
    )
}

/// The payload IEs as parsed elements.
pub open spec fn spec_payload_ie_items(ies: Seq<(u8, Seq<u8>)>) -> Seq<Option<Result<SpecContent, ContentError>>> {
    Seq::new(
        ies.len(),
        |i: int| Some(Ok::<SpecContent, ContentError>(SpecContent::PayloadIe { group_id: ies[i].0, payload: ies[i].1 })),
    )
}

/// The payload as a parsed element: none when it is empty.
pub open spec fn spec_payload_items(payload: Seq<u8>) -> Seq<Option<Result<SpecContent, ContentError>>> {
    if payload.len() > 0 {
        seq![Some(Ok::<SpecContent, ContentError>(SpecContent::Payload(payload)))]
    } else {
        Seq::empty()
    }
}

/// What `n` calls of `ContentIterator::next` give from parser state `state`
/// with octets `b` left.
pub open spec fn spec_content_items(state: ParserState, b: Seq<u8>, n: nat) -> Seq<
    Option<Result<SpecContent, ContentError>>,
>
    decreases n,
{
    if n == 0 {
        Seq::empty()
    } else {
        let (item, s, rest) = spec_content_next(state, b);
        seq![item] + spec_content_items(s, rest, (n - 1) as nat)
    }
}

proof fn lemma_items_same_next(s1: ParserState, b1: Seq<u8>, s2: ParserState, b2: Seq<u8>, n: nat)
    requires
        spec_content_next(s1, b1) == spec_content_next(s2, b2),
    ensures
        spec_content_items(s1, b1, n) == spec_content_items(s2, b2, n),
{
}

proof fn lemma_items_header_ies(ies: Seq<(u8, Seq<u8>)>, tail: Seq<u8>, n: nat)
    requires
        spec_valid_header_ies(ies),
    ensures
        spec_content_items(ParserState::HeaderIe, spec_header_ies_bytes(ies) + tail, ies.len() + n)
            == spec_header_ie_items(ies) + spec_content_items(ParserState::HeaderIe, tail, n),
    decreases ies.len(),
{
    if ies.len() == 0 {
        assert(spec_header_ies_bytes(ies) + tail =~= tail);
        assert(spec_header_ie_items(ies) + spec_content_items(ParserState::HeaderIe, tail, n) =~= spec_content_items(
            ParserState::HeaderIe,
            tail,
            n,
        ));
    } else {
        let rest = ies.drop_first();
        assert(spec_valid_header_ies(rest)) by {
            assert forall|i: int| 0 <= i < rest.len() implies #[trigger] rest[i].1.len() <= header_ie::MAX_LENGTH
                && rest[i].0 != HEADER_TERMINATION_1_ID && rest[i].0 != HEADER_TERMINATION_2_ID by {
                assert(rest[i] == ies[i + 1]);
            }
        }
        lemma_items_header_ies(rest, tail, n);
        let b = spec_header_ies_bytes(ies) + tail;
        let rest_b = spec_header_ies_bytes(rest) + tail;
        assert(ies[0].1.len() <= header_ie::MAX_LENGTH);
        assert(b =~= spec_header_ie_bytes(ies[0].0, ies[0].1) + rest_b);
        law_header_ie_roundtrip(ies[0].0, ies[0].1, rest_b);
        assert((ies.len() + n - 1) as nat == rest.len() + n);
        assert(spec_header_ie_items(ies) =~= spec_header_ie_items(ies).subrange(0, 1) + spec_header_ie_items(rest));
    }
}

proof fn lemma_items_payload_ies(ies: Seq<(u8, Seq<u8>)>, tail: Seq<u8>, n: nat)
    requires
        spec_valid_payload_ies(ies),
    ensures
        spec_content_items(ParserState::PayloadIe, spec_payload_ies_bytes(ies) + tail, ies.len() + n)
            == spec_payload_ie_items(ies) + spec_content_items(ParserState::PayloadIe, tail, n),
    decreases ies.len(),
{
    if ies.len() == 0 {
        assert(spec_payload_ies_bytes(ies) + tail =~= tail);
        assert(spec_payload_ie_items(ies) + spec_content_items(ParserState::PayloadIe, tail, n) =~= spec_content_items(
            ParserState::PayloadIe,
            tail,
            n,
        ));
    } else {
        let rest = ies.drop_first();
        assert(spec_valid_payload_ies(rest)) by {
            assert forall|i: int| 0 <= i < rest.len() implies #[trigger] rest[i].1.len() <= payload_ie::MAX_LENGTH
                && rest[i].0 <= payload_ie::MAX_GROUP_ID && rest[i].0 != PAYLOAD_TERMINATION_ID by {
                assert(rest[i] == ies[i + 1]);
            }
        }
        lemma_items_payload_ies(rest, tail, n);
        let b = spec_payload_ies_bytes(ies) + tail;
        let rest_b = spec_payload_ies_bytes(rest) + tail;
        assert(ies[0].1.len() <= payload_ie::MAX_LENGTH);
        assert(b =~= spec_payload_ie_bytes(ies[0].0, ies[0].1) + rest_b);
        law_payload_ie_roundtrip(ies[0].0, ies[0].1, rest_b);
        assert((ies.len() + n - 1) as nat == rest.len() + n);
        assert(spec_payload_ie_items(ies) =~= spec_payload_ie_items(ies).subrange(0, 1) + spec_payload_ie_items(
            rest,
        ));
    }
}

/// With no octets left the iterator is at its end.
proof fn lemma_items_end(state: ParserState)
    ensures
        spec_content_items(state, Seq::<u8>::empty(), 1) == seq![None::<Result<SpecContent, ContentError>>],
{
    let e = Seq::<u8>::empty();
    assert(spec_content_step(state, e) == (Ok::<Option<SpecContent>, ContentError>(None), state, e));
    assert(spec_content_next(state, e) == (None::<Result<SpecContent, ContentError>>, state, e));
    assert(spec_content_items(state, e, 0) =~= Seq::<Option<Result<SpecContent, ContentError>>>::empty());
    assert(spec_content_items(state, e, 1) =~= seq![None::<Result<SpecContent, ContentError>>]);
}

/// What follows the last IE: the payload, if any, then the end.
proof fn lemma_items_payload(state: ParserState, payload: Seq<u8>)
    requires
        payload.len() > 0 ==> state == ParserState::Payload,
    ensures
        spec_content_items(state, payload, spec_payload_items(payload).len() + 1) == spec_payload_items(payload)
            + seq![None::<Result<SpecContent, ContentError>>],
{
    if payload.len() > 0 {
        law_payload_roundtrip(payload);
        lemma_items_end(ParserState::Payload);
        assert(spec_content_items(state, payload, 2) =~= spec_payload_items(payload) + seq![
            None::<Result<SpecContent, ContentError>>,
        ]);
    } else {
        assert(payload =~= Seq::<u8>::empty());
        lemma_items_end(state);
        assert(spec_content_items(state, payload, 1) =~= spec_payload_items(payload) + seq![
            None::<Result<SpecContent, ContentError>>,
        ]);
    }
}

/// A frame laid out as the builder lays it out reads back as itself: the
/// header, with the IE flag set when there are IEs, then each header IE,
/// each payload IE and the payload, in order, and then the end.
pub proof fn law_frame_roundtrip(
    h: Header,
    hies: Seq<(u8, Seq<u8>)>,
    pies: Seq<(u8, Seq<u8>)>,
    payload: Seq<u8>,
)
    requires
        spec_header_valid(h),
        spec_valid_header_ies(hies),
        spec_valid_payload_ies(pies),
    ensures
        ({
            let ie = spec_body_ie_present(hies, pies);
            let body = spec_frame_body(hies, pies, payload);
            let items = spec_header_ie_items(hies) + spec_payload_ie_items(pies) + spec_payload_items(payload);
            &&& spec_parse_header(spec_header_bytes(h, ie) + body) == Ok::<(Header, bool, Seq<u8>), ParseError>(
                (h, ie, body),
            )
            &&& spec_content_items(
                if ie {
                    ParserState::HeaderIe
                } else {
                    ParserState::Payload
                },
                body,
                items.len() + 1,
            ) == items + seq![None::<Result<SpecContent, ContentError>>]
        }),
{
    let ie = spec_body_ie_present(hies, pies);
    let body = spec_frame_body(hies, pies, payload);
    law_header_roundtrip(h, ie, body);
    let hb = spec_header_ies_bytes(hies);
    let pb = spec_payload_ies_bytes(pies);
    let hi = spec_header_ie_items(hies);
    let pi = spec_payload_ie_items(pies);
    let yi = spec_payload_items(payload);
    let end = seq![None::<Result<SpecContent, ContentError>>];
    let k = yi.len() + 1;
    if pies.len() > 0 {
        let t1 = spec_header_terminator(HEADER_TERMINATION_1_ID);
        let tail = if payload.len() > 0 {
            spec_payload_terminator() + payload
        } else {
            payload
        };
        assert(body =~= hb + (t1 + (pb + tail)));
        lemma_items_header_ies(hies, t1 + (pb + tail), pies.len() + k);
        law_header_termination_to_payload_ies(pb + tail);
        lemma_items_same_next(ParserState::HeaderIe, t1 + (pb + tail), ParserState::PayloadIe, pb + tail, pies.len() + k);
        lemma_items_payload_ies(pies, tail, k);
        if payload.len() > 0 {
            law_payload_termination(payload);
            lemma_items_same_next(ParserState::PayloadIe, tail, ParserState::Payload, payload, k);
            lemma_items_payload(ParserState::Payload, payload);
        } else {
            lemma_items_payload(ParserState::PayloadIe, payload);
        }
        assert((hi + pi + yi).len() + 1 == hies.len() + (pies.len() + k));
        assert(hi + (pi + (yi + end)) =~= hi + pi + yi + end);
    } else if hies.len() > 0 {
        assert(pi =~= Seq::<Option<Result<SpecContent, ContentError>>>::empty());
        assert(pb =~= Seq::<u8>::empty());
        if payload.len() > 0 {
            let t2 = spec_header_terminator(HEADER_TERMINATION_2_ID);
            assert(body =~= hb + (t2 + payload));
            lemma_items_header_ies(hies, t2 + payload, k);
            law_header_termination_to_payload(payload);
            lemma_items_same_next(ParserState::HeaderIe, t2 + payload, ParserState::Payload, payload, k);
            lemma_items_payload(ParserState::Payload, payload);
        } else {
            assert(body =~= hb + payload);
            lemma_items_header_ies(hies, payload, k);
            lemma_items_payload(ParserState::HeaderIe, payload);
        }
        assert((hi + pi + yi).len() + 1 == hies.len() + k);
        assert(hi + (yi + end) =~= hi + pi + yi + end);
    } else {
        assert(hi =~= Seq::<Option<Result<SpecContent, ContentError>>>::empty());
        assert(pi =~= Seq::<Option<Result<SpecContent, ContentError>>>::empty());
        assert(hb =~= Seq::<u8>::empty());
        assert(pb =~= Seq::<u8>::empty());
        assert(body =~= payload);
        lemma_items_payload(ParserState::Payload, payload);
        assert(hi + pi + yi + end =~= yi + end);
    }
}

/// A beacon as the builders make it reads back whole: a frame whose one
/// payload IE is an MLME IE holding a ranging descriptor IE parses back to
/// the header, then, through the flattening iterator, to that ranging
/// descriptor IE alone, whose content parses back to the descriptor and its
/// table entries.
pub proof fn law_beacon_roundtrip(
    h: Header,
    rbs_duration: u16,
    beacon_interval: u32,
    first_slot: u32,
    entries: Seq<u32>,
)
    requires
        spec_header_valid(h),
        rbs_duration < 0x8000,
        entries.len() <= 0xff,
        beacon_interval <= 0xffff ==> first_slot <= 0xffff,
        rd_ie::spec_rd_body(rbs_duration, beacon_interval, first_slot, entries).len() <= 0xff,
    ensures
        ({
            let body = rd_ie::spec_rd_body(rbs_duration, beacon_interval, first_slot, entries);
            let nested = ShortIeHeader::from_view(spec_short_descriptor(body.len() as u8, rd_ie::SUB_ID)).spec_serialize()
                + body;
            let elements = spec_frame_body(Seq::empty(), seq![(payload_ie::MLME_GROUP_ID, nested)], Seq::empty());
            let first = spec_flatten_next(ParserState::HeaderIe, elements, None);
            &&& spec_parse_header(spec_header_bytes(h, true) + elements) == Ok::<(Header, bool, Seq<u8>), ParseError>(
                (h, true, elements),
            )
            &&& first.0 == Some(
                Ok::<SpecFlattenContent, ContentError>(SpecFlattenContent::ShortNestedIe { sub_id: rd_ie::SUB_ID, payload: body }),
            )
            &&& spec_flatten_next(first.1, first.2, first.3).0 is None
            &&& rd_ie::spec_rd_parse(body) == Some(
                (
                    rd_ie::RangingDescriptor {
                        rbs_duration,
                        beacon_interval,
                        first_rcm_slot: if first_slot == 0 { None } else { Some(first_slot) },
                    },
                    rd_ie::spec_elements_bytes(entries),
                ),
            )
        }),
{
    let body = rd_ie::spec_rd_body(rbs_duration, beacon_interval, first_slot, entries);
    let nested = ShortIeHeader::from_view(spec_short_descriptor(body.len() as u8, rd_ie::SUB_ID)).spec_serialize() + body;
    let e = Seq::<u8>::empty();
    let pies = seq![(payload_ie::MLME_GROUP_ID, nested)];
    let elements = spec_frame_body(Seq::empty(), pies, e);
    law_header_roundtrip(h, true, elements);
    // the elements: the termination that opens the payload IEs, then the MLME IE
    let t1 = spec_header_terminator(HEADER_TERMINATION_1_ID);
    let mlme = spec_payload_ie_bytes(payload_ie::MLME_GROUP_ID, nested);
    assert(spec_header_ies_bytes(Seq::empty()) =~= e);
    assert(pies.drop_first() =~= Seq::<(u8, Seq<u8>)>::empty());
    assert(spec_payload_ies_bytes(pies) =~= mlme + spec_payload_ies_bytes(pies.drop_first()));
    assert(elements =~= t1 + (mlme + e));
    // the MLME IE is read as a payload IE after the termination
    assert(nested.len() == 2 + body.len()) by {
        crate::mac::format::primitives::lemma_primitive_roundtrip();
        ShortIeHeader::lemma_view(spec_short_descriptor(body.len() as u8, rd_ie::SUB_ID), ShortIeHeader::from_view(spec_short_descriptor(body.len() as u8, rd_ie::SUB_ID)));
    }
    law_header_termination_to_payload_ies(mlme + e);
    law_payload_ie_roundtrip(payload_ie::MLME_GROUP_ID, nested, e);
    assert(spec_content_next(ParserState::HeaderIe, elements) == spec_content_next(ParserState::PayloadIe, mlme + e));
    lemma_content_step_len(ParserState::HeaderIe, elements);
    // inside it, the ranging descriptor IE alone
    payload_ie::law_short_nested_roundtrip(rd_ie::SUB_ID, body, e);
    assert(nested + e =~= nested);
    assert(ShortIeHeader::from_view(((rd_ie::SUB_ID as u16) << 8) | (body.len() as u16)).spec_serialize() + body + e
        =~= nested);
    assert(spec_mlme_next(nested) == (
        Some(Ok::<SpecNested, ()>(SpecNested::Short { sub_id: rd_ie::SUB_ID, payload: body })),
        e,
    ));
    let second = spec_flatten_next(ParserState::PayloadIe, e, Some(nested));
    assert(second == (
        Some(Ok::<SpecFlattenContent, ContentError>(SpecFlattenContent::ShortNestedIe { sub_id: rd_ie::SUB_ID, payload: body })),
        ParserState::PayloadIe,
        e,
        Some(e),
    ));
    assert(spec_content_next(ParserState::PayloadIe, mlme + e) == (
        Some(Ok::<SpecContent, ContentError>(SpecContent::PayloadIe { group_id: payload_ie::MLME_GROUP_ID, payload: nested })),
        ParserState::PayloadIe,
        e,
    ));
    assert(spec_flatten_next(ParserState::HeaderIe, elements, None) == second);
    assert(spec_mlme_next(e) == (None::<Result<SpecNested, ()>>, e));
    assert(spec_content_step(ParserState::PayloadIe, e) == (Ok::<Option<SpecContent>, ContentError>(None), ParserState::PayloadIe, e));
    assert(spec_content_next(ParserState::PayloadIe, e).0 is None);
    assert(spec_flatten_next(ParserState::PayloadIe, e, None).0 is None);
    assert(spec_flatten_next(ParserState::PayloadIe, e, Some(e)) == spec_flatten_next(ParserState::PayloadIe, e, None));
    // and the descriptor parses back
    rd_ie::law_rd_roundtrip(rbs_duration, beacon_interval, first_slot, entries, e);
    assert(body + e =~= body);
}
} // verus!

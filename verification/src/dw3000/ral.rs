//! Register access layer: registers as typed values with bit fields, and
//! accessors that read and write them through an [`Interface`].
use vstd::prelude::*;
use core::marker::PhantomData;
use crate::dw3000::interface::{Bus, BusOp, BusRequest, FileId, FullAddress, Interface, MAX_OFFSET, spec_fits, spec_full_address, spec_register_width};

pub mod regs;

verus! {

/// Bits `start..end` of a 64-bit word.
pub open spec fn spec_mask(start: u64, end: u64) -> u64 {
    (u64::MAX >> ((64 - (end - start)) as u64)) << start
}

/// The field in bits `start..end` of `raw`, moved down to bit 0.
pub open spec fn spec_field(raw: u64, start: u64, end: u64) -> u64 {
    (raw & spec_mask(start, end)) >> start
}

/// `raw` with bits `start..end` replaced by the low bits of `value`.
pub open spec fn spec_with_field(raw: u64, start: u64, end: u64, value: u64) -> u64 {
    (raw & !spec_mask(start, end)) | ((value << start) & spec_mask(start, end))
}

/// Bit `offset` of `raw`.
pub open spec fn spec_bit(raw: u64, offset: u64) -> bool {
    (raw >> offset) & 1 != 0
}

/// `raw` with bit `offset` set to `value`.
pub open spec fn spec_with_bit(raw: u64, offset: u64, value: bool) -> u64 {
    (raw & !(1u64 << offset)) | ((if value { 1u64 } else { 0u64 }) << offset)
}

/// Reads the field in bits `start..end`.
pub fn field(raw: u64, start: u32, end: u32) -> (r: u64)
    requires
        start < end <= 64,
    ensures
        r == spec_field(raw, start as u64, end as u64),
{
    let s = start as u64;
    let e = end as u64;
    let mask = (u64::MAX >> (64 - (e - s))) << s;
    (raw & mask) >> s
}

/// Writes the low bits of `value` into bits `start..end`.
pub fn with_field(raw: u64, start: u32, end: u32, value: u64) -> (r: u64)
    requires
        start < end <= 64,
    ensures
        r == spec_with_field(raw, start as u64, end as u64, value),
{
    let s = start as u64;
    let e = end as u64;
    let mask = (u64::MAX >> (64 - (e - s))) << s;
    (raw & !mask) | ((value << s) & mask)
}

pub fn bit(raw: u64, offset: u32) -> (r: bool)
    requires
        offset < 64,
    ensures
        r == spec_bit(raw, offset as u64),
{
    (raw >> (offset as u64)) & 1 != 0
}

pub fn with_bit(raw: u64, offset: u32, value: bool) -> (r: u64)
    requires
        offset < 64,
    ensures
        r == spec_with_bit(raw, offset as u64, value),
{
    let o = offset as u64;
    let b: u64 = if value { 1 } else { 0 };
    (raw & !(1u64 << o)) | (b << o)
}

/// A field reads back the low bits of what was written to it.
pub proof fn law_field_roundtrip(raw: u64, start: u64, end: u64, value: u64)
    requires
        start < end <= 64,
    ensures
        spec_field(spec_with_field(raw, start, end, value), start, end) == value & (u64::MAX >> (((64 - (end - start)) as u64) as u64)),
{
    assert(start < end <= 64 ==> ((((raw & !((u64::MAX >> ((64 - (end - start)) as u64)) << start)) | ((value << start) & ((
    u64::MAX >> ((64 - (end - start)) as u64)) << start))) & ((u64::MAX >> ((64 - (end - start)) as u64)) << start)) >> start)
        == value & (u64::MAX >> ((64 - (end - start)) as u64))) by (bit_vector);
}

/// Writing a field leaves the bits outside it as they were.
pub proof fn law_field_frame(raw: u64, start: u64, end: u64, value: u64, i: u64)
    requires
        start < end <= 64,
        i < 64,
        i < start || end <= i,
    ensures
        spec_bit(spec_with_field(raw, start, end, value), i) == spec_bit(raw, i),
{
    assert(start < end <= 64 && i < 64 && (i < start || end <= i) ==> ((((raw & !((u64::MAX >> ((64 - (end - start)) as u64)) << start)) | ((value << start) & ((u64::MAX >> ((64 - (end - start)) as u64)) << start))) >> i) & 1
        != 0) == ((raw >> i) & 1 != 0)) by (bit_vector);
}

/// A bit reads back what was written to it, and the other bits stay.
pub proof fn law_bit_roundtrip(raw: u64, offset: u64, value: bool, i: u64)
    requires
        offset < 64,
        i < 64,
    ensures
        spec_bit(spec_with_bit(raw, offset, value), offset) == value,
        i != offset ==> spec_bit(spec_with_bit(raw, offset, value), i) == spec_bit(raw, i),
{
    let b: u64 = if value { 1 } else { 0 };
    assert(offset < 64 && i < 64 && b <= 1 ==> ((((((raw & !(1u64 << offset)) | (b << offset)) >> offset) & 1 != 0)
        == (b != 0)) && (i != offset ==> ((((raw & !(1u64 << offset)) | (b << offset)) >> i) & 1 != 0) == ((raw >> i)
        & 1 != 0)))) by (bit_vector);
}

/// Writing a field that ends within the low `width` bits keeps a value that
/// fits in `width` bits fitting.
pub proof fn law_field_keeps_width(raw: u64, start: u64, end: u64, value: u64, width: u64)
    requires
        start < end <= width,
        width < 64,
        raw >> width == 0,
    ensures
        spec_with_field(raw, start, end, value) >> width == 0,
{
    assert(start < end && end <= width && width < 64 && raw >> width == 0 ==> ((raw & !((u64::MAX >> ((64 - (end - start)) as u64)) << start)) | ((value << start) & ((u64::MAX >> ((64 - (end - start)) as u64)) << start))) >> width == 0)
        by (bit_vector);
}

/// Error of a register access.
pub enum Error<IF: Interface> {
    Interface(IF::Error),
}

/// A register: its address and length in octets.
pub trait Register {
    spec fn spec_address() -> u16;

    spec fn spec_length() -> nat;

    fn address() -> (r: FullAddress)
        ensures
            r@ == Self::spec_address(),
    ;

    fn length() -> (r: usize)
        ensures
            r == Self::spec_length(),
            1 <= r <= 8,
    ;
}

/// A register value made from the raw value read.
pub trait FromRaw: Sized {
    spec fn spec_from_raw(value: u64) -> Self;

    fn from_raw(value: u64) -> (r: Self)
        ensures
            r == Self::spec_from_raw(value),
    ;
}

/// The raw value a register value is written as.
pub trait ToRaw: Sized {
    spec fn spec_to_raw(self) -> u64;

    fn to_raw(self) -> (r: u64)
        ensures
            r == self.spec_to_raw(),
    ;
}

/// A register with bit fields held in an integer of its width.
pub trait FieldAccess: Register {
    type BaseType;
}

/// The register can be read.
pub trait Read {

}

/// The register has bits that are cleared by writing ones.
pub trait Clear {

}

/// The register can be written.
pub trait Write {

}

/// `new` is `old` with one more operation at the end.
pub open spec fn spec_appended(old: Seq<BusOp>, new: Seq<BusOp>, op: BusOp) -> bool {
    new == old.push(op)
}

/// `new` is `old` with a read of `length` octets at `address` at the end; the
/// value read is `spec_last_read(new)`.
pub open spec fn spec_read_appended(old: Seq<BusOp>, new: Seq<BusOp>, address: u16, length: nat) -> bool {
    &&& new.len() == old.len() + 1
    &&& new.subrange(0, old.len() as int) == old
    &&& new.last() matches BusOp::ReadRegister { address: a, length: l, value } && a == address && l == length
        && spec_fits(value, spec_register_width(length))
}

/// The value of the last register read in `log`.
pub open spec fn spec_last_read(log: Seq<BusOp>) -> u64 {
    match log.last() {
        BusOp::ReadRegister { value, .. } => value,
        _ => 0,
    }
}

/// Reads and writes of one register type.
pub struct Accessor<T> {
    phantom: PhantomData<T>,
}

impl<T: Register> Accessor<T> {
    pub fn new() -> (r: Self) {
        Accessor { phantom: PhantomData }
    }

    /// The raw value of the register.
    pub fn read_bytes<IF: Interface>(&self, interface: &mut Bus<IF>) -> (r: Result<u64, Error<IF>>)
        where T: Read,
        ensures
            final(interface).spec_requests() == old(interface).spec_requests().push(spec_read_request::<T>()),
            r is Err ==> final(interface).spec_log() == old(interface).spec_log(),
            r matches Ok(v) ==> spec_read_appended(
                old(interface).spec_log(),
                final(interface).spec_log(),
                T::spec_address(),
                T::spec_length(),
            ) && v == spec_last_read(final(interface).spec_log()),
    {
        let ghost log0 = interface.spec_log();
        let r = interface.read_register(T::address(), T::length());
        proof {
            if r is Ok {
                assert(interface.spec_log().subrange(0, log0.len() as int) =~= log0);
            }
        }
        match r {
            Ok(v) => Ok(v),
            Err(e) => Err(Error::Interface(e)),
        }
    }

    /// Writes a raw value.
    pub fn write_bytes<IF: Interface>(&self, interface: &mut Bus<IF>, value: u64) -> (r: Result<(), Error<IF>>)
        where T: Write,
        ensures
            final(interface).spec_requests() == old(interface).spec_requests().push(spec_write_request::<T>(value)),
            r is Err ==> final(interface).spec_log() == old(interface).spec_log(),
            r is Ok ==> spec_appended(
                old(interface).spec_log(),
                final(interface).spec_log(),
                BusOp::WriteRegister { address: T::spec_address(), length: T::spec_length(), value },
            ),
    {
        match interface.write_register(T::address(), value, T::length()) {
            Ok(()) => Ok(()),
            Err(e) => Err(Error::Interface(e)),
        }
    }

    /// Clears the event bits that are set in `value`.
    pub fn clear_bytes<IF: Interface>(&self, interface: &mut Bus<IF>, value: u64) -> (r: Result<(), Error<IF>>)
        where T: Clear,
        ensures
            final(interface).spec_requests() == old(interface).spec_requests().push(spec_write_request::<T>(value)),
            r is Err ==> final(interface).spec_log() == old(interface).spec_log(),
            r is Ok ==> spec_appended(
                old(interface).spec_log(),
                final(interface).spec_log(),
                BusOp::WriteRegister { address: T::spec_address(), length: T::spec_length(), value },
            ),
    {
        match interface.write_register(T::address(), value, T::length()) {
            Ok(()) => Ok(()),
            Err(e) => Err(Error::Interface(e)),
        }
    }

    pub fn read<IF: Interface>(&self, interface: &mut Bus<IF>) -> (r: Result<T, Error<IF>>)
        where T: Read + FromRaw,
        ensures
            final(interface).spec_requests() == old(interface).spec_requests().push(spec_read_request::<T>()),
            r is Err ==> final(interface).spec_log() == old(interface).spec_log(),
            r matches Ok(v) ==> spec_read_appended(
                old(interface).spec_log(),
                final(interface).spec_log(),
                T::spec_address(),
                T::spec_length(),
            ) && v == T::spec_from_raw(spec_last_read(final(interface).spec_log())),
    {
        let ghost log0 = interface.spec_log();
        let r = interface.read_register(T::address(), T::length());
        proof {
            if r is Ok {
                assert(interface.spec_log().subrange(0, log0.len() as int) =~= log0);
            }
        }
        match r {
            Ok(v) => Ok(T::from_raw(v)),
            Err(e) => Err(Error::Interface(e)),
        }
    }

    pub fn clear_value<IF: Interface>(&self, interface: &mut Bus<IF>, value: T) -> (r: Result<(), Error<IF>>)
        where T: Clear + ToRaw,
        ensures
            final(interface).spec_requests() == old(interface).spec_requests().push(spec_write_request::<T>(value.spec_to_raw())),
            r is Err ==> final(interface).spec_log() == old(interface).spec_log(),
            r is Ok ==> spec_appended(
                old(interface).spec_log(),
                final(interface).spec_log(),
                BusOp::WriteRegister {
                    address: T::spec_address(),
                    length: T::spec_length(),
                    value: value.spec_to_raw(),
                },
            ),
    {
        match interface.write_register(T::address(), value.to_raw(), T::length()) {
            Ok(()) => Ok(()),
            Err(e) => Err(Error::Interface(e)),
        }
    }

    pub fn write_value<IF: Interface>(&self, interface: &mut Bus<IF>, value: T) -> (r: Result<(), Error<IF>>)
        where T: Write + ToRaw,
        ensures
            final(interface).spec_requests() == old(interface).spec_requests().push(spec_write_request::<T>(value.spec_to_raw())),
            r is Err ==> final(interface).spec_log() == old(interface).spec_log(),
            r is Ok ==> spec_appended(
                old(interface).spec_log(),
                final(interface).spec_log(),
                BusOp::WriteRegister {
                    address: T::spec_address(),
                    length: T::spec_length(),
                    value: value.spec_to_raw(),
                },
            ),
    {
        match interface.write_register(T::address(), value.to_raw(), T::length()) {
            Ok(()) => Ok(()),
            Err(e) => Err(Error::Interface(e)),
        }
    }
}

impl<T: Register + Write + ToRaw> Accessor<T> {
    /// Writes the register with the value `f` makes of its power-on value.
    pub fn write<IF: Interface, F: FnOnce(T) -> T>(&self, interface: &mut Bus<IF>, f: F) -> (r: Result<(), Error<IF>>)
        where T: Default,
        requires
            forall|v: T| call_requires(f, (v,)),
        ensures
            exists|d: T, w: T|
                #![trigger call_ensures(f, (d,), w)]
                {
                    &&& call_ensures(T::default, (), d)
                    &&& call_ensures(f, (d,), w)
                    &&& final(interface).spec_requests() == old(interface).spec_requests().push(
                        spec_write_request::<T>(w.spec_to_raw()),
                    )
                    &&& r is Ok ==> spec_appended(
                        old(interface).spec_log(),
                        final(interface).spec_log(),
                        BusOp::WriteRegister {
                            address: T::spec_address(),
                            length: T::spec_length(),
                            value: w.spec_to_raw(),
                        },
                    )
                    &&& r is Err ==> final(interface).spec_log() == old(interface).spec_log()
                },
    {
        let d = T::default();
        let w = f(d);
        self.write_value(interface, w)
    }

    /// Reads the register, and writes back the value `f` makes of it.
    pub fn modify<IF: Interface, F: FnOnce(T) -> T>(&self, interface: &mut Bus<IF>, f: F) -> (r: Result<(), Error<IF>>)
        where T: Read + FromRaw,
        requires
            forall|v: T| call_requires(f, (v,)),
        ensures
            ({
                let old_req = old(interface).spec_requests();
                let req = final(interface).spec_requests();
                let old_log = old(interface).spec_log();
                let log = final(interface).spec_log();
                let read_ok = log.len() > old_log.len();
                &&& req.len() == old_req.len() + if read_ok {
                    2int
                } else {
                    1int
                }
                &&& req.subrange(0, old_req.len() + 1int) == old_req.push(spec_read_request::<T>())
                &&& !read_ok ==> r is Err && log == old_log
                &&& read_ok ==> {
                    let raw = spec_read_at(log, old_log.len() as int);
                    &&& log.subrange(0, old_log.len() as int) == old_log
                    &&& log[old_log.len() as int] == BusOp::ReadRegister {
                        address: T::spec_address(),
                        length: T::spec_length(),
                        value: raw,
                    }
                    &&& exists|w: T|
                        #![trigger call_ensures(f, (T::spec_from_raw(raw),), w)]
                        {
                            &&& call_ensures(f, (T::spec_from_raw(raw),), w)
                            &&& req.last() == spec_write_request::<T>(w.spec_to_raw())
                            &&& r is Ok ==> log.len() == old_log.len() + 2 && log.last()
                                == BusOp::WriteRegister {
                                address: T::spec_address(),
                                length: T::spec_length(),
                                value: w.spec_to_raw(),
                            }
                            &&& r is Err ==> log.len() == old_log.len() + 1
                        }
                }
            }),
            r is Ok ==> {
                let old_log = old(interface).spec_log();
                let log = final(interface).spec_log();
                let raw = spec_read_at(log, old_log.len() as int);
                &&& log.len() == old_log.len() + 2
                &&& log.subrange(0, old_log.len() as int) == old_log
                &&& log[old_log.len() as int] == BusOp::ReadRegister {
                    address: T::spec_address(),
                    length: T::spec_length(),
                    value: raw,
                }
                &&& exists|w: T|
                    #![trigger call_ensures(f, (T::spec_from_raw(raw),), w)]
                    call_ensures(f, (T::spec_from_raw(raw),), w) && log.last() == BusOp::WriteRegister {
                        address: T::spec_address(),
                        length: T::spec_length(),
                        value: w.spec_to_raw(),
                    }
            },
    {
        let ghost log0 = interface.spec_log();
        let ghost req0 = interface.spec_requests();
        let v = match self.read(interface) {
            Ok(v) => v,
            Err(e) => {
                assert(interface.spec_requests() =~= req0.push(spec_read_request::<T>()));
                return Err(e);
            },
        };
        let ghost log1 = interface.spec_log();
        let ghost req1 = interface.spec_requests();
        let ghost raw = spec_last_read(log1);
        let w = f(v);
        let r = self.write_value(interface, w);
        proof {
            assert(interface.spec_requests().subrange(0, req0.len() + 1int) =~= req1);
            assert(log1[log0.len() as int] == log1.last());
            if r is Err {
                assert(interface.spec_log().subrange(0, log0.len() as int) =~= log0);
            }
            if r is Ok {
                let log = interface.spec_log();
                assert(log.subrange(0, log0.len() as int) =~= log0) by {
                    assert(log1.subrange(0, log0.len() as int) =~= log0);
                    assert forall|i: int| 0 <= i < log0.len() implies log[i] == log1[i] by {
                        assert(log.subrange(0, log1.len() as int) == log1);
                    }
                }
                assert(log[log0.len() as int] == log1.last());
                assert(spec_read_at(log, log0.len() as int) == raw);
            }
        }
        r
    }
}

/// The request to read register `T`.
pub open spec fn spec_read_request<T: Register>() -> BusRequest {
    BusRequest::ReadRegister { address: T::spec_address(), length: T::spec_length() }
}

/// The request to write `value` to register `T`.
pub open spec fn spec_write_request<T: Register>(value: u64) -> BusRequest {
    BusRequest::WriteRegister { address: T::spec_address(), length: T::spec_length(), value }
}

/// The value of the register read at position `i` of `log`.
pub open spec fn spec_read_at(log: Seq<BusOp>, i: int) -> u64 {
    match log[i] {
        BusOp::ReadRegister { value, .. } => value,
        _ => 0,
    }
}

/// A register file, or a part of one, accessed as octets.
pub trait File {
    spec fn spec_file_id() -> u8;

    spec fn spec_offset() -> u8;

    spec fn spec_length() -> nat;

    fn file_id() -> (r: FileId)
        ensures
            r@ == Self::spec_file_id(),
    ;

    fn offset() -> (r: u8)
        ensures
            r == Self::spec_offset(),
            r <= MAX_OFFSET,
    ;

    fn length() -> (r: usize)
        ensures
            r == Self::spec_length(),
    ;
}

/// A file that starts at offset zero and can be accessed with the short
/// header.
pub trait ZeroOffsetFile: File {

}

/// Reads and writes of one register file.
pub struct FileAccessor<T> {
    phantom: PhantomData<T>,
}

impl<T: File> FileAccessor<T> {
    pub fn new() -> (r: Self) {
        FileAccessor { phantom: PhantomData }
    }

    /// Reads `data.len()` octets from `offset` on.
    pub fn read<IF: Interface>(&self, interface: &mut Bus<IF>, offset: u8, data: &mut [u8]) -> (r: Result<(), Error<IF>>)
        where T: Read,
        requires
            old(data)@.len() <= T::spec_length(),
            T::spec_offset() + offset <= MAX_OFFSET,
        ensures
            final(interface).spec_requests() == old(interface).spec_requests().push(BusRequest::Read { address: spec_full_address(T::spec_file_id(), (T::spec_offset() + offset) as u8), length: old(data)@.len() }),
            r is Err ==> final(interface).spec_log() == old(interface).spec_log(),
            final(data)@.len() == old(data)@.len(),
            r is Ok ==> spec_appended(
                old(interface).spec_log(),
                final(interface).spec_log(),
                BusOp::Read {
                    address: spec_full_address(T::spec_file_id(), (T::spec_offset() + offset) as u8),
                    data: final(data)@,
                },
            ),
    {
        let addr = FullAddress::new(T::file_id(), T::offset() + offset);
        match interface.read(addr, data) {
            Ok(()) => Ok(()),
            Err(e) => Err(Error::Interface(e)),
        }
    }

    /// Writes `data` from `offset` on.
    pub fn write<IF: Interface>(&self, interface: &mut Bus<IF>, offset: u8, data: &[u8]) -> (r: Result<(), Error<IF>>)
        where T: Write,
        requires
            data@.len() <= T::spec_length(),
            T::spec_offset() + offset <= MAX_OFFSET,
        ensures
            final(interface).spec_requests() == old(interface).spec_requests().push(BusRequest::Write { address: spec_full_address(T::spec_file_id(), (T::spec_offset() + offset) as u8), data: data@ }),
            r is Err ==> final(interface).spec_log() == old(interface).spec_log(),
            r is Ok ==> spec_appended(
                old(interface).spec_log(),
                final(interface).spec_log(),
                BusOp::Write {
                    address: spec_full_address(T::spec_file_id(), (T::spec_offset() + offset) as u8),
                    data: data@,
                },
            ),
    {
        let addr = FullAddress::new(T::file_id(), T::offset() + offset);
        match interface.write(addr, data) {
            Ok(()) => Ok(()),
            Err(e) => Err(Error::Interface(e)),
        }
    }

    /// Reads the first `data.len()` octets with the short header.
    pub fn read_fast<IF: Interface>(&self, interface: &mut Bus<IF>, data: &mut [u8]) -> (r: Result<(), Error<IF>>)
        where T: ZeroOffsetFile + Read,
        requires
            old(data)@.len() <= T::spec_length(),
        ensures
            final(interface).spec_requests() == old(interface).spec_requests().push(BusRequest::ReadFast { file_id: T::spec_file_id(), length: old(data)@.len() }),
            r is Err ==> final(interface).spec_log() == old(interface).spec_log(),
            final(data)@.len() == old(data)@.len(),
            r is Ok ==> spec_appended(
                old(interface).spec_log(),
                final(interface).spec_log(),
                BusOp::ReadFast { file_id: T::spec_file_id(), data: final(data)@ },
            ),
    {
        match interface.read_fast(T::file_id(), data) {
            Ok(()) => Ok(()),
            Err(e) => Err(Error::Interface(e)),
        }
    }

    /// Writes `data` at the start with the short header.
    pub fn write_fast<IF: Interface>(&self, interface: &mut Bus<IF>, data: &[u8]) -> (r: Result<(), Error<IF>>)
        where T: ZeroOffsetFile + Write,
        requires
            data@.len() <= T::spec_length(),
        ensures
            final(interface).spec_requests() == old(interface).spec_requests().push(BusRequest::WriteFast { file_id: T::spec_file_id(), data: data@ }),
            r is Err ==> final(interface).spec_log() == old(interface).spec_log(),
            r is Ok ==> spec_appended(
                old(interface).spec_log(),
                final(interface).spec_log(),
                BusOp::WriteFast { file_id: T::spec_file_id(), data: data@ },
            ),
    {
        match interface.write_fast(T::file_id(), data) {
            Ok(()) => Ok(()),
            Err(e) => Err(Error::Interface(e)),
        }
    }
}

} // verus!

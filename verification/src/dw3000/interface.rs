//! Host interface of the DW3000: register addressing, the SPI transaction
//! headers and payloads, and the operations a bus implementation offers.
use vstd::prelude::*;
use vstd::arithmetic::div_mod::lemma_breakdown;
use vstd::arithmetic::power::pow;
use vstd::std_specs::convert::FromSpecImpl;

verus! {

pub const MAX_FILE_ID: u8 = 0x1f;

pub const MAX_COMMAND: u8 = 0x1f;

pub const MAX_OFFSET: u8 = 0x7f;

/// Register file of the device, 0..=0x1f.
#[derive(Clone, Copy, Eq, PartialEq, Structural, Debug)]
pub struct FileId(u8);

impl View for FileId {
    type V = u8;

    closed spec fn view(&self) -> u8 {
        self.0
    }
}

impl FileId {
    pub fn new(file_id: u8) -> (r: Self)
        requires
            file_id <= MAX_FILE_ID,
        ensures
            r@ == file_id,
    {
        Self(file_id)
    }

    pub fn as_u8(self) -> (r: u8)
        ensures
            r == self@,
            r <= MAX_FILE_ID,
    {
        proof { use_type_invariant(&self); }
        self.0
    }

    #[verifier::type_invariant]
    spec fn valid(self) -> bool {
        self.0 <= MAX_FILE_ID
    }
}

impl From<FileId> for u8 {
    fn from(value: FileId) -> (r: u8) {
        value.as_u8()
    }
}

impl FromSpecImpl<FileId> for u8 {
    open spec fn obeys_from_spec() -> bool {
        true
    }

    open spec fn from_spec(v: FileId) -> u8 {
        v@
    }
}

/// The 16-bit address field of a full-address transaction: file ID in bits
/// 9..=13, offset in bits 2..=8.
pub open spec fn spec_full_address(file_id: u8, offset: u8) -> u16 {
    ((file_id as u16) << 9) | ((offset as u16) << 2)
}

/// A register file and an offset in it.
#[derive(Clone, Copy, Eq, PartialEq, Structural, Debug)]
pub struct FullAddress(u16);

impl View for FullAddress {
    type V = u16;

    closed spec fn view(&self) -> u16 {
        self.0
    }
}

impl FullAddress {
    pub fn new(file_id: FileId, offset: u8) -> (r: Self)
        requires
            offset <= MAX_OFFSET,
        ensures
            r@ == spec_full_address(file_id@, offset),
    {
        let f = file_id.as_u8();
        proof {
            assert(f <= 0x1f && offset <= 0x7f ==> ((f as u16) << 9) | ((offset as u16) << 2) <= 0x3ffc)
                by (bit_vector);
        }
        Self(((f as u16) << 9) | ((offset as u16) << 2))
    }

    pub fn as_u16(self) -> (r: u16)
        ensures
            r == self@,
            r <= 0x3ffc,
    {
        proof { use_type_invariant(&self); }
        self.0
    }

    #[verifier::type_invariant]
    spec fn valid(self) -> bool {
        self.0 <= 0x3ffc
    }
}

pub const SHORT_COMMAND: u8 = 0b1000_0001;

pub const SHORT_READ: u8 = 0b0000_0000;

pub const SHORT_WRITE: u8 = 0b1000_0000;

pub const FULL_READ: u16 = 0b0100_0000_0000_0000;

pub const FULL_WRITE: u16 = 0b1100_0000_0000_0000;

pub const FULL_MODIFY_1: u16 = 0b1100_0000_0000_0001;

pub const FULL_MODIFY_2: u16 = 0b1100_0000_0000_0010;

pub const FULL_MODIFY_4: u16 = 0b1100_0000_0000_0011;

/// Octets of `value`, most significant first.
pub open spec fn spec_be16(value: u16) -> Seq<u8> {
    seq![(value >> 8) as u8, (value & 0xff) as u8]
}

/// The `n` least significant octets of `value`, least significant first.
pub open spec fn spec_le_bytes(value: nat, n: nat) -> Seq<u8>
    decreases n,
{
    if n == 0 {
        Seq::empty()
    } else {
        seq![(value % 256) as u8] + spec_le_bytes(value / 256, (n - 1) as nat)
    }
}

/// The number whose octets are `bytes`, least significant first.
pub open spec fn spec_le_value(bytes: Seq<u8>) -> nat
    decreases bytes.len(),
{
    if bytes.len() == 0 {
        0
    } else {
        bytes[0] as nat + 256 * spec_le_value(bytes.subrange(1, bytes.len() as int))
    }
}

/// Decoding the `n` low octets of a value gives the value modulo `256^n`.
pub proof fn law_le_roundtrip(value: nat, n: nat)
    ensures
        spec_le_bytes(value, n).len() == n,
        spec_le_value(spec_le_bytes(value, n)) == value % (pow(256, n) as nat),
    decreases n,
{
    reveal_with_fuel(pow, 2);
    if n == 0 {
    } else {
        law_le_roundtrip(value / 256, (n - 1) as nat);
        let s = spec_le_bytes(value, n);
        let rest = spec_le_bytes(value / 256, (n - 1) as nat);
        assert(s.subrange(1, s.len() as int) =~= rest);
        vstd::arithmetic::power::lemma_pow_positive(256, (n - 1) as nat);
        lemma_breakdown(value as int, 256, pow(256, (n - 1) as nat));
    }
}

/// Single-octet header of a fast command.
pub fn command_header(command: u8) -> (r: u8)
    requires
        command <= MAX_COMMAND,
    ensures
        r == SHORT_COMMAND | (command << 1),
{
    SHORT_COMMAND | (command << 1)
}

/// Single-octet header of a read of a whole register file.
pub fn fast_read_header(file_id: FileId) -> (r: u8)
    ensures
        r == SHORT_READ | (file_id@ << 1),
{
    SHORT_READ | (file_id.as_u8() << 1)
}

/// Single-octet header of a write of a whole register file.
pub fn fast_write_header(file_id: FileId) -> (r: u8)
    ensures
        r == SHORT_WRITE | (file_id@ << 1),
{
    SHORT_WRITE | (file_id.as_u8() << 1)
}

fn be16(value: u16) -> (r: Vec<u8>)
    ensures
        r@ == spec_be16(value),
{
    let mut r = Vec::new();
    r.push((value >> 8) as u8);
    r.push((value & 0xff) as u8);
    r
}

/// Header of a full-address read.
pub fn full_read_header(addr: FullAddress) -> (r: Vec<u8>)
    ensures
        r@ == spec_be16(FULL_READ | addr@),
{
    be16(FULL_READ | addr.as_u16())
}

/// Header of a full-address write.
pub fn full_write_header(addr: FullAddress) -> (r: Vec<u8>)
    ensures
        r@ == spec_be16(FULL_WRITE | addr@),
{
    be16(FULL_WRITE | addr.as_u16())
}

/// Appends the `n` low octets of `value`, least significant first.
fn push_le_bytes(out: &mut Vec<u8>, value: u64, n: usize)
    requires
        n <= 8,
    ensures
        final(out)@ == old(out)@ + spec_le_bytes(value as nat, n as nat),
{
    let mut v = value;
    let mut i: usize = 0;
    while i < n
        invariant
            i <= n,
            out@ + spec_le_bytes(v as nat, (n - i) as nat) == old(out)@ + spec_le_bytes(value as nat, n as nat),
        decreases n - i,
    {
        let ghost before = out@;
        out.push((v % 256) as u8);
        proof {
            assert(spec_le_bytes(v as nat, (n - i) as nat) == seq![(v % 256) as u8] + spec_le_bytes(
                (v / 256) as nat,
                (n - i - 1) as nat,
            ));
            assert(before + spec_le_bytes(v as nat, (n - i) as nat) =~= out@ + spec_le_bytes(
                (v / 256) as nat,
                (n - i - 1) as nat,
            ));
        }
        v = v / 256;
        i = i + 1;
    }
    proof {
        assert(out@ + spec_le_bytes(v as nat, 0) =~= out@);
    }
}

/// The octets sent to read a register of `length` octets: the header, then
/// one filler octet for each octet to be clocked in.
pub fn register_read_frame(addr: FullAddress, length: usize) -> (r: Vec<u8>)
    requires
        length <= 8,
    ensures
        r@ == spec_be16(FULL_READ | addr@) + Seq::new(length as nat, |i: int| 0u8),
{
    let mut r = full_read_header(addr);
    let ghost h = r@;
    let mut i: usize = 0;
    while i < length
        invariant
            i <= length,
            r@ == h + Seq::new(i as nat, |j: int| 0u8),
        decreases length - i,
    {
        r.push(0);
        i = i + 1;
        assert(r@ =~= h + Seq::new(i as nat, |j: int| 0u8));
    }
    r
}

/// The register value clocked in by a read frame: the octets after the two
/// header octets, least significant first.
pub fn register_value(frame: &[u8]) -> (r: u64)
    requires
        2 <= frame@.len() <= 10,
    ensures
        r == spec_le_value(frame@.subrange(2, frame@.len() as int)),
{
    let n = frame.len();
    let mut v: u64 = 0;
    let mut i: usize = n;
    proof {
        assert(frame@.subrange(n as int, n as int) =~= Seq::<u8>::empty());
        assert(pow(256, 0) == 1) by {
            reveal_with_fuel(pow, 1);
        }
    }
    while i > 2
        invariant
            2 <= i <= n,
            n == frame@.len(),
            n <= 10,
            v == spec_le_value(frame@.subrange(i as int, n as int)),
            v < pow(256, (n - i) as nat),
        decreases i,
    {
        let ghost tail = frame@.subrange(i as int, n as int);
        i = i - 1;
        proof {
            let s = frame@.subrange(i as int, n as int);
            assert(s.subrange(1, s.len() as int) =~= tail);
            assert(pow(256, (n - i) as nat) == 256 * pow(256, (n - i - 1) as nat)) by {
                reveal_with_fuel(pow, 2);
            }
            assert(pow(256, 8) == 0x1_0000_0000_0000_0000) by {
                reveal_with_fuel(pow, 9);
            }
            vstd::arithmetic::power::lemma_pow_increases(256, (n - i) as nat, 8);
        }
        v = v * 256 + frame[i] as u64;
    }
    v
}

/// The octets sent to write a register: the header, then the `length` low
/// octets of the value, least significant first.
pub fn register_write_frame(addr: FullAddress, value: u64, length: usize) -> (r: Vec<u8>)
    requires
        length <= 8,
    ensures
        r@ == spec_be16(FULL_WRITE | addr@) + spec_le_bytes(value as nat, length as nat),
{
    let mut r = full_write_header(addr);
    push_le_bytes(&mut r, value, length);
    r
}

/// The octets sent to AND then OR an octet of a register.
pub fn modify_1_frame(addr: FullAddress, and_mask: u8, or_mask: u8) -> (r: Vec<u8>)
    ensures
        r@ == spec_be16(FULL_MODIFY_1 | addr@) + seq![and_mask, or_mask],
{
    let mut r = be16(FULL_MODIFY_1 | addr.as_u16());
    r.push(and_mask);
    r.push(or_mask);
    r
}

/// The octets sent to AND then OR two octets of a register.
pub fn modify_2_frame(addr: FullAddress, and_mask: u16, or_mask: u16) -> (r: Vec<u8>)
    ensures
        r@ == spec_be16(FULL_MODIFY_2 | addr@) + spec_le_bytes(and_mask as nat, 2) + spec_le_bytes(
            or_mask as nat,
            2,
        ),
{
    let mut r = be16(FULL_MODIFY_2 | addr.as_u16());
    push_le_bytes(&mut r, and_mask as u64, 2);
    push_le_bytes(&mut r, or_mask as u64, 2);
    r
}

/// The octets sent to AND then OR four octets of a register.
pub fn modify_4_frame(addr: FullAddress, and_mask: u32, or_mask: u32) -> (r: Vec<u8>)
    ensures
        r@ == spec_be16(FULL_MODIFY_4 | addr@) + spec_le_bytes(and_mask as nat, 4) + spec_le_bytes(
            or_mask as nat,
            4,
        ),
{
    let mut r = be16(FULL_MODIFY_4 | addr.as_u16());
    push_le_bytes(&mut r, and_mask as u64, 4);
    push_le_bytes(&mut r, or_mask as u64, 4);
    r
}

/// One operation on the device, as the driver sees it.
pub enum BusOp {
    /// Reset line driven (`true`) or released (`false`).
    Reset(bool),
    /// Level of the interrupt line, as read.
    Irq(bool),
    WakeUp,
    Command(u8),
    ReadFast { file_id: u8, data: Seq<u8> },
    WriteFast { file_id: u8, data: Seq<u8> },
    Read { address: u16, data: Seq<u8> },
    Write { address: u16, data: Seq<u8> },
    ReadRegister { address: u16, length: nat, value: u64 },
    WriteRegister { address: u16, length: nat, value: u64 },
    Modify { address: u16, length: nat, and_mask: u64, or_mask: u64 },
}

/// One operation handed to the interface, whatever came of it: what was
/// asked of the device, without what a read gave back.
pub enum BusRequest {
    Reset(bool),
    Irq,
    WakeUp,
    Command(u8),
    ReadFast { file_id: u8, length: nat },
    WriteFast { file_id: u8, data: Seq<u8> },
    Read { address: u16, length: nat },
    Write { address: u16, data: Seq<u8> },
    ReadRegister { address: u16, length: nat },
    WriteRegister { address: u16, length: nat, value: u64 },
    Modify { address: u16, length: nat, and_mask: u64, or_mask: u64 },
}

/// Whether `value` fits in `length` octets.
pub open spec fn spec_fits(value: u64, length: nat) -> bool {
    length >= 8 || (value as nat) < pow(256, length)
}

/// What fitting in one to five octets means for a value.
pub proof fn lemma_fits(value: u64)
    ensures
        spec_fits(value, 1) <==> value < 0x100,
        spec_fits(value, 2) <==> value < 0x1_0000,
        spec_fits(value, 3) <==> value < 0x100_0000,
        spec_fits(value, 4) <==> value < 0x1_0000_0000,
        spec_fits(value, 5) <==> value < 0x100_0000_0000,
{
    reveal_with_fuel(pow, 6);
}

/// Access to a DW3000: its control lines and SPI transactions.
///
/// Implemented by the user of the driver for the board at hand. Nothing is
/// assumed of what an implementation returns beyond its type; a read of a
/// `&mut [u8]` keeps its length, as the type already guarantees.
pub trait Interface {
    type Error;

    fn set_reset(&mut self) -> (r: Result<(), Self::Error>);

    fn clear_reset(&mut self) -> (r: Result<(), Self::Error>);

    fn is_irq(&mut self) -> (r: Result<bool, Self::Error>);

    fn wake_up(&mut self) -> (r: Result<(), Self::Error>);

    fn send_command(&mut self, command: u8) -> (r: Result<(), Self::Error>)
        requires
            command <= MAX_COMMAND,
    ;

    fn read_fast(&mut self, file_id: FileId, data: &mut [u8]) -> (r: Result<(), Self::Error>)
        ensures
            final(data)@.len() == old(data)@.len(),
    ;

    fn write_fast(&mut self, file_id: FileId, data: &[u8]) -> (r: Result<(), Self::Error>);

    fn read(&mut self, addr: FullAddress, data: &mut [u8]) -> (r: Result<(), Self::Error>)
        ensures
            final(data)@.len() == old(data)@.len(),
    ;

    fn write(&mut self, addr: FullAddress, data: &[u8]) -> (r: Result<(), Self::Error>);

    fn read_register(&mut self, addr: FullAddress, length: usize) -> (r: Result<u64, Self::Error>)
        requires
            length <= 8,
    ;

    fn write_register(&mut self, addr: FullAddress, value: u64, length: usize) -> (r: Result<(), Self::Error>)
        requires
            length <= 8,
    ;

    fn modify_1(&mut self, addr: FullAddress, and_mask: u8, or_mask: u8) -> (r: Result<(), Self::Error>);

    fn modify_2(&mut self, addr: FullAddress, and_mask: u16, or_mask: u16) -> (r: Result<(), Self::Error>);

    fn modify_4(&mut self, addr: FullAddress, and_mask: u32, or_mask: u32) -> (r: Result<(), Self::Error>);
}

/// Octets of the integer a register of `length` octets is held in: one,
/// two, four or eight (none for no octets).
pub open spec fn spec_register_width(length: nat) -> nat {
    if length == 0 {
        0
    } else if length <= 1 {
        1
    } else if length <= 2 {
        2
    } else if length <= 4 {
        4
    } else {
        8
    }
}

fn register_width(length: usize) -> (r: usize)
    ensures
        r == spec_register_width(length as nat),
{
    if length == 0 {
        0
    } else if length <= 1 {
        1
    } else if length <= 2 {
        2
    } else if length <= 4 {
        4
    } else {
        8
    }
}

/// The `length` low octets of `value`.
fn low_octets(value: u64, length: usize) -> (r: u64)
    requires
        length <= 8,
    ensures
        spec_fits(r, length as nat),
        r as nat == value as nat % pow(256, length as nat) as nat,
{
    proof {
        reveal_with_fuel(pow, 9);
        assert(pow(256, 0) == 1);
        assert(pow(256, 8) == 0x1_0000_0000_0000_0000);
        assert(value as nat % 1 == 0);
        assert(value as nat % 0x1_0000_0000_0000_0000 == value);
    }
    match length {
        0 => 0,
        1 => value % 0x100,
        2 => value % 0x1_0000,
        3 => value % 0x100_0000,
        4 => value % 0x1_0000_0000,
        5 => value % 0x100_0000_0000,
        6 => value % 0x1_0000_0000_0000,
        7 => value % 0x100_0000_0000_0000,
        _ => value,
    }
}

/// An interface and the records of what the driver did with it: each
/// method hands one operation to the interface and appends it to
/// `spec_requests`, and when the interface reports success it appends the
/// operation, with what a read gave back, to `spec_log`.
pub struct Bus<IF> {
    interface: IF,
    log: Ghost<Seq<BusOp>>,
    requests: Ghost<Seq<BusRequest>>,
}

impl<IF: Interface> Bus<IF> {
    /// The operations made so far.
    pub closed spec fn spec_log(&self) -> Seq<BusOp> {
        self.log@
    }

    /// The operations handed to the interface so far, failed ones too.
    pub closed spec fn spec_requests(&self) -> Seq<BusRequest> {
        self.requests@
    }

    pub fn new(interface: IF) -> (r: Self)
        ensures
            r.spec_log() == Seq::<BusOp>::empty(),
            r.spec_requests() == Seq::<BusRequest>::empty(),
    {
        Bus { interface, log: Ghost(Seq::empty()), requests: Ghost(Seq::empty()) }
    }

    /// Hands the interface back.
    pub fn into_inner(self) -> (r: IF) {
        self.interface
    }

    /// The interface, for what is not an operation on the device (waiting
    /// for the interrupt line, delays); the record is left as it is.
    pub fn interface_mut(&mut self) -> (r: &mut IF)
        ensures
            final(self).spec_log() == old(self).spec_log(),
            final(self).spec_requests() == old(self).spec_requests(),
    {
        &mut self.interface
    }

    pub fn set_reset(&mut self) -> (r: Result<(), IF::Error>)
        ensures
            final(self).spec_requests() == old(self).spec_requests().push(BusRequest::Reset(true)),
            r is Err ==> final(self).spec_log() == old(self).spec_log(),
            r is Ok ==> final(self).spec_log() == old(self).spec_log().push(BusOp::Reset(true)),
    {
        self.requests = Ghost(self.requests@.push(BusRequest::Reset(true)));
        let r = self.interface.set_reset();
        if r.is_ok() {
            self.log = Ghost(self.log@.push(BusOp::Reset(true)));
        }
        r
    }

    pub fn clear_reset(&mut self) -> (r: Result<(), IF::Error>)
        ensures
            final(self).spec_requests() == old(self).spec_requests().push(BusRequest::Reset(false)),
            r is Err ==> final(self).spec_log() == old(self).spec_log(),
            r is Ok ==> final(self).spec_log() == old(self).spec_log().push(BusOp::Reset(false)),
    {
        self.requests = Ghost(self.requests@.push(BusRequest::Reset(false)));
        let r = self.interface.clear_reset();
        if r.is_ok() {
            self.log = Ghost(self.log@.push(BusOp::Reset(false)));
        }
        r
    }

    pub fn is_irq(&mut self) -> (r: Result<bool, IF::Error>)
        ensures
            final(self).spec_requests() == old(self).spec_requests().push(BusRequest::Irq),
            r is Err ==> final(self).spec_log() == old(self).spec_log(),
            r matches Ok(v) ==> final(self).spec_log() == old(self).spec_log().push(BusOp::Irq(v)),
    {
        self.requests = Ghost(self.requests@.push(BusRequest::Irq));
        let r = self.interface.is_irq();
        if let Ok(v) = r {
            self.log = Ghost(self.log@.push(BusOp::Irq(v)));
        }
        r
    }

    pub fn wake_up(&mut self) -> (r: Result<(), IF::Error>)
        ensures
            final(self).spec_requests() == old(self).spec_requests().push(BusRequest::WakeUp),
            r is Err ==> final(self).spec_log() == old(self).spec_log(),
            r is Ok ==> final(self).spec_log() == old(self).spec_log().push(BusOp::WakeUp),
    {
        self.requests = Ghost(self.requests@.push(BusRequest::WakeUp));
        let r = self.interface.wake_up();
        if r.is_ok() {
            self.log = Ghost(self.log@.push(BusOp::WakeUp));
        }
        r
    }

    pub fn send_command(&mut self, command: u8) -> (r: Result<(), IF::Error>)
        requires
            command <= MAX_COMMAND,
        ensures
            final(self).spec_requests() == old(self).spec_requests().push(BusRequest::Command(command)),
            r is Err ==> final(self).spec_log() == old(self).spec_log(),
            r is Ok ==> final(self).spec_log() == old(self).spec_log().push(BusOp::Command(command)),
    {
        self.requests = Ghost(self.requests@.push(BusRequest::Command(command)));
        let r = self.interface.send_command(command);
        if r.is_ok() {
            self.log = Ghost(self.log@.push(BusOp::Command(command)));
        }
        r
    }

    pub fn read_fast(&mut self, file_id: FileId, data: &mut [u8]) -> (r: Result<(), IF::Error>)
        ensures
            final(self).spec_requests() == old(self).spec_requests().push(BusRequest::ReadFast { file_id: file_id@, length: old(data)@.len() }),
            r is Err ==> final(self).spec_log() == old(self).spec_log(),
            final(data)@.len() == old(data)@.len(),
            r is Ok ==> final(self).spec_log() == old(self).spec_log().push(
                BusOp::ReadFast { file_id: file_id@, data: final(data)@ },
            ),
    {
        self.requests = Ghost(self.requests@.push(BusRequest::ReadFast { file_id: file_id@, length: data@.len() }));
        let r = self.interface.read_fast(file_id, data);
        if r.is_ok() {
            self.log = Ghost(self.log@.push(BusOp::ReadFast { file_id: file_id@, data: data@ }));
        }
        r
    }

    pub fn write_fast(&mut self, file_id: FileId, data: &[u8]) -> (r: Result<(), IF::Error>)
        ensures
            final(self).spec_requests() == old(self).spec_requests().push(BusRequest::WriteFast { file_id: file_id@, data: data@ }),
            r is Err ==> final(self).spec_log() == old(self).spec_log(),
            r is Ok ==> final(self).spec_log() == old(self).spec_log().push(
                BusOp::WriteFast { file_id: file_id@, data: data@ },
            ),
    {
        self.requests = Ghost(self.requests@.push(BusRequest::WriteFast { file_id: file_id@, data: data@ }));
        let r = self.interface.write_fast(file_id, data);
        if r.is_ok() {
            self.log = Ghost(self.log@.push(BusOp::WriteFast { file_id: file_id@, data: data@ }));
        }
        r
    }

    pub fn read(&mut self, addr: FullAddress, data: &mut [u8]) -> (r: Result<(), IF::Error>)
        ensures
            final(self).spec_requests() == old(self).spec_requests().push(BusRequest::Read { address: addr@, length: old(data)@.len() }),
            r is Err ==> final(self).spec_log() == old(self).spec_log(),
            final(data)@.len() == old(data)@.len(),
            r is Ok ==> final(self).spec_log() == old(self).spec_log().push(
                BusOp::Read { address: addr@, data: final(data)@ },
            ),
    {
        self.requests = Ghost(self.requests@.push(BusRequest::Read { address: addr@, length: data@.len() }));
        let r = self.interface.read(addr, data);
        if r.is_ok() {
            self.log = Ghost(self.log@.push(BusOp::Read { address: addr@, data: data@ }));
        }
        r
    }

    pub fn write(&mut self, addr: FullAddress, data: &[u8]) -> (r: Result<(), IF::Error>)
        ensures
            final(self).spec_requests() == old(self).spec_requests().push(BusRequest::Write { address: addr@, data: data@ }),
            r is Err ==> final(self).spec_log() == old(self).spec_log(),
            r is Ok ==> final(self).spec_log() == old(self).spec_log().push(
                BusOp::Write { address: addr@, data: data@ },
            ),
    {
        self.requests = Ghost(self.requests@.push(BusRequest::Write { address: addr@, data: data@ }));
        let r = self.interface.write(addr, data);
        if r.is_ok() {
            self.log = Ghost(self.log@.push(BusOp::Write { address: addr@, data: data@ }));
        }
        r
    }

    /// Reads a register of `length` octets. The value is held, as a register
    /// value is, in an integer of the register's width (one, two, four or
    /// eight octets): what the interface returns above that width is
    /// dropped.
    pub fn read_register(&mut self, addr: FullAddress, length: usize) -> (r: Result<u64, IF::Error>)
        requires
            length <= 8,
        ensures
            final(self).spec_requests() == old(self).spec_requests().push(BusRequest::ReadRegister { address: addr@, length: length as nat }),
            r is Err ==> final(self).spec_log() == old(self).spec_log(),
            r matches Ok(v) ==> spec_fits(v, spec_register_width(length as nat)) && final(self).spec_log() == old(
                self,
            ).spec_log().push(
                BusOp::ReadRegister { address: addr@, length: length as nat, value: v },
            ),
    {
        self.requests = Ghost(self.requests@.push(BusRequest::ReadRegister { address: addr@, length: length as nat }));
        match self.interface.read_register(addr, length) {
            Ok(raw) => {
                let v = low_octets(raw, register_width(length));
                self.log = Ghost(
                    self.log@.push(BusOp::ReadRegister { address: addr@, length: length as nat, value: v }),
                );
                Ok(v)
            },
            Err(e) => Err(e),
        }
    }

    pub fn write_register(&mut self, addr: FullAddress, value: u64, length: usize) -> (r: Result<(), IF::Error>)
        requires
            length <= 8,
        ensures
            final(self).spec_requests() == old(self).spec_requests().push(BusRequest::WriteRegister { address: addr@, length: length as nat, value }),
            r is Err ==> final(self).spec_log() == old(self).spec_log(),
            r is Ok ==> final(self).spec_log() == old(self).spec_log().push(
                BusOp::WriteRegister { address: addr@, length: length as nat, value },
            ),
    {
        self.requests = Ghost(self.requests@.push(BusRequest::WriteRegister { address: addr@, length: length as nat, value }));
        let r = self.interface.write_register(addr, value, length);
        if r.is_ok() {
            self.log = Ghost(
                self.log@.push(BusOp::WriteRegister { address: addr@, length: length as nat, value }),
            );
        }
        r
    }

    pub fn modify_1(&mut self, addr: FullAddress, and_mask: u8, or_mask: u8) -> (r: Result<(), IF::Error>)
        ensures
            final(self).spec_requests() == old(self).spec_requests().push(BusRequest::Modify { address: addr@, length: 1, and_mask: and_mask as u64, or_mask: or_mask as u64 }),
            r is Err ==> final(self).spec_log() == old(self).spec_log(),
            r is Ok ==> final(self).spec_log() == old(self).spec_log().push(
                BusOp::Modify { address: addr@, length: 1, and_mask: and_mask as u64, or_mask: or_mask as u64 },
            ),
    {
        self.requests = Ghost(self.requests@.push(BusRequest::Modify { address: addr@, length: 1, and_mask: and_mask as u64, or_mask: or_mask as u64 }));
        let r = self.interface.modify_1(addr, and_mask, or_mask);
        if r.is_ok() {
            self.log = Ghost(
                self.log@.push(
                    BusOp::Modify { address: addr@, length: 1, and_mask: and_mask as u64, or_mask: or_mask as u64 },
                ),
            );
        }
        r
    }

    pub fn modify_2(&mut self, addr: FullAddress, and_mask: u16, or_mask: u16) -> (r: Result<(), IF::Error>)
        ensures
            final(self).spec_requests() == old(self).spec_requests().push(BusRequest::Modify { address: addr@, length: 2, and_mask: and_mask as u64, or_mask: or_mask as u64 }),
            r is Err ==> final(self).spec_log() == old(self).spec_log(),
            r is Ok ==> final(self).spec_log() == old(self).spec_log().push(
                BusOp::Modify { address: addr@, length: 2, and_mask: and_mask as u64, or_mask: or_mask as u64 },
            ),
    {
        self.requests = Ghost(self.requests@.push(BusRequest::Modify { address: addr@, length: 2, and_mask: and_mask as u64, or_mask: or_mask as u64 }));
        let r = self.interface.modify_2(addr, and_mask, or_mask);
        if r.is_ok() {
            self.log = Ghost(
                self.log@.push(
                    BusOp::Modify { address: addr@, length: 2, and_mask: and_mask as u64, or_mask: or_mask as u64 },
                ),
            );
        }
        r
    }

    pub fn modify_4(&mut self, addr: FullAddress, and_mask: u32, or_mask: u32) -> (r: Result<(), IF::Error>)
        ensures
            final(self).spec_requests() == old(self).spec_requests().push(BusRequest::Modify { address: addr@, length: 4, and_mask: and_mask as u64, or_mask: or_mask as u64 }),
            r is Err ==> final(self).spec_log() == old(self).spec_log(),
            r is Ok ==> final(self).spec_log() == old(self).spec_log().push(
                BusOp::Modify { address: addr@, length: 4, and_mask: and_mask as u64, or_mask: or_mask as u64 },
            ),
    {
        self.requests = Ghost(self.requests@.push(BusRequest::Modify { address: addr@, length: 4, and_mask: and_mask as u64, or_mask: or_mask as u64 }));
        let r = self.interface.modify_4(addr, and_mask, or_mask);
        if r.is_ok() {
            self.log = Ghost(
                self.log@.push(
                    BusOp::Modify { address: addr@, length: 4, and_mask: and_mask as u64, or_mask: or_mask as u64 },
                ),
            );
        }
        r
    }
}

} // verus!

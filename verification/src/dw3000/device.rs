//! The DW3000 as a device: its configuration, and the register operations
//! behind each step of the radio's use.
use vstd::prelude::*;
use crate::dw3000::interface::{Bus, BusOp, BusRequest, Interface, lemma_fits, spec_fits, spec_register_width};
use crate::dw3000::otp::{self, OtpReader};
use crate::dw3000::ral::{
    self, Accessor, FileAccessor, FromRaw, Read, Register, ToRaw, Write, spec_field, spec_last_read,
    spec_with_bit, spec_with_field,
};
use crate::dw3000::ral::regs::{
    self, CalStatus, ChanCtrl, DevId, EventsLow, Pac, RxFinfoShort, RxFwto, RxRawst, RxTime, ScratchMem,
    SysEnableLow, SysState, SysStatusLow, SysTime, TxFctrlShort,
};
use crate::phy::{self, time::Duration};

pub use crate::dw3000::ral::regs::{Channel, EventsLow as Events, Pac as PacSize, PhrMode as FrameFormat, SfdType};
pub use crate::dw3000::ral::spec_read_at;

verus! {

/// Ticks of the 124.8 MHz system clock: four chips.
pub const SYSTEM_TIME_UNIT_TICKS: u64 = 512;

/// Ticks of the 31-bit system clock counter's period.
pub const SYSTEM_TIME_PERIOD_TICKS: u64 = 0x100_0000_0000;

/// Ticks of one unit of the receive frame timeout, 512 chips.
pub const RX_FRAME_TIMEOUT_UNIT_TICKS: u64 = 65536;

/// Ticks of the longest receive frame timeout, `2^20 - 1` units.
pub const MAX_FRAME_TIMEOUT_TICKS: u64 = 65536 * 0xf_ffff;

/// The PMSC state of a transmission.
const PMSC_TX: u8 = 0xd;

/// The transmitter state machine's idle state.
const TX_IDLE: u8 = 0x0;

/// The device's timebase: instants are counted on the system clock.
#[derive(Clone, Copy, Debug, Eq, PartialEq)]
pub struct Timebase;

impl Timebase {
    pub fn period() -> (r: Duration)
        ensures
            r@ == SYSTEM_TIME_PERIOD_TICKS,
    {
        Duration::from_ticks(SYSTEM_TIME_PERIOD_TICKS)
    }

    /// The step that delayed operations are scheduled in.
    pub fn schedule_quant() -> (r: Duration)
        ensures
            r@ == SYSTEM_TIME_UNIT_TICKS,
    {
        Duration::from_ticks(SYSTEM_TIME_UNIT_TICKS)
    }
}

/// An instant of the device's system clock.
pub type Instant = crate::phy::time::Instant<0x100_0000_0000>;

/// The longest receive frame timeout.
pub fn max_frame_timeout() -> (r: Duration)
    ensures
        r@ == MAX_FRAME_TIMEOUT_TICKS,
{
    Duration::from_ticks(MAX_FRAME_TIMEOUT_TICKS)
}

/// Fast commands.
#[derive(Copy, Clone, Eq, PartialEq, Structural, Debug)]
pub enum FastCommand {
    /// Puts the device into IDLE state and clears any events
    Txrxoff,
    /// Immediate start of transmission
    Tx,
    /// Enable RX immediately
    Rx,
    /// Delayed TX w.r.t. DX_TIME
    Dtx,
    /// Delayed RX w.r.t. DX_TIME
    Drx,
    /// Delayed TX w.r.t. TX timestamp + DX_TIME
    DtxTs,
    /// Delayed RX w.r.t. TX timestamp + DX_TIME
    DrxTs,
    /// Delayed TX w.r.t. RX timestamp + DX_TIME
    DtxRs,
    /// Delayed RX w.r.t. RX timestamp + DX_TIME
    DrxRs,
    /// Delayed TX w.r.t. DREF_TIME + DX_TIME
    DtxRef,
    /// Delayed RX w.r.t. DREF_TIME + DX_TIME
    DrxRef,
    /// TX if no preamble detected
    CcaTx,
    /// Start TX immediately, then when TX is done, enable the receiver
    TxW4r,
    /// Delayed TX w.r.t. DX_TIME, then enable receiver
    DtxW4r,
    /// Delayed TX w.r.t. TX timestamp + DX_TIME, then enable receiver
    DtxTsW4r,
    /// Delayed TX w.r.t. RX timestamp + DX_TIME, then enable receiver
    DtxRsW4r,
    /// Delayed TX w.r.t. DREF_TIME + DX_TIME, then enable receiver
    DtxRefW4r,
    /// TX packet if no preamble detected, then enable receive
    CcaTxW4r,
    /// Clear all interrupt events
    ClrIrqs,
    /// Toggle double buffer pointer
    DbToggle,
}

impl FastCommand {
    pub open spec fn spec_code(self) -> u8 {
        match self {
            FastCommand::Txrxoff => 0x00,
            FastCommand::Tx => 0x01,
            FastCommand::Rx => 0x02,
            FastCommand::Dtx => 0x03,
            FastCommand::Drx => 0x04,
            FastCommand::DtxTs => 0x05,
            FastCommand::DrxTs => 0x06,
            FastCommand::DtxRs => 0x07,
            FastCommand::DrxRs => 0x08,
            FastCommand::DtxRef => 0x09,
            FastCommand::DrxRef => 0x0a,
            FastCommand::CcaTx => 0x0b,
            FastCommand::TxW4r => 0x0c,
            FastCommand::DtxW4r => 0x0d,
            FastCommand::DtxTsW4r => 0x0e,
            FastCommand::DtxRsW4r => 0x0f,
            FastCommand::DtxRefW4r => 0x10,
            FastCommand::CcaTxW4r => 0x11,
            FastCommand::ClrIrqs => 0x12,
            FastCommand::DbToggle => 0x13,
        }
    }

    pub fn code(self) -> (r: u8)
        ensures
            r == self.spec_code(),
            r <= 0x13,
    {
        match self {
            FastCommand::Txrxoff => 0x00,
            FastCommand::Tx => 0x01,
            FastCommand::Rx => 0x02,
            FastCommand::Dtx => 0x03,
            FastCommand::Drx => 0x04,
            FastCommand::DtxTs => 0x05,
            FastCommand::DrxTs => 0x06,
            FastCommand::DtxRs => 0x07,
            FastCommand::DrxRs => 0x08,
            FastCommand::DtxRef => 0x09,
            FastCommand::DrxRef => 0x0a,
            FastCommand::CcaTx => 0x0b,
            FastCommand::TxW4r => 0x0c,
            FastCommand::DtxW4r => 0x0d,
            FastCommand::DtxTsW4r => 0x0e,
            FastCommand::DtxRsW4r => 0x0f,
            FastCommand::DtxRefW4r => 0x10,
            FastCommand::CcaTxW4r => 0x11,
            FastCommand::ClrIrqs => 0x12,
            FastCommand::DbToggle => 0x13,
        }
    }
}

/// Mean pulse repetition frequency the device supports.
#[derive(Clone, Copy, Eq, PartialEq, Structural, Debug)]
pub enum MeanPrf {
    /// 31-symbols preambles, CHIP_FREQ / 16
    Mhz16,
    /// 127-symbols preambles, CHIP_FREQ / 4
    Mhz62,
}

/// Whether `code` is a preamble code of `prf`.
pub open spec fn spec_code_in_range(prf: MeanPrf, code: u8) -> bool {
    match prf {
        MeanPrf::Mhz16 => 1 <= code <= 8,
        MeanPrf::Mhz62 => 9 <= code <= 24,
    }
}

impl MeanPrf {
    /// The inclusive range of preamble codes of this PRF.
    pub fn code_range(self) -> (r: [u8; 2])
        ensures
            r@ == match self {
                MeanPrf::Mhz16 => seq![1u8, 8u8],
                MeanPrf::Mhz62 => seq![9u8, 24u8],
            },
    {
        match self {
            MeanPrf::Mhz16 => [1, 8],
            MeanPrf::Mhz62 => [9, 24],
        }
    }
}

/// Bit rates the device supports.
#[derive(Clone, Copy, Eq, PartialEq, Structural, Debug)]
pub enum BitRate {
    /// 0.85 MBit/s for PHR and payload
    Kbs850,
    /// 0.85 MBit/s for PHR, 6.81 MBit/s for payload, a.k.a. DRBM_LP
    Kbs6810,
    /// 6.81 MBit/s for PHR and payload, a.k.a. DRBM_HP
    Kbs6810Only,
}

/// One TX_POWER gain setting.
///
/// The encoded byte uses bits 7:2 for the six-bit fine gain and bits 1:0 for
/// the two-bit coarse gain.
#[derive(Clone, Copy, Debug, Eq, PartialEq, Structural)]
pub struct TxPower(pub u8);

impl TxPower {
    pub fn new(coarse_gain: u8, fine_gain: u8) -> (r: Self)
        requires
            coarse_gain < 4,
            fine_gain < 64,
        ensures
            r.0 == fine_gain * 4 + coarse_gain,
    {
        proof {
            assert(fine_gain < 64 && coarse_gain < 4 ==> (fine_gain << 2) | coarse_gain == fine_gain * 4
                + coarse_gain) by (bit_vector);
        }
        Self((fine_gain << 2) | coarse_gain)
    }
}

impl Default for TxPower {
    /// The TX_POWER value after power-on reset.
    fn default() -> (r: Self)
        ensures
            r.0 == 0x82,
    {
        Self(0x82)
    }
}

/// Transmit power of each part of a frame.
#[derive(Clone, Copy, Debug, Eq, PartialEq, Structural)]
pub struct TxPowerConfig {
    /// Transmit power for the synchronization header.
    pub shr: TxPower,
    /// Transmit power for the PHY header.
    pub phr: TxPower,
    /// Transmit power for the PHY payload.
    pub data: TxPower,
    /// Transmit power for the Scrambled Timestamp Sequence.
    pub sts: TxPower,
}

impl TxPowerConfig {
    pub fn new_uniform(power: TxPower) -> (r: Self)
        ensures
            r.shr == power,
            r.phr == power,
            r.data == power,
            r.sts == power,
    {
        Self { shr: power, phr: power, data: power, sts: power }
    }
}

impl Default for TxPowerConfig {
    fn default() -> (r: Self)
        ensures
            r.shr.0 == 0x82,
            r.phr.0 == 0x82,
            r.data.0 == 0x82,
            r.sts.0 == 0x82,
    {
        Self::new_uniform(TxPower::default())
    }
}

/// Radio configuration of the device.
#[derive(Clone, Copy, Eq, PartialEq, Debug)]
pub struct Config {
    pub channel: Channel,
    pub prf: MeanPrf,
    pub rx_code: u8,
    pub tx_code: u8,
    pub rx_psr: phy::Psr,
    pub pac_size: PacSize,
    pub sfd_type: SfdType,
    pub cia_enable: bool,
    pub bit_rate: BitRate,
    pub frame_format: FrameFormat,
    pub correct_tx_fcs: bool,
    pub tx_power: TxPowerConfig,
}

/// Calibration values read from the OTP memory.
#[derive(Clone, Copy, Eq, PartialEq, Debug)]
pub struct OtpData {
    pub ldotune_cal_set: bool,
    pub xtal_trim: u8,
    pub bias_tune_byte2: u8,
    pub rx_tune_set: bool,
    pub pll_lock_code: u32,
}

#[derive(Clone, Copy, Eq, PartialEq, Debug)]
pub enum DeviceError {
    ResetTimeout,
    SpiNotReady,
    WrongDevice,
    PllLockTimeout,
    RxCalibrationTimeout,
    RxCalibrationFailure,
    TxStateTimeout { timeout_us: u32 },
    RxStateTimeout { timeout_us: u32 },
    UnmaskedEvent { mask: Events, events: Events },
    NoAccumulatedPreambles,
}

pub enum Error<IF: Interface> {
    Interface(IF::Error),
    Device(DeviceError),
}

fn from_ral<IF: Interface>(e: ral::Error<IF>) -> (r: Error<IF>)
    ensures
        r is Interface,
{
    match e {
        ral::Error::Interface(err) => Error::Interface(err),
    }
}

/// The write of `value` to register `R`.
pub open spec fn spec_write<R: Register>(value: u64) -> BusOp {
    BusOp::WriteRegister { address: R::spec_address(), length: R::spec_length(), value }
}

/// The read of `value` from register `R`.
pub open spec fn spec_read<R: Register>(value: u64) -> BusOp {
    BusOp::ReadRegister { address: R::spec_address(), length: R::spec_length(), value }
}

/// What the first-path power of a reception is computed from.
#[derive(Clone, Copy, Debug)]
pub struct FirstPathCia {
    /// First-path amplitude at its first point, scaled by the gain step.
    pub fp1: u32,
    /// First-path amplitude at its second point, scaled by the gain step.
    pub fp2: u32,
    /// First-path amplitude at its third point, scaled by the gain step.
    pub fp3: u32,
    /// Accumulated preamble symbols, in quarters (never zero as read).
    pub count: u16,
}

/// What the power of the whole channel of a reception is computed from.
#[derive(Clone, Copy, Debug)]
pub struct FullCia {
    /// Area under the channel impulse response, scaled by the gain step.
    pub area: u32,
    /// Accumulated preamble symbols (never zero as read).
    pub count: u16,
}

/// The gain step the receiver applied, from a DGC_DBG value: used only
/// with the receiver tuning of the 62 MHz PRF.
pub open spec fn spec_dgc_shift(prf: MeanPrf, dgc: u64) -> u8 {
    if spec_recommended_rx_tune_en(prf) {
        spec_field(dgc & 0xffff_ffff, 28, 31) as u8
    } else {
        0
    }
}

/// The reads of `get_first_path_cia`, with the values they gave.
pub open spec fn spec_first_path_cia_ops(dgc: u64, fp1: u64, fp2: u64, fp3: u64, nacc: u64) -> Seq<BusOp> {
    seq![
        spec_read::<regs::DgcDbg>(dgc),
        spec_read::<regs::IpDiag2>(fp1),
        spec_read::<regs::IpDiag3>(fp2),
        spec_read::<regs::IpDiag4>(fp3),
        spec_read::<regs::IpDiag12>(nacc),
    ]
}

/// The first-path values from the registers read, `None` when no preamble
/// symbol was accumulated.
pub open spec fn spec_first_path_cia(prf: MeanPrf, dgc: u64, fp1: u64, fp2: u64, fp3: u64, nacc: u64) -> Option<FirstPathCia> {
    let count = spec_field(nacc & 0xffff_ffff, 0, 12) * 4;
    let s = spec_dgc_shift(prf, dgc) as u32;
    if count == 0 {
        None
    } else {
        Some(
            FirstPathCia {
                fp1: (spec_field(fp1 & 0xffff_ffff, 0, 22) as u32) << s,
                fp2: (spec_field(fp2 & 0xffff_ffff, 0, 22) as u32) << s,
                fp3: (spec_field(fp3 & 0xffff_ffff, 0, 22) as u32) << s,
                count: count as u16,
            },
        )
    }
}

/// The reads of `get_full_cia`, with the values they gave.
pub open spec fn spec_full_cia_ops(dgc: u64, area: u64, nacc: u64) -> Seq<BusOp> {
    seq![spec_read::<regs::DgcDbg>(dgc), spec_read::<regs::IpDiag1>(area), spec_read::<regs::IpDiag12>(nacc)]
}

/// The whole-channel values from the registers read, `None` when no
/// preamble symbol was accumulated.
pub open spec fn spec_full_cia(prf: MeanPrf, dgc: u64, area: u64, nacc: u64) -> Option<FullCia> {
    let count = spec_field(nacc & 0xffff_ffff, 0, 12);
    let s = (spec_dgc_shift(prf, dgc) * 2) as u32;
    if count == 0 {
        None
    } else {
        Some(FullCia { area: (spec_field(area & 0xffff_ffff, 0, 17) as u32) << s, count: count as u16 })
    }
}

/// A DW3000 behind an interface, with its OTP calibration values.
pub struct Device<IF> {
    interface: Bus<IF>,
    otp: OtpData,
}

impl<IF: Interface> Device<IF> {
    /// The operations made on the device so far.
    pub closed spec fn spec_log(&self) -> Seq<BusOp> {
        self.interface.spec_log()
    }

    /// The operations handed to the interface so far, failed ones too.
    pub closed spec fn spec_requests(&self) -> Seq<BusRequest> {
        self.interface.spec_requests()
    }

    pub closed spec fn spec_otp(&self) -> OtpData {
        self.otp
    }

    /// The bus, for the steps that wait on the device between two
    /// operations.
    pub fn bus_mut(&mut self) -> (r: &mut Bus<IF>)
        ensures
            r.spec_log() == old(self).spec_log(),
            final(self).spec_log() == final(r).spec_log(),
            r.spec_requests() == old(self).spec_requests(),
            final(self).spec_requests() == final(r).spec_requests(),
            final(self).spec_otp() == old(self).spec_otp(),
    {
        &mut self.interface
    }

    /// Hands the interface back.
    pub fn into_interface(self) -> (r: Bus<IF>)
        ensures
            r.spec_log() == self.spec_log(),
    {
        self.interface
    }

    fn write_reg<R: Register + Write + ToRaw>(&mut self, value: R) -> (r: Result<(), Error<IF>>)
        ensures
            r is Err ==> final(self).spec_log() == old(self).spec_log(),
            final(self).spec_otp() == old(self).spec_otp(),
            r is Ok ==> final(self).spec_log() == old(self).spec_log().push(spec_write::<R>(value.spec_to_raw())),
            r matches Err(e) ==> e is Interface,
    {
        match Accessor::<R>::new().write_value(&mut self.interface, value) {
            Ok(()) => Ok(()),
            Err(e) => Err(from_ral(e)),
        }
    }

    fn write_raw<R: Register + Write>(&mut self, value: u64) -> (r: Result<(), Error<IF>>)
        ensures
            r is Err ==> final(self).spec_log() == old(self).spec_log(),
            final(self).spec_otp() == old(self).spec_otp(),
            r is Ok ==> final(self).spec_log() == old(self).spec_log().push(spec_write::<R>(value)),
            r matches Err(e) ==> e is Interface,
    {
        match Accessor::<R>::new().write_bytes(&mut self.interface, value) {
            Ok(()) => Ok(()),
            Err(e) => Err(from_ral(e)),
        }
    }

    fn read_raw<R: Register + Read>(&mut self) -> (r: Result<u64, Error<IF>>)
        ensures
            r is Err ==> final(self).spec_log() == old(self).spec_log(),
            final(self).spec_otp() == old(self).spec_otp(),
            r matches Ok(v) ==> final(self).spec_log() == old(self).spec_log().push(spec_read::<R>(v))
                && spec_fits(v, spec_register_width(R::spec_length())),
            r matches Err(e) ==> e is Interface,
    {
        let ghost log0 = self.interface.spec_log();
        match Accessor::<R>::new().read_bytes(&mut self.interface) {
            Ok(v) => {
                proof {
                    let log = self.interface.spec_log();
                    assert(log =~= log0.push(spec_read::<R>(v))) by {
                        assert forall|i: int| 0 <= i < log0.len() implies log[i] == log0[i] by {
                            assert(log.subrange(0, log0.len() as int)[i] == log0[i]);
                        }
                    }
                }
                Ok(v)
            },
            Err(e) => Err(from_ral(e)),
        }
    }

    fn read_reg<R: Register + Read + FromRaw>(&mut self) -> (r: Result<R, Error<IF>>)
        ensures
            r is Err ==> final(self).spec_log() == old(self).spec_log(),
            final(self).spec_otp() == old(self).spec_otp(),
            r matches Ok(v) ==> {
                let raw = spec_last_read(final(self).spec_log());
                &&& final(self).spec_log() == old(self).spec_log().push(spec_read::<R>(raw))
                &&& spec_fits(raw, spec_register_width(R::spec_length()))
                &&& v == R::spec_from_raw(raw)
            },
            r matches Err(e) ==> e is Interface,
    {
        let raw = self.read_raw::<R>()?;
        Ok(R::from_raw(raw))
    }

    /// Holds the device in reset.
    pub fn shutdown(&mut self) -> (r: Result<(), Error<IF>>)
        ensures
            r is Err ==> final(self).spec_log() == old(self).spec_log(),
            final(self).spec_otp() == old(self).spec_otp(),
            r is Ok ==> final(self).spec_log() == old(self).spec_log().push(BusOp::Reset(true)),
            r matches Err(e) ==> e is Interface,
    {
        match self.interface.set_reset() {
            Ok(()) => Ok(()),
            Err(e) => Err(Error::Interface(e)),
        }
    }

    pub fn send_command(&mut self, command: FastCommand) -> (r: Result<(), Error<IF>>)
        ensures
            final(self).spec_requests() == old(self).spec_requests().push(BusRequest::Command(command.spec_code())),
            r is Err ==> final(self).spec_log() == old(self).spec_log(),
            final(self).spec_otp() == old(self).spec_otp(),
            r is Ok ==> final(self).spec_log() == old(self).spec_log().push(BusOp::Command(command.spec_code())),
            r matches Err(e) ==> e is Interface,
    {
        match self.interface.send_command(command.code()) {
            Ok(()) => Ok(()),
            Err(e) => Err(Error::Interface(e)),
        }
    }

    /// Selects the events that raise the interrupt line.
    pub fn set_event_mask(&mut self, mask: Events) -> (r: Result<(), Error<IF>>)
        ensures
            r is Err ==> final(self).spec_log() == old(self).spec_log(),
            final(self).spec_otp() == old(self).spec_otp(),
            r is Ok ==> final(self).spec_log() == old(self).spec_log().push(
                spec_write::<SysEnableLow>(mask@ as u64),
            ),
            r matches Err(e) ==> e is Interface,
    {
        self.write_raw::<SysEnableLow>(mask.bits() as u64)
    }

    /// Whether the interrupt line is raised.
    pub fn has_events(&mut self) -> (r: Result<bool, Error<IF>>)
        ensures
            r is Err ==> final(self).spec_log() == old(self).spec_log(),
            final(self).spec_otp() == old(self).spec_otp(),
            r matches Ok(v) ==> final(self).spec_log() == old(self).spec_log().push(BusOp::Irq(v)),
            r matches Err(e) ==> e is Interface,
    {
        match self.interface.is_irq() {
            Ok(v) => Ok(v),
            Err(e) => Err(Error::Interface(e)),
        }
    }

    /// The pending events.
    pub fn get_events(&mut self) -> (r: Result<Events, Error<IF>>)
        ensures
            r is Err ==> final(self).spec_log() == old(self).spec_log(),
            final(self).spec_otp() == old(self).spec_otp(),
            r matches Ok(e) ==> {
                let raw = spec_last_read(final(self).spec_log());
                &&& final(self).spec_log() == old(self).spec_log().push(spec_read::<SysStatusLow>(raw))
                &&& e@ == (raw as u32) & regs::EVENTS_LOW_ALL_BITS
            },
            r matches Err(e) ==> e is Interface,
    {
        let value = self.read_raw::<SysStatusLow>()?;
        proof {
            assert(spec_last_read(self.interface.spec_log()) == value);
        }
        Ok(Events::from_bits_truncate(value as u32))
    }

    /// Clears the given events.
    pub fn clear_events(&mut self, events: Events) -> (r: Result<(), Error<IF>>)
        ensures
            r is Err ==> final(self).spec_log() == old(self).spec_log(),
            final(self).spec_otp() == old(self).spec_otp(),
            r is Ok ==> final(self).spec_log() == old(self).spec_log().push(
                spec_write::<SysStatusLow>(events@ as u64),
            ),
            r matches Err(e) ==> e is Interface,
    {
        match Accessor::<SysStatusLow>::new().clear_bytes(&mut self.interface, events.bits() as u64) {
            Ok(()) => Ok(()),
            Err(e) => Err(from_ral(e)),
        }
    }

    /// Clears every event.
    pub fn clear_all_events(&mut self) -> (r: Result<(), Error<IF>>)
        ensures
            final(self).spec_requests() == old(self).spec_requests().push(BusRequest::Command(FastCommand::ClrIrqs.spec_code())),
            r is Err ==> final(self).spec_log() == old(self).spec_log(),
            final(self).spec_otp() == old(self).spec_otp(),
            r is Ok ==> final(self).spec_log() == old(self).spec_log().push(
                BusOp::Command(FastCommand::ClrIrqs.spec_code()),
            ),
            r matches Err(e) ==> e is Interface,
    {
        self.send_command(FastCommand::ClrIrqs)?;
        Ok(())
    }

    /// Sets the frame length, bit rate, ranging flag and preamble length of
    /// the next transmission.
    pub fn set_tx_config(&mut self, psr: phy::Psr, bit_rate: BitRate, ranging: bool, length: u16) -> (r: Result<(), Error<IF>>)
        requires
            length <= 1023,
        ensures
            r is Err ==> final(self).spec_log() == old(self).spec_log(),
            final(self).spec_otp() == old(self).spec_otp(),
            r is Ok ==> final(self).spec_log() == old(self).spec_log().push(
                spec_write::<TxFctrlShort>(spec_tx_fctrl(psr, bit_rate, ranging, length)),
            ),
            r matches Err(e) ==> e is Interface,
    {
        // Note, setting the txb_offset offset field is non-trivial.
        // Check errata for correct procedure.
        let mut w = TxFctrlShort::default();
        w.set_txflen(length);
        w.set_txbr(tx_bit_rate(bit_rate));
        w.set_tr(ranging);
        w.set_txpsr(tx_psr(psr));
        self.write_reg(w)
    }

    /// Sets how long the receiver hunts for a preamble, in preamble symbols
    /// rounded up to whole acquisition chunks; `None` hunts until the frame
    /// timeout.
    pub fn set_preamble_timeout(&mut self, pac_size: PacSize, timeout: Option<u16>) -> (r: Result<(), Error<IF>>)
        ensures
            r is Err ==> final(self).spec_log() == old(self).spec_log(),
            final(self).spec_otp() == old(self).spec_otp(),
            r is Ok ==> final(self).spec_log() == old(self).spec_log().push(
                spec_write::<regs::PreToc>(spec_preamble_toc(pac_size, timeout) as u64),
            ),
            r matches Err(e) ==> e is Interface,
    {
        let preamble_toc: u16 = match timeout {
            Some(count) => {
                let pac = pac_symbols(pac_size);
                let q = count / pac;
                if count % pac == 0 {
                    q
                } else {
                    q + 1
                }
            },
            None => 0,
        };
        self.write_raw::<regs::PreToc>(preamble_toc as u64)
    }

    /// Sets the receive frame timeout, rounded up to whole units.
    pub fn set_rx_frame_timeout(&mut self, timeout: Duration) -> (r: Result<(), Error<IF>>)
        requires
            timeout@ <= MAX_FRAME_TIMEOUT_TICKS,
        ensures
            r is Err ==> final(self).spec_log() == old(self).spec_log(),
            final(self).spec_otp() == old(self).spec_otp(),
            r is Ok ==> final(self).spec_log() == old(self).spec_log().push(
                spec_write::<RxFwto>(
                    spec_with_field(
                        0,
                        0,
                        20,
                        crate::phy::time::spec_div_ceil(timeout@ as int, RX_FRAME_TIMEOUT_UNIT_TICKS as int)
                            as u64,
                    ),
                ),
            ),
            r matches Err(e) ==> e is Interface,
    {
        let counter = crate::phy::time::u64_div_ceil(timeout.as_ticks(), RX_FRAME_TIMEOUT_UNIT_TICKS);
        let mut w = RxFwto::default();
        w.set_rx_fwto(counter as u32);
        self.write_reg(w)
    }

    /// The current system time.
    pub fn get_sys_timestamp(&mut self) -> (r: Result<Instant, Error<IF>>)
        ensures
            r is Err ==> final(self).spec_log() == old(self).spec_log() || final(self).spec_log() == old(
                self,
            ).spec_log().push(BusOp::WriteFast { file_id: 0x17, data: Seq::empty() }),
            final(self).spec_otp() == old(self).spec_otp(),
            r matches Ok(t) ==> {
                let raw = spec_last_read(final(self).spec_log());
                &&& final(self).spec_log() == old(self).spec_log() + seq![
                    BusOp::WriteFast { file_id: 0x17, data: Seq::empty() },
                    spec_read::<SysTime>(raw),
                ]
                &&& t@ == SYSTEM_TIME_UNIT_TICKS * (raw / 2)
            },
            r matches Err(e) ==> e is Interface,
    {
        let ghost log0 = self.interface.spec_log();
        // Sys_time is latch during read (and probably some other operations)
        // Make a dummy write transaction to clear the latch
        let empty: [u8; 0] = [];
        match FileAccessor::<ScratchMem>::new().write_fast(&mut self.interface, &empty) {
            Ok(()) => {},
            Err(e) => return Err(from_ral(e)),
        }
        proof {
            assert(empty@ =~= Seq::<u8>::empty());
        }
        let sys_ticks_x2 = self.read_raw::<SysTime>()?;
        proof { lemma_fits(sys_ticks_x2); }
        let t = system_instant(sys_ticks_x2);
        proof {
            assert(empty@ =~= Seq::<u8>::empty());
            assert(self.interface.spec_log() =~= log0 + seq![
                BusOp::WriteFast { file_id: 0x17, data: Seq::empty() },
                spec_read::<SysTime>(sys_ticks_x2),
            ]);
        }
        Ok(t)
    }

    /// Sets the time of the next delayed operation.
    pub fn set_dx_time(&mut self, time: Instant) -> (r: Result<(), Error<IF>>)
        ensures
            r is Err ==> final(self).spec_log() == old(self).spec_log(),
            final(self).spec_otp() == old(self).spec_otp(),
            r is Ok ==> final(self).spec_log() == old(self).spec_log().push(
                spec_write::<regs::DxTime>((time@ / SYSTEM_TIME_UNIT_TICKS * 2) as u64),
            ),
            r matches Err(e) ==> e is Interface,
    {
        let sys_ticks_x2 = time.as_ticks() / SYSTEM_TIME_UNIT_TICKS * 2;
        self.write_raw::<regs::DxTime>(sys_ticks_x2)
    }

    /// Sets the reference time of delayed operations.
    pub fn set_dref_time(&mut self, time: Instant) -> (r: Result<(), Error<IF>>)
        ensures
            r is Err ==> final(self).spec_log() == old(self).spec_log(),
            final(self).spec_otp() == old(self).spec_otp(),
            r is Ok ==> final(self).spec_log() == old(self).spec_log().push(
                spec_write::<regs::DrefTime>((time@ / SYSTEM_TIME_UNIT_TICKS * 2) as u64),
            ),
            r matches Err(e) ==> e is Interface,
    {
        let sys_ticks_x2 = time.as_ticks() / SYSTEM_TIME_UNIT_TICKS * 2;
        self.write_raw::<regs::DrefTime>(sys_ticks_x2)
    }

    /// Whether the device is stuck in the transmit state that follows a
    /// missed delayed-transmit deadline, with neither HPDWARN nor TXFRS
    /// raised (user manual 9.4.1).
    pub fn is_tx_missed_deadline_state(&mut self) -> (r: Result<bool, Error<IF>>)
        ensures
            r is Err ==> final(self).spec_log() == old(self).spec_log(),
            final(self).spec_otp() == old(self).spec_otp(),
            r matches Ok(b) ==> {
                let raw = spec_last_read(final(self).spec_log());
                &&& final(self).spec_log() == old(self).spec_log().push(spec_read::<SysState>(raw))
                &&& b == (spec_field(raw & 0xffff_ffff, 16, 21) as u8 == 0xd && spec_field(
                    raw & 0xffff_ffff,
                    0,
                    4,
                ) as u8 == 0)
            },
            r matches Err(e) ==> e is Interface,
    {
        let state = self.read_reg::<SysState>()?;
        Ok(state.pmsc_state() == PMSC_TX && state.tx_state() == TX_IDLE)
    }

    /// Length of the received frame.
    pub fn get_rx_frame_length(&mut self) -> (r: Result<u16, Error<IF>>)
        ensures
            r is Err ==> final(self).spec_log() == old(self).spec_log(),
            final(self).spec_otp() == old(self).spec_otp(),
            r matches Ok(n) ==> {
                let raw = spec_last_read(final(self).spec_log());
                &&& final(self).spec_log() == old(self).spec_log().push(spec_read::<RxFinfoShort>(raw))
                &&& n == spec_field(raw & 0xffff, 0, 10) as u16
            },
            r matches Err(e) ==> e is Interface,
    {
        let rx_info = self.read_reg::<RxFinfoShort>()?;
        Ok(rx_info.rxflen())
    }

    /// Arrival time of the received frame on the system clock.
    pub fn get_coarse_rx_timestamp(&mut self) -> (r: Result<Instant, Error<IF>>)
        ensures
            r is Err ==> final(self).spec_log() == old(self).spec_log(),
            final(self).spec_otp() == old(self).spec_otp(),
            r matches Ok(t) ==> {
                let raw = spec_last_read(final(self).spec_log());
                &&& final(self).spec_log() == old(self).spec_log().push(spec_read::<RxRawst>(raw))
                &&& t@ == SYSTEM_TIME_UNIT_TICKS * (raw / 2)
            },
            r matches Err(e) ==> e is Interface,
    {
        let sys_ticks_x2 = self.read_raw::<RxRawst>()?;
        proof { lemma_fits(sys_ticks_x2); }
        Ok(system_instant(sys_ticks_x2))
    }

    /// Arrival time of the received frame as the CIA estimated it.
    pub fn get_fine_rx_timestamp(&mut self) -> (r: Result<Instant, Error<IF>>)
        ensures
            r is Err ==> final(self).spec_log() == old(self).spec_log(),
            final(self).spec_otp() == old(self).spec_otp(),
            r matches Ok(t) ==> {
                let raw = spec_last_read(final(self).spec_log());
                &&& final(self).spec_log() == old(self).spec_log().push(spec_read::<RxTime>(raw))
                &&& t@ == raw % SYSTEM_TIME_PERIOD_TICKS
            },
            r matches Err(e) ==> e is Interface,
    {
        let rx_time = self.read_raw::<RxTime>()?;
        // The five octets of the register are an instant of the period; an
        // interface that returns more bits is taken modulo the period.
        Ok(instant_from_ticks(rx_time % SYSTEM_TIME_PERIOD_TICKS))
    }

    /// What the first-path power of the last reception is computed from:
    /// the three first-path amplitudes, each shifted up by the gain step the
    /// receiver applied (none at 16 MHz PRF), and the number of accumulated
    /// preamble symbols in quarters, as the amplitudes have two fractional
    /// bits. Fails with `NoAccumulatedPreambles` when nothing was
    /// accumulated.
    pub fn get_first_path_cia(&mut self, prf: MeanPrf) -> (r: Result<FirstPathCia, Error<IF>>)
        ensures
            final(self).spec_otp() == old(self).spec_otp(),
            r matches Err(e) ==> e is Interface || e == Error::<IF>::Device(DeviceError::NoAccumulatedPreambles),
            (r is Ok || r matches Err(Error::Device(_))) ==> {
                let n = old(self).spec_log().len() as int;
                let log = final(self).spec_log();
                let (d, a, b, c, k) = (
                    spec_read_at(log, n),
                    spec_read_at(log, n + 1),
                    spec_read_at(log, n + 2),
                    spec_read_at(log, n + 3),
                    spec_read_at(log, n + 4),
                );
                &&& log == old(self).spec_log() + spec_first_path_cia_ops(d, a, b, c, k)
                &&& r == match spec_first_path_cia(prf, d, a, b, c, k) {
                    Some(v) => Ok::<FirstPathCia, Error<IF>>(v),
                    None => Err(Error::Device(DeviceError::NoAccumulatedPreambles)),
                }
            },
            (r matches Err(e) && e is Interface) ==> {
                let n = old(self).spec_log().len() as int;
                let log = final(self).spec_log();
                spec_cut_short(
                    old(self).spec_log(),
                    log,
                    spec_first_path_cia_ops(
                        spec_read_at(log, n),
                        spec_read_at(log, n + 1),
                        spec_read_at(log, n + 2),
                        spec_read_at(log, n + 3),
                        spec_read_at(log, n + 4),
                    ),
                )
            },
    {
        let ghost log0 = self.spec_log();
        let ghost n = log0.len() as int;
        proof {
            let l = self.spec_log();
            assert(l =~= log0 + spec_first_path_cia_ops(
                spec_read_at(l, n), spec_read_at(l, n + 1), spec_read_at(l, n + 2), spec_read_at(l, n + 3), spec_read_at(l, n + 4),
            ).subrange(0, 0));
        }
        let dgc = self.read_reg::<regs::DgcDbg>()?;
        let ghost dgc_raw = spec_last_read(self.spec_log());
        proof {
            let l = self.spec_log();
            assert(l =~= log0 + spec_first_path_cia_ops(
                spec_read_at(l, n), spec_read_at(l, n + 1), spec_read_at(l, n + 2), spec_read_at(l, n + 3), spec_read_at(l, n + 4),
            ).subrange(0, 1));
        }
        let fp1 = self.read_reg::<regs::IpDiag2>()?;
        let ghost fp1_raw = spec_last_read(self.spec_log());
        proof {
            let l = self.spec_log();
            assert(l =~= log0 + spec_first_path_cia_ops(
                spec_read_at(l, n), spec_read_at(l, n + 1), spec_read_at(l, n + 2), spec_read_at(l, n + 3), spec_read_at(l, n + 4),
            ).subrange(0, 2));
        }
        let fp2 = self.read_reg::<regs::IpDiag3>()?;
        let ghost fp2_raw = spec_last_read(self.spec_log());
        proof {
            let l = self.spec_log();
            assert(l =~= log0 + spec_first_path_cia_ops(
                spec_read_at(l, n), spec_read_at(l, n + 1), spec_read_at(l, n + 2), spec_read_at(l, n + 3), spec_read_at(l, n + 4),
            ).subrange(0, 3));
        }
        let fp3 = self.read_reg::<regs::IpDiag4>()?;
        let ghost fp3_raw = spec_last_read(self.spec_log());
        proof {
            let l = self.spec_log();
            assert(l =~= log0 + spec_first_path_cia_ops(
                spec_read_at(l, n), spec_read_at(l, n + 1), spec_read_at(l, n + 2), spec_read_at(l, n + 3), spec_read_at(l, n + 4),
            ).subrange(0, 4));
        }
        let nacc = self.read_reg::<regs::IpDiag12>()?;
        let ghost nacc_raw = spec_last_read(self.spec_log());
        proof {
            let l = self.spec_log();
            assert(l =~= log0 + spec_first_path_cia_ops(
                spec_read_at(l, n), spec_read_at(l, n + 1), spec_read_at(l, n + 2), spec_read_at(l, n + 3), spec_read_at(l, n + 4),
            ));
        }
        proof {
            let l = self.spec_log();
            assert(spec_read_at(l, n) == dgc_raw);
            assert(spec_read_at(l, n + 1) == fp1_raw);
            assert(spec_read_at(l, n + 2) == fp2_raw);
            assert(spec_read_at(l, n + 3) == fp3_raw);
            assert(spec_read_at(l, n + 4) == nacc_raw);
        }
        proof {
            regs::lemma_diagnostic_field_bounds(dgc.0);
            regs::lemma_diagnostic_field_bounds(nacc.0);
        }
        // the amplitudes have two fractional bits
        let count = nacc.ip_nacc() * 4;
        let shift: u8 = if recommended_rx_tune_en(prf) {
            dgc.dgc_decision()
        } else {
            0
        };
        if count == 0 {
            return Err(Error::Device(DeviceError::NoAccumulatedPreambles));
        }
        let s = shift as u32;
        Ok(FirstPathCia { fp1: fp1.ip_fp1m() << s, fp2: fp2.ip_fp2m() << s, fp3: fp3.ip_fp3m() << s, count })
    }

    /// What the power of the whole channel of the last reception is
    /// computed from: the area under the channel impulse response, shifted
    /// up by twice the gain step the receiver applied (none at 16 MHz PRF),
    /// and the number of accumulated preamble symbols. Fails with
    /// `NoAccumulatedPreambles` when nothing was accumulated.
    pub fn get_full_cia(&mut self, prf: MeanPrf) -> (r: Result<FullCia, Error<IF>>)
        ensures
            final(self).spec_otp() == old(self).spec_otp(),
            r matches Err(e) ==> e is Interface || e == Error::<IF>::Device(DeviceError::NoAccumulatedPreambles),
            (r is Ok || r matches Err(Error::Device(_))) ==> {
                let n = old(self).spec_log().len() as int;
                let log = final(self).spec_log();
                let (d, a, k) = (spec_read_at(log, n), spec_read_at(log, n + 1), spec_read_at(log, n + 2));
                &&& log == old(self).spec_log() + spec_full_cia_ops(d, a, k)
                &&& r == match spec_full_cia(prf, d, a, k) {
                    Some(v) => Ok::<FullCia, Error<IF>>(v),
                    None => Err(Error::Device(DeviceError::NoAccumulatedPreambles)),
                }
            },
            (r matches Err(e) && e is Interface) ==> {
                let n = old(self).spec_log().len() as int;
                let log = final(self).spec_log();
                spec_cut_short(
                    old(self).spec_log(),
                    log,
                    spec_full_cia_ops(spec_read_at(log, n), spec_read_at(log, n + 1), spec_read_at(log, n + 2)),
                )
            },
    {
        let ghost log0 = self.spec_log();
        let ghost n = log0.len() as int;
        proof {
            let l = self.spec_log();
            assert(l =~= log0 + spec_full_cia_ops(spec_read_at(l, n), spec_read_at(l, n + 1), spec_read_at(l, n + 2)).subrange(0, 0));
        }
        let dgc = self.read_reg::<regs::DgcDbg>()?;
        let ghost dgc_raw = spec_last_read(self.spec_log());
        proof {
            let l = self.spec_log();
            assert(l =~= log0 + spec_full_cia_ops(spec_read_at(l, n), spec_read_at(l, n + 1), spec_read_at(l, n + 2)).subrange(0, 1));
        }
        let area = self.read_reg::<regs::IpDiag1>()?;
        let ghost area_raw = spec_last_read(self.spec_log());
        proof {
            let l = self.spec_log();
            assert(l =~= log0 + spec_full_cia_ops(spec_read_at(l, n), spec_read_at(l, n + 1), spec_read_at(l, n + 2)).subrange(0, 2));
        }
        let nacc = self.read_reg::<regs::IpDiag12>()?;
        let ghost nacc_raw = spec_last_read(self.spec_log());
        proof {
            let l = self.spec_log();
            assert(l =~= log0 + spec_full_cia_ops(spec_read_at(l, n), spec_read_at(l, n + 1), spec_read_at(l, n + 2)));
        }
        proof {
            let l = self.spec_log();
            assert(spec_read_at(l, n) == dgc_raw);
            assert(spec_read_at(l, n + 1) == area_raw);
            assert(spec_read_at(l, n + 2) == nacc_raw);
        }
        proof {
            regs::lemma_diagnostic_field_bounds(dgc.0);
            regs::lemma_diagnostic_field_bounds(nacc.0);
        }
        let count = nacc.ip_nacc();
        let shift: u8 = if recommended_rx_tune_en(prf) {
            dgc.dgc_decision()
        } else {
            0
        };
        if count == 0 {
            return Err(Error::Device(DeviceError::NoAccumulatedPreambles));
        }
        Ok(FullCia { area: area.ip_crea() << ((shift * 2) as u32), count })
    }

    /// Reads the received frame into `psdu`.
    pub fn read_rx_buffer(&mut self, psdu: &mut [u8]) -> (r: Result<(), Error<IF>>)
        requires
            old(psdu)@.len() <= 1024,
        ensures
            r is Err ==> final(self).spec_log() == old(self).spec_log(),
            final(self).spec_otp() == old(self).spec_otp(),
            final(psdu)@.len() == old(psdu)@.len(),
            r is Ok ==> final(self).spec_log() == old(self).spec_log().push(
                BusOp::ReadFast { file_id: 0x12, data: final(psdu)@ },
            ),
            r matches Err(e) ==> e is Interface,
    {
        match FileAccessor::<regs::RxBuffer0>::new().read_fast(&mut self.interface, psdu) {
            Ok(()) => Ok(()),
            Err(e) => Err(from_ral(e)),
        }
    }

    /// Writes the frame to transmit.
    pub fn write_tx_buffer(&mut self, psdu: &[u8]) -> (r: Result<(), Error<IF>>)
        requires
            psdu@.len() <= 1024,
        ensures
            r is Err ==> final(self).spec_log() == old(self).spec_log(),
            final(self).spec_otp() == old(self).spec_otp(),
            r is Ok ==> final(self).spec_log() == old(self).spec_log().push(
                BusOp::WriteFast { file_id: 0x14, data: psdu@ },
            ),
            r matches Err(e) ==> e is Interface,
    {
        match FileAccessor::<regs::TxBuffer>::new().write_fast(&mut self.interface, psdu) {
            Ok(()) => Ok(()),
            Err(e) => Err(from_ral(e)),
        }
    }

    /// Checks the device identity, loads the OTP calibration values and
    /// holds the device in reset; the reset sequence (`begin_reset`,
    /// `release_reset`, `check_spi_ready`) comes first.
    pub fn open(interface: Bus<IF>) -> (r: Result<Self, Error<IF>>)
        ensures
            r matches Err(e) ==> e is Interface || e == Error::<IF>::Device(DeviceError::WrongDevice),
            r matches Ok(d) ==> {
                let log0 = interface.spec_log();
                let n = log0.len() as int;
                let log = d.spec_log();
                &&& log.len() == n + 26
                &&& log.subrange(0, n) == log0
                &&& log[n] == spec_read::<DevId>(spec_read_at(log, n))
                &&& spec_dev_id_ok(spec_read_at(log, n))
                &&& log.subrange(n + 1, n + 25) == spec_otp_load_ops(log, n + 1)
                &&& d.spec_otp() == spec_otp_data(log, n + 1)
                &&& log[n + 25] == BusOp::Reset(true)
            },
    {
        let mut interface = interface;
        let ghost log0 = interface.spec_log();
        check_dev_id(&mut interface)?;
        let ghost log1 = interface.spec_log();
        let otp = load_otp(&mut interface)?;
        let ghost log2 = interface.spec_log();
        match interface.set_reset() {
            Ok(()) => {},
            Err(e) => return Err(Error::Interface(e)),
        }
        proof {
            let log = interface.spec_log();
            let n = log0.len() as int;
            assert(log2.subrange(0, n + 1) == log1);
            assert forall|i: int| 0 <= i < n implies log[i] == log0[i] by {
                assert(log[i] == log2[i]);
                assert(log2.subrange(0, n + 1)[i] == log1[i]);
            }
            assert(log.subrange(0, n) =~= log0);
            assert(log.subrange(n + 1, n + 25) =~= log2.subrange(n + 1, n + 25));
            assert(log2.subrange(n + 1, n + 25) =~= log2.subrange(log1.len() as int, log2.len() as int));
            lemma_otp_log_frame(log2, log, n + 1);
        }
        Ok(Device { interface, otp })
    }

    /// Stops the device from raising the interrupt line on the events of
    /// the high status octets.
    pub fn clear_high_event_mask(&mut self) -> (r: Result<(), Error<IF>>)
        ensures
            r is Err ==> final(self).spec_log() == old(self).spec_log(),
            final(self).spec_otp() == old(self).spec_otp(),
            r is Ok ==> final(self).spec_log() == old(self).spec_log().push(spec_write::<regs::SysEnableHigh>(0)),
            r matches Err(e) ==> e is Interface,
    {
        self.write_raw::<regs::SysEnableHigh>(0)
    }

    /// Selects the channel, SFD and preamble codes.
    pub fn set_channel(&mut self, config: &Config) -> (r: Result<(), Error<IF>>)
        requires
            spec_code_in_range(config.prf, config.rx_code),
            spec_code_in_range(config.prf, config.tx_code),
        ensures
            r is Err ==> final(self).spec_log() == old(self).spec_log(),
            final(self).spec_otp() == old(self).spec_otp(),
            r is Ok ==> final(self).spec_log() == old(self).spec_log().push(
                spec_write::<ChanCtrl>(spec_chan_ctrl(*config)),
            ),
            r matches Err(e) ==> e is Interface,
    {
        let mut w = ChanCtrl::default();
        w.set_rf_chan(config.channel);
        w.set_sfd_type(config.sfd_type);
        w.set_tx_pcode(config.tx_code);
        w.set_rx_pcode(config.rx_code);
        self.write_reg(w)
    }

    /// Loads the LDO tuning from OTP when it was programmed, and sets the
    /// LDO load.
    pub fn configure_ldo(&mut self) -> (r: Result<(), Error<IF>>)
        ensures
            final(self).spec_otp() == old(self).spec_otp(),
            r is Ok ==> final(self).spec_log() == old(self).spec_log() + spec_ldo_ops(old(self).spec_otp()),
            r is Err ==> spec_cut_short(old(self).spec_log(), final(self).spec_log(), spec_ldo_ops(old(self).spec_otp())),
            r matches Err(e) ==> e is Interface,
    {
        let ghost log0 = self.spec_log();
        let ghost ops = spec_ldo_ops(self.otp);
        assert(log0 =~= log0 + ops.subrange(0, 0));
        if self.otp.ldotune_cal_set {
            // Unprogrammed (zero) value can permanently damage the device
            let mut w = regs::OtpCfg::default();
            w.set_ldo_kick(true);
            self.write_reg(w)?;
            assert(self.spec_log() =~= log0 + ops.subrange(0, 1));
        }
        self.write_raw::<regs::LdoRload>(0x14)?;
        proof {
            assert(self.spec_log() =~= log0 + spec_ldo_ops(self.otp));
        }
        Ok(())
    }

    /// Loads the bias tuning from OTP when it was programmed, then copies
    /// the bits the load leaves out.
    pub fn configure_bias(&mut self) -> (r: Result<(), Error<IF>>)
        ensures
            final(self).spec_otp() == old(self).spec_otp(),
            r is Ok ==> {
                let n = old(self).spec_log().len() as int;
                let log = final(self).spec_log();
                log == old(self).spec_log() + spec_bias_ops(old(self).spec_otp(), spec_read_at(log, n + 1))
            },
            r is Err ==> {
                let n = old(self).spec_log().len() as int;
                let log = final(self).spec_log();
                spec_cut_short(old(self).spec_log(), log, spec_bias_ops(old(self).spec_otp(), spec_read_at(log, n + 1)))
            },
            r matches Err(e) ==> e is Interface,
    {
        let ghost log0 = self.spec_log();
        let ghost n = log0.len() as int;
        if self.otp.bias_tune_byte2 != 0 {
            assert(log0 =~= log0 + spec_bias_ops(self.otp, spec_read_at(log0, n + 1)).subrange(0, 0));
            let mut w = regs::OtpCfg::default();
            w.set_bias_kick(true);
            self.write_reg(w)?;
            proof {
                let l = self.spec_log();
                assert(l =~= log0 + spec_bias_ops(self.otp, spec_read_at(l, n + 1)).subrange(0, 1));
            }
            // The kick procedure does not copy all bits, see
            // https://gist.github.com/egnor/455d510e11c22deafdec14b09da5bf54
            // https://forum.qorvo.com/t/missing-and-ambiguous-information-in-dw3000-user-manual/11339/6
            let mut b = self.read_reg::<regs::BiasCtrl>()?;
            let ghost raw = spec_last_read(self.spec_log());
            proof {
                let l = self.spec_log();
                assert(spec_read_at(l, n + 1) == raw);
                assert(l =~= log0 + spec_bias_ops(self.otp, raw).subrange(0, 2));
            }
            b.set_manual_bits(self.otp.bias_tune_byte2 & 0x1f);
            self.write_reg(b)?;
            proof {
                let log = self.spec_log();
                assert(spec_read_at(log, log0.len() as int + 1) == raw);
                assert(log =~= log0 + spec_bias_ops(self.otp, raw));
            }
        } else {
            proof {
                assert(self.spec_log() =~= log0 + spec_bias_ops(self.otp, 0));
            }
        }
        Ok(())
    }

    /// Sets the crystal trim from OTP, or the default trim when none was
    /// programmed.
    pub fn configure_xtal_trim(&mut self) -> (r: Result<(), Error<IF>>)
        ensures
            final(self).spec_otp() == old(self).spec_otp(),
            r is Ok ==> final(self).spec_log() == old(self).spec_log().push(
                spec_write::<regs::Xtal>(
                    spec_with_field(
                        0,
                        0,
                        6,
                        (if old(self).spec_otp().xtal_trim != 0 {
                            old(self).spec_otp().xtal_trim
                        } else {
                            DEFAULT_TRIM_VALUE
                        }) as u64,
                    ),
                ),
            ),
            r is Err ==> final(self).spec_log() == old(self).spec_log(),
            r matches Err(e) ==> e is Interface,
    {
        let trim_value = if self.otp.xtal_trim != 0 {
            self.otp.xtal_trim
        } else {
            DEFAULT_TRIM_VALUE
        };
        let mut w = regs::Xtal::default();
        w.set_xtal_trim(trim_value);
        self.write_reg(w)
    }

    /// Sets the SFD detection timeout: the longest preamble, less one
    /// acquisition chunk, plus the SFD and one symbol (user manual 8.2.7.2).
    pub fn set_sfd_timeout(&mut self, pac_size: PacSize, sfd_type: SfdType, max_psr: phy::Psr) -> (r: Result<(), Error<IF>>)
        ensures
            r is Err ==> final(self).spec_log() == old(self).spec_log(),
            final(self).spec_otp() == old(self).spec_otp(),
            r is Ok ==> final(self).spec_log() == old(self).spec_log().push(
                spec_write::<regs::RxSfdToc>(spec_sfd_timeout(pac_size, sfd_type, max_psr) as u64),
            ),
            r matches Err(e) ==> e is Interface,
    {
        let max_psr = max_psr.as_symbols();
        let pac_size = pac_symbols(pac_size);
        let sfd_length = sfd_type.as_symbols();
        let longest = if max_psr > pac_size {
            max_psr
        } else {
            pac_size
        };
        let symbols = longest - pac_size + sfd_length + 1;
        self.write_raw::<regs::RxSfdToc>(symbols as u64)
    }

    /// Enables the diagnostics of the channel impulse response analyser.
    pub fn set_diagnostic_enable(&mut self, value: bool) -> (r: Result<(), Error<IF>>)
        ensures
            r is Err ==> final(self).spec_log() == old(self).spec_log(),
            final(self).spec_otp() == old(self).spec_otp(),
            r is Ok ==> final(self).spec_log() == old(self).spec_log().push(
                spec_write::<regs::CiaConfByte2>(spec_with_bit(0, 4, !value)),
            ),
            r matches Err(e) ==> e is Interface,
    {
        let mut w = regs::CiaConfByte2::default();
        w.set_mindiag(!value);
        self.write_reg(w)
    }

    /// Writes the system configuration for `config`.
    pub fn set_sys_cfg(&mut self, config: &Config) -> (r: Result<(), Error<IF>>)
        ensures
            r is Err ==> final(self).spec_log() == old(self).spec_log(),
            final(self).spec_otp() == old(self).spec_otp(),
            r is Ok ==> final(self).spec_log() == old(self).spec_log().push(
                spec_write::<regs::SysCfg>(spec_sys_cfg(*config)),
            ),
            r matches Err(e) ==> e is Interface,
    {
        let mut w = regs::SysCfg::default();
        w.set_dis_fcs_tx(!config.correct_tx_fcs);
        w.set_phr_mode(config.frame_format);
        w.set_phr_6m8(config.bit_rate == BitRate::Kbs6810Only);
        w.set_cia_ipatov(config.cia_enable);
        w.set_cia_sts(false);
        w.set_rxwtoe(true);  // Receive Wait Timeout Enable
        w.set_cp_spc(regs::StsPocketPosition::NoSts);
        w.set_fast_aat(false);  // RXFR waits for CIADONE or CIAERR
        self.write_reg(w)
    }

    /// First part of the PLL start: programs the PLL for `channel`, with
    /// the OTP lock code when there is one, and lets the device switch to
    /// IDLE once the PLL locks, which raises CPLOCK. The caller then waits
    /// up to `PLL_LOCK_TIMEOUT_US` for the interrupt and hands the outcome to
    /// `finish_pll`.
    pub fn begin_pll(&mut self, channel: Channel) -> (r: Result<(), Error<IF>>)
        ensures
            final(self).spec_otp() == old(self).spec_otp(),
            r is Ok ==> {
                let n = old(self).spec_log().len() as int;
                let log = final(self).spec_log();
                log == old(self).spec_log() + spec_pll_ops(
                    old(self).spec_otp(),
                    channel,
                    spec_read_at(log, n + 1),
                    spec_read_at(log, n + if old(self).spec_otp().pll_lock_code != 0 { 5int } else { 3int }),
                )
            },
            r is Err ==> {
                let n = old(self).spec_log().len() as int;
                let log = final(self).spec_log();
                spec_cut_short(
                    old(self).spec_log(),
                    log,
                    spec_pll_ops(
                        old(self).spec_otp(),
                        channel,
                        spec_read_at(log, n + 1),
                        spec_read_at(log, n + if old(self).spec_otp().pll_lock_code != 0 { 5int } else { 3int }),
                    ),
                )
            },
            r matches Err(e) ==> e is Interface,
    {
        let ghost log0 = self.spec_log();
        let ghost n = log0.len() as int;
        let ghost k: int = if self.otp.pll_lock_code != 0 { 5int } else { 3int };
        proof {
            let l = self.spec_log();
            assert(l =~= log0 + spec_pll_ops(self.otp, channel, spec_read_at(l, n + 1), spec_read_at(l, n + k)).subrange(0, 0));
        }
        self.write_raw::<regs::PllCfg>(
            match channel {
                Channel::Channel5 => 0x1F3C,
                Channel::Channel9 => 0x0F3C,
            },
        )?;
        proof {
            let l = self.spec_log();
            assert(l =~= log0 + spec_pll_ops(self.otp, channel, spec_read_at(l, n + 1), spec_read_at(l, n + k)).subrange(0, 1));
        }
        // Note, user manual prescribes such logic, however API skips it
        let ghost mut cc: u64 = 0;
        let ghost mut j: int = 1;
        if self.otp.pll_lock_code != 0 {
            let mut w = self.read_reg::<regs::PllCc>()?;
            proof {
                cc = spec_last_read(self.spec_log());
                let l = self.spec_log();
                assert(spec_read_at(l, n + 1) == cc);
                assert(l =~= log0 + spec_pll_ops(self.otp, channel, cc, spec_read_at(l, n + k)).subrange(0, 2));
            }
            w.set_code(self.otp.pll_lock_code);
            self.write_reg(w)?;
            proof {
                j = 3;
                let l = self.spec_log();
                assert(spec_read_at(l, n + 1) == cc);
                assert(l =~= log0 + spec_pll_ops(self.otp, channel, cc, spec_read_at(l, n + k)).subrange(0, 3));
            }
        }
        let mut w = regs::PllCal::default();
        w.set_pll_cfg_ld(0x8);
        w.set_use_old(self.otp.pll_lock_code != 0);
        self.write_reg(w)?;
        proof {
            let l = self.spec_log();
            assert(l =~= log0 + spec_pll_ops(self.otp, channel, spec_read_at(l, n + 1), spec_read_at(l, n + k)).subrange(0, j + 1));
        }
        // Allow switch to IDLE
        let cplock = Events::from_bits_truncate(Events::CPLOCK);
        proof { lemma_event_constants(); }
        self.clear_events(cplock)?;
        proof {
            let l = self.spec_log();
            assert(l =~= log0 + spec_pll_ops(self.otp, channel, spec_read_at(l, n + 1), spec_read_at(l, n + k)).subrange(0, j + 2));
        }
        let mut w = self.read_reg::<regs::SeqCtrl>()?;
        let ghost seq = spec_last_read(self.spec_log());
        proof {
            let l = self.spec_log();
            assert(spec_read_at(l, n + k) == seq);
            assert(l =~= log0 + spec_pll_ops(self.otp, channel, spec_read_at(l, n + 1), seq).subrange(0, j + 3));
        }
        w.set_ainit2idle(true);
        self.write_reg(w)?;
        proof {
            let l = self.spec_log();
            assert(spec_read_at(l, n + k) == seq);
            assert(l =~= log0 + spec_pll_ops(self.otp, channel, spec_read_at(l, n + 1), seq).subrange(0, j + 4));
        }
        self.set_event_mask(cplock)?;
        proof {
            let log = self.spec_log();
            let k = if self.otp.pll_lock_code != 0 { 5int } else { 3int };
            assert(spec_read_at(log, n + k) == seq);
            if self.otp.pll_lock_code != 0 {
                assert(spec_read_at(log, n + 1) == cc);
                assert(log =~= log0 + spec_pll_ops(self.otp, channel, cc, seq));
            } else {
                assert(log =~= log0 + spec_pll_ops(self.otp, channel, spec_read_at(log, n + 1), seq));
            }
        }
        Ok(())
    }

    /// Second part of the PLL start: whether the PLL locked in time.
    pub fn finish_pll(&self, locked: bool) -> (r: Result<(), Error<IF>>)
        ensures
            r is Ok <==> locked,
            r is Err ==> r == Err::<(), Error<IF>>(Error::Device(DeviceError::PllLockTimeout)),
    {
        if !locked {
            return Err(Error::Device(DeviceError::PllLockTimeout));
        }
        Ok(())
    }

    /// Sets the receiver tuning, operating parameters, digital tuning, the
    /// analog RF settings and the transmit power for `config`.
    pub fn configure_rf(&mut self, config: &Config) -> (r: Result<(), Error<IF>>)
        ensures
            final(self).spec_otp() == old(self).spec_otp(),
            r is Ok ==> final(self).spec_log() == old(self).spec_log() + spec_rf_ops(old(self).spec_otp(), *config),
            r is Err ==> spec_cut_short(old(self).spec_log(), final(self).spec_log(), spec_rf_ops(old(self).spec_otp(), *config)),
            r matches Err(e) ==> e is Interface,
    {
        let ghost log0 = self.spec_log();
        let ghost a = spec_rx_tune_ops(self.otp, config.channel);
        let ghost b = spec_tuning_ops(*config);
        let ghost c = spec_rf_rx_ops(config.channel);
        let ghost d = spec_rf_tx_ops(*config);
        assert(spec_rf_ops(self.otp, *config) == a + b + c + d);
        match self.configure_rx_tune(config.channel) {
            Ok(()) => {},
            Err(e) => {
                proof {
                    assert(log0 + Seq::<BusOp>::empty() =~= log0);
                    lemma_cut_short_after(log0, Seq::empty(), self.spec_log(), a, b + c + d);
                    assert(Seq::<BusOp>::empty() + a + (b + c + d) =~= a + b + c + d);
                }
                return Err(e);
            },
        }
        let ghost log1 = self.spec_log();
        match self.configure_tuning(config) {
            Ok(()) => {},
            Err(e) => {
                proof {
                    lemma_cut_short_after(log0, a, self.spec_log(), b, c + d);
                    assert(a + b + (c + d) =~= a + b + c + d);
                }
                return Err(e);
            },
        }
        let ghost log2 = self.spec_log();
        // User manual does not describe this register, however API changes its value
        if config.channel == Channel::Channel9 {
            match self.write_raw::<regs::RfRxCtrlHi>(0x08b5_a833) {
                Ok(()) => {},
                Err(e) => {
                    proof {
                        let log = self.spec_log();
                        assert(log =~= log0 + (a + b + c + d).subrange(0, (a + b).len() as int));
                    }
                    return Err(e);
                },
            }
        }
        let ghost log3 = self.spec_log();
        assert(log3 =~= log0 + (a + b + c));
        match self.configure_rf_tx(config) {
            Ok(()) => {},
            Err(e) => {
                proof {
                    lemma_cut_short_after(log0, a + b + c, self.spec_log(), d, Seq::empty());
                    assert(a + b + c + d + Seq::<BusOp>::empty() =~= a + b + c + d);
                }
                return Err(e);
            },
        }
        proof {
            assert(log3 =~= log2 + spec_rf_rx_ops(config.channel));
            assert(self.spec_log() =~= log0 + spec_rf_ops(self.otp, *config));
        }
        Ok(())
    }

    fn configure_rx_tune(&mut self, channel: Channel) -> (r: Result<(), Error<IF>>)
        ensures
            final(self).spec_otp() == old(self).spec_otp(),
            r is Ok ==> final(self).spec_log() == old(self).spec_log() + spec_rx_tune_ops(old(self).spec_otp(), channel),
            r is Err ==> spec_cut_short(old(self).spec_log(), final(self).spec_log(), spec_rx_tune_ops(old(self).spec_otp(), channel)),
            r matches Err(e) ==> e is Interface,
    {
        let ghost log0 = self.spec_log();
        let ghost ops = spec_rx_tune_ops(self.otp, channel);
        assert(log0 =~= log0 + ops.subrange(0, 0));
        if self.otp.rx_tune_set {
            let mut w = regs::OtpCfg::default();
            w.set_dgc_sel(channel);
            w.set_dgc_kick(true);
            self.write_reg(w)?;
        } else {
            let cfg = rx_tune_dgc_cfg_head();
            match FileAccessor::<regs::DgcCfgLut>::new().write(&mut self.interface, 0, &cfg) {
                Ok(()) => {},
                Err(e) => return Err(from_ral(e)),
            }
            assert(self.spec_log() =~= log0 + ops.subrange(0, 1));
            let lut = rx_tune_dgc_lut(channel);
            match FileAccessor::<regs::DgcLut>::new().write(&mut self.interface, 0, &lut) {
                Ok(()) => {},
                Err(e) => return Err(from_ral(e)),
            }
        }
        proof {
            assert(self.spec_log() =~= log0 + spec_rx_tune_ops(self.otp, channel));
        }
        Ok(())
    }

    fn configure_tuning(&mut self, config: &Config) -> (r: Result<(), Error<IF>>)
        ensures
            final(self).spec_otp() == old(self).spec_otp(),
            r is Ok ==> final(self).spec_log() == old(self).spec_log() + spec_tuning_ops(*config),
            r is Err ==> spec_cut_short(old(self).spec_log(), final(self).spec_log(), spec_tuning_ops(*config)),
            r matches Err(e) ==> e is Interface,
    {
        let ghost log0 = self.spec_log();
        let ghost ops = spec_tuning_ops(*config);
        assert(log0 =~= log0 + ops.subrange(0, 0));
        let mut w = regs::OtpCfg::default();
        // Check DW3000 User Manual section 8.2.12.7 for details
        w.set_ops_sel(
            if psr_is_long(config.rx_psr) {
                regs::ReceiverParameterSet::Long
            } else {
                regs::ReceiverParameterSet::Short
            },
        );
        w.set_ops_kick(true);
        self.write_reg(w)?;
        assert(self.spec_log() =~= log0 + ops.subrange(0, 1));
        let mut w = regs::DgcCfg::default();
        w.set_rx_tune_en(recommended_rx_tune_en(config.prf));
        w.set_thr_64(0x32);
        self.write_reg(w)?;
        assert(self.spec_log() =~= log0 + ops.subrange(0, 2));
        let mut w = regs::Dtune0::default();
        w.set_pac(config.pac_size);
        w.set_dt0b4(true);
        self.write_reg(w)?;
        // User manual prescribes to always set new value, however API updates it for no-data STS only
        assert(self.spec_log() =~= log0 + ops.subrange(0, 3));
        self.write_raw::<regs::Dtune3>(0xaf5f_35cc)?;
        proof {
            assert(self.spec_log() =~= log0 + spec_tuning_ops(*config));
        }
        Ok(())
    }

    fn configure_rf_tx(&mut self, config: &Config) -> (r: Result<(), Error<IF>>)
        ensures
            final(self).spec_otp() == old(self).spec_otp(),
            r is Ok ==> final(self).spec_log() == old(self).spec_log() + spec_rf_tx_ops(*config),
            r is Err ==> spec_cut_short(old(self).spec_log(), final(self).spec_log(), spec_rf_tx_ops(*config)),
            r matches Err(e) ==> e is Interface,
    {
        let ghost log0 = self.spec_log();
        let ghost ops = spec_rf_tx_ops(*config);
        assert(log0 =~= log0 + ops.subrange(0, 0));
        self.write_raw::<regs::RfTxCtrl1>(0x0e)?;
        assert(self.spec_log() =~= log0 + ops.subrange(0, 1));
        self.write_raw::<regs::RfTxCtrl2>(
            match config.channel {
                Channel::Channel5 => 0x1C071134,
                Channel::Channel9 => 0x1C010034,
            },
        )?;
        assert(self.spec_log() =~= log0 + ops.subrange(0, 2));
        let mut w = regs::TxPower::default();
        w.set_data_pwr(config.tx_power.data.0);
        w.set_phr_pwr(config.tx_power.phr.0);
        w.set_shr_pwr(config.tx_power.shr.0);
        w.set_sts_pwr(config.tx_power.sts.0);
        self.write_reg(w)?;
        proof {
            assert(self.spec_log() =~= log0 + spec_rf_tx_ops(*config));
        }
        Ok(())
    }

    /// First part of the receiver calibration: forces the LDOs it needs on,
    /// clears the status and starts the calibration. Gives the LDO control
    /// value to restore.
    pub fn begin_rx_calibration(&mut self) -> (r: Result<regs::LdoCtrl, Error<IF>>)
        ensures
            final(self).spec_otp() == old(self).spec_otp(),
            r matches Ok(ldo) ==> {
                let n = old(self).spec_log().len() as int;
                let log = final(self).spec_log();
                &&& ldo.0 == spec_read_at(log, n) & 0xffff_ffff
                &&& log == old(self).spec_log() + spec_calibration_start_ops(spec_read_at(log, n))
            },
            r is Err ==> spec_cut_short(
                old(self).spec_log(),
                final(self).spec_log(),
                spec_calibration_start_ops(spec_read_at(final(self).spec_log(), old(self).spec_log().len() as int)),
            ),
            r matches Err(e) ==> e is Interface,
    {
        let ghost log0 = self.spec_log();
        let ghost n = log0.len() as int;
        assert(log0 =~= log0 + spec_calibration_start_ops(spec_read_at(log0, n)).subrange(0, 0));
        // Force enable LDO for calibration, see
        // https://gist.github.com/egnor/455d510e11c22deafdec14b09da5bf54#receiver-calibration
        let ldo_ctrl_orig = self.read_reg::<regs::LdoCtrl>()?;
        let ghost raw = spec_last_read(self.spec_log());
        let ghost ops = spec_calibration_start_ops(raw);
        assert(spec_read_at(self.spec_log(), n) == raw);
        assert(self.spec_log() =~= log0 + ops.subrange(0, 1));
        let mut w = ldo_ctrl_orig;
        w.set_vddif2_en(true);
        w.set_vddms3_en(true);
        w.set_vddms1_en(true);
        self.write_reg(w)?;
        assert(spec_read_at(self.spec_log(), n) == raw);
        assert(self.spec_log() =~= log0 + ops.subrange(0, 2));
        match Accessor::<regs::RxCalSts>::new().clear_bytes(&mut self.interface, CalStatus::CAL_DONE as u64) {
            Ok(()) => {},
            Err(e) => return Err(from_ral(e)),
        }
        assert(spec_read_at(self.spec_log(), n) == raw);
        assert(self.spec_log() =~= log0 + ops.subrange(0, 3));
        let mut w = regs::RxCal::default();
        w.set_cal_mode(regs::CalibrationMode::Calibration);
        w.set_comp_dly(0x2);
        w.set_cal_en(true);
        self.write_reg(w)?;
        proof {
            let log = self.spec_log();
            assert(spec_read_at(log, log0.len() as int) == raw);
            assert(log =~= log0 + spec_calibration_start_ops(raw));
        }
        Ok(ldo_ctrl_orig)
    }

    /// The calibration status.
    pub fn read_rx_calibration_status(&mut self) -> (r: Result<CalStatus, Error<IF>>)
        ensures
            final(self).spec_otp() == old(self).spec_otp(),
            r matches Ok(st) ==> {
                let raw = spec_last_read(final(self).spec_log());
                &&& final(self).spec_log() == old(self).spec_log().push(spec_read::<regs::RxCalSts>(raw))
                &&& st@ == (raw as u8) & 1
            },
            r is Err ==> final(self).spec_log() == old(self).spec_log(),
            r matches Err(e) ==> e is Interface,
    {
        let v = self.read_raw::<regs::RxCalSts>()?;
        proof {
            assert(spec_last_read(self.spec_log()) == v);
        }
        Ok(CalStatus::from_bits_truncate(v as u8))
    }

    /// Last part of the receiver calibration: back to normal operation,
    /// the results read, the LDO control restored, and the outcome judged
    /// from the final `status` and the results.
    pub fn finish_rx_calibration(&mut self, ldo_ctrl_orig: regs::LdoCtrl, status: CalStatus) -> (r: Result<(), Error<IF>>)
        ensures
            final(self).spec_otp() == old(self).spec_otp(),
            r matches Err(e) ==> e is Interface || e == Error::<IF>::Device(DeviceError::RxCalibrationTimeout)
                || e == Error::<IF>::Device(DeviceError::RxCalibrationFailure),
            (r is Ok || r matches Err(Error::Device(_))) ==> {
                let n = old(self).spec_log().len() as int;
                let log = final(self).spec_log();
                let resi = spec_field(spec_read_at(log, n + 2) & 0xffff_ffff, 0, 29) as u32;
                let resq = spec_field(spec_read_at(log, n + 3) & 0xffff_ffff, 0, 29) as u32;
                &&& log == old(self).spec_log() + spec_calibration_end_ops(
                    spec_read_at(log, n),
                    spec_read_at(log, n + 2),
                    spec_read_at(log, n + 3),
                    ldo_ctrl_orig.0,
                )
                &&& r == if status@ & 1 != 1 {
                    Err::<(), Error<IF>>(Error::Device(DeviceError::RxCalibrationTimeout))
                } else if resi == CALIBRATION_FAILURE_MARKER || resq == CALIBRATION_FAILURE_MARKER {
                    Err::<(), Error<IF>>(Error::Device(DeviceError::RxCalibrationFailure))
                } else {
                    Ok::<(), Error<IF>>(())
                }
            },
            (r matches Err(e) && e is Interface) ==> {
                let n = old(self).spec_log().len() as int;
                let log = final(self).spec_log();
                spec_cut_short(
                    old(self).spec_log(),
                    log,
                    spec_calibration_end_ops(
                        spec_read_at(log, n),
                        spec_read_at(log, n + 2),
                        spec_read_at(log, n + 3),
                        ldo_ctrl_orig.0,
                    ),
                )
            },
    {
        let ghost log0 = self.spec_log();
        let ghost n = log0.len() as int;
        assert(log0 =~= log0 + spec_calibration_end_ops(
            spec_read_at(log0, n),
            spec_read_at(log0, n + 2),
            spec_read_at(log0, n + 3),
            ldo_ctrl_orig.0,
        ).subrange(0, 0));
        let mut w = self.read_reg::<regs::RxCal>()?;
        let ghost cal = spec_last_read(self.spec_log());
        proof {
            let log = self.spec_log();
            assert(spec_read_at(log, n) == cal);
            assert(log =~= log0 + spec_calibration_end_ops(
                cal,
                spec_read_at(log, n + 2),
                spec_read_at(log, n + 3),
                ldo_ctrl_orig.0,
            ).subrange(0, 1));
        }
        w.set_cal_mode(regs::CalibrationMode::NormalOperation);
        w.set_comp_dly(0x3);  // enable readying of RESI/Q
        w.set_cal_en(false);
        self.write_reg(w)?;
        proof {
            let log = self.spec_log();
            assert(spec_read_at(log, n) == cal);
            assert(log =~= log0 + spec_calibration_end_ops(
                cal,
                spec_read_at(log, n + 2),
                spec_read_at(log, n + 3),
                ldo_ctrl_orig.0,
            ).subrange(0, 2));
        }
        let resi_reg = self.read_reg::<regs::RxCalResi>()?;
        let ghost ri = spec_last_read(self.spec_log());
        proof {
            let log = self.spec_log();
            assert(spec_read_at(log, n) == cal);
            assert(spec_read_at(log, n + 2) == ri);
            assert(log =~= log0 + spec_calibration_end_ops(
                cal,
                ri,
                spec_read_at(log, n + 3),
                ldo_ctrl_orig.0,
            ).subrange(0, 3));
        }
        let resq_reg = self.read_reg::<regs::RxCalResq>()?;
        let ghost rq = spec_last_read(self.spec_log());
        proof {
            let log = self.spec_log();
            assert(spec_read_at(log, n) == cal);
            assert(spec_read_at(log, n + 2) == ri);
            assert(spec_read_at(log, n + 3) == rq);
            assert(log =~= log0 + spec_calibration_end_ops(cal, ri, rq, ldo_ctrl_orig.0).subrange(0, 4));
        }
        let resi = resi_reg.resi();
        let resq = resq_reg.resq();
        // restore LDO control
        self.write_reg(ldo_ctrl_orig)?;
        proof {
            let log = self.spec_log();
            let n = log0.len() as int;
            assert(spec_read_at(log, n) == cal);
            assert(spec_read_at(log, n + 2) == ri);
            assert(spec_read_at(log, n + 3) == rq);
            assert(log =~= log0 + spec_calibration_end_ops(cal, ri, rq, ldo_ctrl_orig.0));
        }
        proof { lemma_event_constants(); }
        if !status.contains(CalStatus::from_bits_truncate(CalStatus::CAL_DONE)) {
            return Err(Error::Device(DeviceError::RxCalibrationTimeout));
        }
        if resi == CALIBRATION_FAILURE_MARKER || resq == CALIBRATION_FAILURE_MARKER {
            return Err(Error::Device(DeviceError::RxCalibrationFailure));
        }
        Ok(())
    }
}




/// Microseconds the PLL is given to lock.
pub const PLL_LOCK_TIMEOUT_US: u32 = 150_000;

/// Period of the receiver calibration status polls, in microseconds.
pub const RX_CALIBRATION_POLL_PERIOD_US: u32 = 20_000;

/// Microseconds the receiver calibration is given.
pub const RX_CALIBRATION_TIMEOUT_US: u32 = 60_000;

/// Calibration result that marks a failed calibration.
pub const CALIBRATION_FAILURE_MARKER: u32 = 0x1fff_ffff;

/// Microseconds the reset line is held.
pub const RESET_DELAY_US: u32 = 1_000;

/// Microseconds the device is given to signal SPI readiness after reset;
/// initialization used to last 1200us.
pub const XTAL_WAKE_UP_TIMEOUT_US: u32 = 2_000;

/// The operations of `begin_pll`: `cc` is the PLL_CC value read when a lock
/// code is programmed, `seq` the SEQ_CTRL value read.
pub open spec fn spec_pll_ops(otp: OtpData, channel: Channel, cc: u64, seq: u64) -> Seq<BusOp> {
    seq![spec_write::<regs::PllCfg>(
        match channel {
            Channel::Channel5 => 0x1F3C,
            Channel::Channel9 => 0x0F3C,
        },
    )] + (if otp.pll_lock_code != 0 {
        seq![
            spec_read::<regs::PllCc>(cc),
            spec_write::<regs::PllCc>(spec_with_field(cc & 0xffff_ffff, 0, 22, otp.pll_lock_code as u64)),
        ]
    } else {
        Seq::empty()
    }) + seq![
        spec_write::<regs::PllCal>(spec_with_bit(spec_with_field(0x0031, 4, 8, 0x8), 1, otp.pll_lock_code != 0)),
        spec_write::<SysStatusLow>(Events::CPLOCK as u64),
        spec_read::<regs::SeqCtrl>(seq),
        spec_write::<regs::SeqCtrl>(spec_with_bit(seq & 0xffff_ffff, 8, true)),
        spec_write::<SysEnableLow>(Events::CPLOCK as u64),
    ]
}

/// Whether a preamble length takes the long-preamble receiver parameters.
pub open spec fn spec_psr_is_long(psr: phy::Psr) -> bool {
    !(psr is Symbols16 || psr is Symbols32 || psr is Symbols64 || psr is Symbols128)
}

fn psr_is_long(psr: phy::Psr) -> (r: bool)
    ensures
        r == spec_psr_is_long(psr),
{
    match psr {
        phy::Psr::Symbols16 | phy::Psr::Symbols32 | phy::Psr::Symbols64 | phy::Psr::Symbols128 => false,
        _ => true,
    }
}

/// The first eight octets of the receiver tuning configuration table.
pub open spec fn spec_rx_tune_dgc_cfg_head() -> Seq<u8> {
    seq![0x40u8, 0x02, 0x00, 0x10, 0x89, 0xa4, 0x6d, 0x1b]
}

fn rx_tune_dgc_cfg_head() -> (r: [u8; 8])
    ensures
        r@ == spec_rx_tune_dgc_cfg_head(),
{
    let r = [0x40u8, 0x02, 0x00, 0x10, 0x89, 0xa4, 0x6d, 0x1b];
    assert(r@ =~= spec_rx_tune_dgc_cfg_head());
    r
}

/// The receiver gain table of a channel.
pub open spec fn spec_rx_tune_dgc_lut(channel: Channel) -> Seq<u8> {
    match channel {
        Channel::Channel5 => seq![
            0xfdu8, 0xc0, 0x01, 0x00,
            0x3e, 0xc4, 0x01, 0x00,
            0xbe, 0xc6, 0x01, 0x00,
            0x7e, 0xc7, 0x01, 0x00,
            0x36, 0xcf, 0x01, 0x00,
            0xb5, 0xcf, 0x01, 0x00,
            0xf5, 0xcf, 0x01, 0x00,
        ],
        Channel::Channel9 => seq![
            0xfeu8, 0xa8, 0x02, 0x00,
            0x36, 0xac, 0x02, 0x00,
            0xfe, 0xa5, 0x02, 0x00,
            0x3e, 0xaf, 0x02, 0x00,
            0x7d, 0xaf, 0x02, 0x00,
            0xb5, 0xaf, 0x02, 0x00,
            0xb5, 0xaf, 0x02, 0x00,
        ],
    }
}

fn rx_tune_dgc_lut(channel: Channel) -> (r: [u8; 28])
    ensures
        r@ == spec_rx_tune_dgc_lut(channel),
{
    match channel {
        Channel::Channel5 => {
            let r = [
                0xfdu8, 0xc0, 0x01, 0x00,
                0x3e, 0xc4, 0x01, 0x00,
                0xbe, 0xc6, 0x01, 0x00,
                0x7e, 0xc7, 0x01, 0x00,
                0x36, 0xcf, 0x01, 0x00,
                0xb5, 0xcf, 0x01, 0x00,
                0xf5, 0xcf, 0x01, 0x00,
            ];
            assert(r@ =~= spec_rx_tune_dgc_lut(channel));
            r
        },
        Channel::Channel9 => {
            let r = [
                0xfeu8, 0xa8, 0x02, 0x00,
                0x36, 0xac, 0x02, 0x00,
                0xfe, 0xa5, 0x02, 0x00,
                0x3e, 0xaf, 0x02, 0x00,
                0x7d, 0xaf, 0x02, 0x00,
                0xb5, 0xaf, 0x02, 0x00,
                0xb5, 0xaf, 0x02, 0x00,
            ];
            assert(r@ =~= spec_rx_tune_dgc_lut(channel));
            r
        },
    }
}

/// The receiver tuning operations of `configure_rf`: the OTP tuning load
/// when it is programmed, else the tables written.
pub open spec fn spec_rx_tune_ops(otp: OtpData, channel: Channel) -> Seq<BusOp> {
    if otp.rx_tune_set {
        seq![spec_write::<regs::OtpCfg>(spec_with_bit(spec_with_field(0, 13, 14, channel.spec_code()), 6, true))]
    } else {
        seq![
            BusOp::Write { address: crate::dw3000::interface::spec_full_address(0x03, 0x1c), data: spec_rx_tune_dgc_cfg_head() },
            BusOp::Write { address: crate::dw3000::interface::spec_full_address(0x03, 0x38), data: spec_rx_tune_dgc_lut(channel) },
        ]
    }
}

/// The operating parameter and digital tuning operations of
/// `configure_rf`.
pub open spec fn spec_tuning_ops(config: Config) -> Seq<BusOp> {
    seq![
        spec_write::<regs::OtpCfg>(
            spec_with_bit(
                spec_with_field(
                    0,
                    11,
                    13,
                    (if spec_psr_is_long(config.rx_psr) {
                        regs::ReceiverParameterSet::Long
                    } else {
                        regs::ReceiverParameterSet::Short
                    }).spec_code(),
                ),
                10,
                true,
            ),
        ),
        spec_write::<regs::DgcCfg>(
            spec_with_field(spec_with_bit(0xf0f5, 0, spec_recommended_rx_tune_en(config.prf)), 9, 14, 0x32),
        ),
        spec_write::<regs::Dtune0>(spec_with_bit(spec_with_field(0x101c, 0, 2, config.pac_size.spec_code()), 4, true)),
        spec_write::<regs::Dtune3>(0xaf5f_35cc),
    ]
}

/// The receiver RF operation of `configure_rf`, on channel 9 only.
pub open spec fn spec_rf_rx_ops(channel: Channel) -> Seq<BusOp> {
    if channel == Channel::Channel9 {
        seq![spec_write::<regs::RfRxCtrlHi>(0x08b5_a833)]
    } else {
        Seq::empty()
    }
}

/// The transmitter RF and power operations of `configure_rf`.
pub open spec fn spec_rf_tx_ops(config: Config) -> Seq<BusOp> {
    seq![
        spec_write::<regs::RfTxCtrl1>(0x0e),
        spec_write::<regs::RfTxCtrl2>(
            match config.channel {
                Channel::Channel5 => 0x1C071134,
                Channel::Channel9 => 0x1C010034,
            },
        ),
        spec_write::<regs::TxPower>(
            spec_with_field(
                spec_with_field(
                    spec_with_field(
                        spec_with_field(0x8282_8282, 0, 8, config.tx_power.data.0 as u64),
                        8,
                        16,
                        config.tx_power.phr.0 as u64,
                    ),
                    16,
                    24,
                    config.tx_power.shr.0 as u64,
                ),
                24,
                32,
                config.tx_power.sts.0 as u64,
            ),
        ),
    ]
}

/// The operations of `configure_rf`.
pub open spec fn spec_rf_ops(otp: OtpData, config: Config) -> Seq<BusOp> {
    spec_rx_tune_ops(otp, config.channel) + spec_tuning_ops(config) + spec_rf_rx_ops(config.channel) + spec_rf_tx_ops(
        config,
    )
}

/// The operations of `begin_rx_calibration`, `ldo` being the LDO_CTRL value
/// read.
pub open spec fn spec_calibration_start_ops(ldo: u64) -> Seq<BusOp> {
    seq![
        spec_read::<regs::LdoCtrl>(ldo),
        spec_write::<regs::LdoCtrl>(spec_with_bit(spec_with_bit(spec_with_bit(ldo & 0xffff_ffff, 8, true), 2, true), 0, true)),
        spec_write::<regs::RxCalSts>(CalStatus::CAL_DONE as u64),
        spec_write::<regs::RxCal>(
            spec_with_bit(spec_with_field(spec_with_field(0, 0, 2, regs::CalibrationMode::Calibration.spec_code()), 16, 20, 0x2), 4, true),
        ),
    ]
}

/// The operations of `finish_rx_calibration`: `cal` is the RX_CAL value
/// read, `resi` and `resq` the results read, `ldo` the LDO control
/// restored.
pub open spec fn spec_calibration_end_ops(cal: u64, resi: u64, resq: u64, ldo: u64) -> Seq<BusOp> {
    seq![
        spec_read::<regs::RxCal>(cal),
        spec_write::<regs::RxCal>(
            spec_with_bit(
                spec_with_field(
                    spec_with_field(cal & 0xffff_ffff, 0, 2, regs::CalibrationMode::NormalOperation.spec_code()),
                    16,
                    20,
                    0x3,
                ),
                4,
                false,
            ),
        ),
        spec_read::<regs::RxCalResi>(resi),
        spec_read::<regs::RxCalResq>(resq),
        spec_write::<regs::LdoCtrl>(ldo),
    ]
}

/// `log` is `before` followed by the first operations of `record`, but not
/// all of them: the record of an operation cut short by an interface error.
pub open spec fn spec_cut_short(before: Seq<BusOp>, log: Seq<BusOp>, record: Seq<BusOp>) -> bool {
    &&& before.len() <= log.len() < before.len() + record.len()
    &&& log == before + record.subrange(0, log.len() - before.len())
}

/// `log` is `before` followed by the first `k` operations of `record`, with
/// `k` short of all of them, and `record` starts with `head`.
pub proof fn lemma_cut_short(before: Seq<BusOp>, log: Seq<BusOp>, record: Seq<BusOp>, head: Seq<BusOp>, k: int)
    requires
        0 <= k <= head.len(),
        head.len() <= record.len(),
        k < record.len(),
        record.subrange(0, head.len() as int) == head,
        log == before + head.subrange(0, k),
    ensures
        spec_cut_short(before, log, record),
{
    assert(head.subrange(0, k) =~= record.subrange(0, k));
}

/// An operation cut short after the operations `a` of an earlier step is
/// cut short within `a + b + c`, `b` being the operations of its own step.
pub proof fn lemma_cut_short_after(before: Seq<BusOp>, a: Seq<BusOp>, log: Seq<BusOp>, b: Seq<BusOp>, c: Seq<BusOp>)
    requires
        spec_cut_short(before + a, log, b),
    ensures
        spec_cut_short(before, log, a + b + c),
{
    let k = log.len() - (before + a).len();
    assert(log =~= before + (a + b + c).subrange(0, a.len() + k));
}

/// The delay before the next calibration status poll, with `timeout_us`
/// left.
pub fn rx_calibration_poll_delay(timeout_us: u32) -> (r: u32)
    ensures
        r == if timeout_us < RX_CALIBRATION_POLL_PERIOD_US {
            timeout_us
        } else {
            RX_CALIBRATION_POLL_PERIOD_US
        },
{
    if timeout_us < RX_CALIBRATION_POLL_PERIOD_US {
        timeout_us
    } else {
        RX_CALIBRATION_POLL_PERIOD_US
    }
}

/// After a poll that waited `poll_delay_us` with `timeout_us` left: `None`
/// when polling stops, because the calibration is done or the time is up,
/// else the time left for the next poll.
pub fn rx_calibration_next(status: CalStatus, timeout_us: u32, poll_delay_us: u32) -> (r: Option<u32>)
    requires
        poll_delay_us <= timeout_us,
    ensures
        r == if status@ & 1 == 1 || timeout_us <= poll_delay_us {
            None
        } else {
            Some((timeout_us - poll_delay_us) as u32)
        },
{
    proof { lemma_event_constants(); }
    if status.contains(CalStatus::from_bits_truncate(CalStatus::CAL_DONE)) || timeout_us <= poll_delay_us {
        None
    } else {
        Some(timeout_us - poll_delay_us)
    }
}

/// Polling the calibration status stops: each poll that does not stop
/// leaves strictly less time, and at most three polls fit in the timeout.
pub proof fn law_rx_calibration_polls_end(timeout_us: u32, delay: u32)
    requires
        delay == (if timeout_us < RX_CALIBRATION_POLL_PERIOD_US {
            timeout_us
        } else {
            RX_CALIBRATION_POLL_PERIOD_US
        }),
    ensures
        timeout_us > delay ==> timeout_us - delay < timeout_us,
        timeout_us <= RX_CALIBRATION_POLL_PERIOD_US ==> timeout_us <= delay,
        timeout_us <= RX_CALIBRATION_TIMEOUT_US && timeout_us > delay ==> timeout_us - delay
            <= RX_CALIBRATION_TIMEOUT_US - RX_CALIBRATION_POLL_PERIOD_US,
{
}

/// First step of the power-up: drives the reset line. The caller holds it
/// for `RESET_DELAY_US`, then calls `release_reset`.
pub fn begin_reset<IF: Interface>(interface: &mut Bus<IF>) -> (r: Result<(), Error<IF>>)
    ensures
        r is Ok ==> final(interface).spec_log() == old(interface).spec_log().push(BusOp::Reset(true)),
        r is Err ==> final(interface).spec_log() == old(interface).spec_log(),
        r matches Err(e) ==> e is Interface,
{
    match interface.set_reset() {
        Ok(()) => Ok(()),
        Err(e) => Err(Error::Interface(e)),
    }
}

/// Second step of the power-up: releases the reset line. The caller then
/// waits up to `XTAL_WAKE_UP_TIMEOUT_US` for the interrupt that SPIRDY
/// raises, enabled by default, and calls `check_spi_ready`.
pub fn release_reset<IF: Interface>(interface: &mut Bus<IF>) -> (r: Result<(), Error<IF>>)
    ensures
        r is Ok ==> final(interface).spec_log() == old(interface).spec_log().push(BusOp::Reset(false)),
        r is Err ==> final(interface).spec_log() == old(interface).spec_log(),
        r matches Err(e) ==> e is Interface,
{
    match interface.clear_reset() {
        Ok(()) => Ok(()),
        Err(e) => Err(Error::Interface(e)),
    }
}

/// Last step of the power-up: the interrupt must have come, and the status
/// must show SPIRDY.
pub fn check_spi_ready<IF: Interface>(interface: &mut Bus<IF>, irq_raised: bool) -> (r: Result<(), Error<IF>>)
    ensures
        !irq_raised ==> r == Err::<(), Error<IF>>(Error::Device(DeviceError::ResetTimeout)) && *final(interface)
            == *old(interface),
        r matches Err(e) ==> e is Interface || e == Error::<IF>::Device(DeviceError::ResetTimeout) || e
            == Error::<IF>::Device(DeviceError::SpiNotReady),
        irq_raised && (r is Ok || r == Err::<(), Error<IF>>(Error::Device(DeviceError::SpiNotReady))) ==> {
            let raw = spec_last_read(final(interface).spec_log());
            &&& final(interface).spec_log() == old(interface).spec_log().push(spec_read::<SysStatusLow>(raw))
            &&& (r is Ok <==> (raw as u32) & EventsLow::SPIRDY != 0)
        },
        (r matches Err(e) && e is Interface) ==> final(interface).spec_log() == old(interface).spec_log(),
{
    if !irq_raised {
        return Err(Error::Device(DeviceError::ResetTimeout));
    }
    let ghost log0 = interface.spec_log();
    let value = match Accessor::<SysStatusLow>::new().read_bytes(interface) {
        Ok(v) => v,
        Err(e) => return Err(from_ral(e)),
    };
    proof {
        let log = interface.spec_log();
        assert(log =~= log0.push(spec_read::<SysStatusLow>(value))) by {
            assert forall|i: int| 0 <= i < log0.len() implies log[i] == log0[i] by {
                assert(log.subrange(0, log0.len() as int)[i] == log0[i]);
            }
        }
    }
    let events = Events::from_bits_truncate(value as u32);
    let spirdy = Events::from_bits_truncate(EventsLow::SPIRDY);
    proof {
        let v = value as u32;
        assert((v & regs::EVENTS_LOW_ALL_BITS) & (EventsLow::SPIRDY & regs::EVENTS_LOW_ALL_BITS) == (
        EventsLow::SPIRDY & regs::EVENTS_LOW_ALL_BITS) <==> v & EventsLow::SPIRDY != 0) by (bit_vector);
    }
    if !events.contains(spirdy) {
        return Err(Error::Device(DeviceError::SpiNotReady));
    }
    Ok(())
}

/// Event and status constants seen through the masks they are read with.
pub proof fn lemma_event_constants()
    ensures
        EventsLow::CPLOCK & regs::EVENTS_LOW_ALL_BITS == EventsLow::CPLOCK,
        EventsLow::TXFRS & regs::EVENTS_LOW_ALL_BITS == EventsLow::TXFRS,
        EventsLow::SPIRDY & regs::EVENTS_LOW_ALL_BITS == EventsLow::SPIRDY,
        (EventsLow::RXPHE | EventsLow::RXFR | EventsLow::RXFSL | EventsLow::RXFTO | EventsLow::RXPTO
            | EventsLow::ARFE) & regs::EVENTS_LOW_ALL_BITS == (EventsLow::RXPHE | EventsLow::RXFR | EventsLow::RXFSL
            | EventsLow::RXFTO | EventsLow::RXPTO | EventsLow::ARFE),
        CalStatus::CAL_DONE & 1 == 1,
{
    assert({
        &&& EventsLow::CPLOCK & regs::EVENTS_LOW_ALL_BITS == EventsLow::CPLOCK
        &&& EventsLow::TXFRS & regs::EVENTS_LOW_ALL_BITS == EventsLow::TXFRS
        &&& EventsLow::SPIRDY & regs::EVENTS_LOW_ALL_BITS == EventsLow::SPIRDY
        &&& (EventsLow::RXPHE | EventsLow::RXFR | EventsLow::RXFSL | EventsLow::RXFTO | EventsLow::RXPTO
            | EventsLow::ARFE) & regs::EVENTS_LOW_ALL_BITS == (EventsLow::RXPHE | EventsLow::RXFR | EventsLow::RXFSL
            | EventsLow::RXFTO | EventsLow::RXPTO | EventsLow::ARFE)
        &&& CalStatus::CAL_DONE & 1 == 1
    }) by (bit_vector);
}

/// Default crystal trim, used when the OTP holds none.
pub const DEFAULT_TRIM_VALUE: u8 = 0x2E;

/// The CHAN_CTRL value of a configuration.
pub open spec fn spec_chan_ctrl(config: Config) -> u64 {
    spec_with_field(
        spec_with_field(
            spec_with_field(spec_with_field(0x0006, 0, 1, config.channel.spec_code()), 1, 3, config.sfd_type.spec_code()),
            3,
            7,
            config.tx_code as u64,
        ),
        8,
        13,
        config.rx_code as u64,
    )
}

/// The operations of `configure_ldo`.
pub open spec fn spec_ldo_ops(otp: OtpData) -> Seq<BusOp> {
    (if otp.ldotune_cal_set {
        seq![spec_write::<regs::OtpCfg>(spec_with_bit(0, 7, true))]
    } else {
        Seq::empty()
    }) + seq![spec_write::<regs::LdoRload>(0x14)]
}

/// The operations of `configure_bias`, `bias` being the BIAS_CTRL value read.
pub open spec fn spec_bias_ops(otp: OtpData, bias: u64) -> Seq<BusOp> {
    if otp.bias_tune_byte2 != 0 {
        seq![
            spec_write::<regs::OtpCfg>(spec_with_bit(0, 8, true)),
            spec_read::<regs::BiasCtrl>(bias),
            spec_write::<regs::BiasCtrl>(spec_with_field(bias & 0xffff, 0, 5, (otp.bias_tune_byte2 & 0x1f) as u64)),
        ]
    } else {
        Seq::empty()
    }
}

/// The SFD detection timeout in symbols: the longest preamble, less one
/// acquisition chunk, plus the SFD and one.
pub open spec fn spec_sfd_timeout(pac: PacSize, sfd: SfdType, max_psr: phy::Psr) -> u16 {
    let psr = crate::phy::spec_psr_symbols(max_psr);
    let p = spec_pac_symbols(pac);
    ((if psr > p { psr } else { p }) - p + spec_sfd_symbols(sfd) + 1) as u16
}

/// The SYS_CFG value of a configuration.
pub open spec fn spec_sys_cfg(config: Config) -> u64 {
    let v = spec_with_bit(0x0004_1188, 1, !config.correct_tx_fcs);
    let v = spec_with_field(v, 4, 5, config.frame_format.spec_code());
    let v = spec_with_bit(v, 5, config.bit_rate == BitRate::Kbs6810Only);
    let v = spec_with_bit(v, 7, config.cia_enable);
    let v = spec_with_bit(v, 8, false);
    let v = spec_with_bit(v, 9, true);
    let v = spec_with_field(v, 12, 14, regs::StsPocketPosition::NoSts.spec_code());
    spec_with_bit(v, 18, false)
}

/// Register identification tag, model, version and revision of a DW3000.
pub open spec fn spec_dev_id_ok(raw: u64) -> bool {
    let v = raw & 0xffff_ffff;
    &&& spec_field(v, 16, 32) as u16 == DEV_RIDTAG
    &&& spec_field(v, 8, 16) as u8 == DEV_MODEL
    &&& spec_field(v, 4, 8) as u8 == DEV_VERSION
    &&& spec_field(v, 0, 4) as u8 == DEV_REVISION
}

/// QORVO Register Identification Tag
pub const DEV_RIDTAG: u16 = 0xdeca;

/// DW3000 device
pub const DEV_MODEL: u8 = 0x03;

/// Non-PDoA device
pub const DEV_VERSION: u8 = 0x0;

pub const DEV_REVISION: u8 = 0x2;

/// Reads the device identification and checks it is a DW3000.
pub fn check_dev_id<IF: Interface>(interface: &mut Bus<IF>) -> (r: Result<(), Error<IF>>)
    ensures
        r matches Err(e) ==> e is Interface || e == Error::<IF>::Device(DeviceError::WrongDevice),
        r is Ok || r == Err::<(), Error<IF>>(Error::Device(DeviceError::WrongDevice)) ==> {
            let raw = spec_last_read(final(interface).spec_log());
            &&& final(interface).spec_log() == old(interface).spec_log().push(spec_read::<DevId>(raw))
            &&& (r is Ok <==> spec_dev_id_ok(raw))
        },
        (r matches Err(e) && e is Interface) ==> final(interface).spec_log() == old(interface).spec_log(),
{
    let ghost log0 = interface.spec_log();
    let id = match Accessor::<DevId>::new().read(interface) {
        Ok(id) => id,
        Err(e) => return Err(from_ral(e)),
    };
    proof {
        let log = interface.spec_log();
        assert(log =~= log0.push(spec_read::<DevId>(spec_last_read(log)))) by {
            assert forall|i: int| 0 <= i < log0.len() implies log[i] == log0[i] by {
                assert(log.subrange(0, log0.len() as int)[i] == log0[i]);
            }
        }
    }
    if id.ridtag() != DEV_RIDTAG || id.model() != DEV_MODEL || id.ver() != DEV_VERSION || id.rev() != DEV_REVISION {
        return Err(Error::Device(DeviceError::WrongDevice));
    }
    Ok(())
}

/// Little-endian octets 0..=3 of the receiver tuning configuration.
pub const RX_TUNE_DGC_CFG_WORD0: u32 = 0x1000_0240;

/// The OTP operations of `load_otp` in `log` from position `start` on: the
/// two LDO tuning words, the crystal trim, the bias tuning, the first
/// receiver tuning word and the PLL lock code, each with the value read.
pub open spec fn spec_otp_load_ops(log: Seq<BusOp>, start: int) -> Seq<BusOp> {
    otp::spec_word_ops(otp::LDOTUNE_CAL, spec_read_at(log, start + 3)) + otp::spec_word_ops(
        (otp::LDOTUNE_CAL + 1) as u8,
        spec_read_at(log, start + 7),
    ) + otp::spec_word_ops(otp::XTAL_TRIM, spec_read_at(log, start + 11)) + otp::spec_word_ops(
        otp::BIASTUNE_CAL,
        spec_read_at(log, start + 15),
    ) + otp::spec_word_ops(otp::DGC_CFG, spec_read_at(log, start + 19)) + otp::spec_word_ops(
        otp::PLL_LOCK_CODE,
        spec_read_at(log, start + 23),
    )
}

/// The calibration values read by the operations from `start` on.
pub open spec fn spec_otp_data(log: Seq<BusOp>, start: int) -> OtpData {
    OtpData {
        ldotune_cal_set: spec_read_at(log, start + 3) != 0 || spec_read_at(log, start + 7) != 0,
        xtal_trim: (spec_read_at(log, start + 11) as u8) & 0x7f,
        bias_tune_byte2: (spec_read_at(log, start + 15) >> 16) as u8,
        rx_tune_set: spec_read_at(log, start + 19) == RX_TUNE_DGC_CFG_WORD0 as u64,
        pll_lock_code: spec_read_at(log, start + 23) as u32,
    }
}

proof fn lemma_otp_log_frame(a: Seq<BusOp>, b: Seq<BusOp>, start: int)
    requires
        0 <= start,
        start + 24 <= a.len(),
        start + 24 <= b.len(),
        b.subrange(start, start + 24) == a.subrange(start, start + 24),
    ensures
        spec_otp_load_ops(a, start) == spec_otp_load_ops(b, start),
        spec_otp_data(a, start) == spec_otp_data(b, start),
{
    let sa = a.subrange(start, start + 24);
    let sb = b.subrange(start, start + 24);
    assert(sb[3] == sa[3] && sb[7] == sa[7] && sb[11] == sa[11] && sb[15] == sa[15] && sb[19] == sa[19] && sb[23]
        == sa[23]);
    assert(sa[3] == a[start + 3] && sb[3] == b[start + 3]);
    assert(sa[7] == a[start + 7] && sb[7] == b[start + 7]);
    assert(sa[11] == a[start + 11] && sb[11] == b[start + 11]);
    assert(sa[15] == a[start + 15] && sb[15] == b[start + 15]);
    assert(sa[19] == a[start + 19] && sb[19] == b[start + 19]);
    assert(sa[23] == a[start + 23] && sb[23] == b[start + 23]);
}

/// Reads the calibration values from OTP.
pub fn load_otp<IF: Interface>(interface: &mut Bus<IF>) -> (r: Result<OtpData, Error<IF>>)
    ensures
        r matches Err(e) ==> e is Interface,
        otp::spec_requested_prefix(
            old(interface).spec_requests(),
            final(interface).spec_requests(),
            otp::spec_load_requests(),
            r is Ok,
        ),
        r matches Ok(d) ==> {
            let n = old(interface).spec_log().len() as int;
            let log = final(interface).spec_log();
            &&& log.len() == n + 24
            &&& log.subrange(0, n) == old(interface).spec_log()
            &&& log.subrange(n, n + 24) == spec_otp_load_ops(log, n)
            &&& d == spec_otp_data(log, n)
        },
{
    let ghost log0 = interface.spec_log();
    let ghost req0 = interface.spec_requests();
    let ghost ops = otp::spec_load_requests();
    proof {
        otp::lemma_block_requests(otp::LDOTUNE_CAL, 2);
        assert(ops.subrange(0, 8) =~= otp::spec_block_requests(otp::LDOTUNE_CAL, 2));
        assert(ops.subrange(8, 12) =~= otp::spec_word_requests(otp::XTAL_TRIM));
        assert(ops.subrange(12, 16) =~= otp::spec_word_requests(otp::BIASTUNE_CAL));
        assert(ops.subrange(16, 20) =~= otp::spec_word_requests(otp::DGC_CFG));
        assert(ops.subrange(20, 24) =~= otp::spec_word_requests(otp::PLL_LOCK_CODE));
        assert(req0 =~= req0 + ops.subrange(0, 0));
    }
    let reader = OtpReader::new();
    let r0 = reader.ldotune_cal(interface);
    proof {
        otp::lemma_prefix_step(req0, req0, interface.spec_requests(), ops, 0, otp::spec_block_requests(otp::LDOTUNE_CAL, 2), r0 is Ok);
    }
    let ldotune = match r0 {
        Ok(v) => v,
        Err(e) => return Err(from_ral(e)),
    };
    let ghost req1 = interface.spec_requests();
    let r1 = reader.xtal_trim(interface);
    proof {
        otp::lemma_prefix_step(req0, req1, interface.spec_requests(), ops, 8, otp::spec_word_requests(otp::XTAL_TRIM), r1 is Ok);
    }
    let xtal_trim = match r1 {
        Ok(v) => v,
        Err(e) => return Err(from_ral(e)),
    };
    let ghost log_x = interface.spec_log();
    let ghost req2 = interface.spec_requests();
    let r2 = reader.bias_tune(interface);
    proof {
        otp::lemma_prefix_step(req0, req2, interface.spec_requests(), ops, 12, otp::spec_word_requests(otp::BIASTUNE_CAL), r2 is Ok);
    }
    let bias = match r2 {
        Ok(v) => v,
        Err(e) => return Err(from_ral(e)),
    };
    let ghost req3 = interface.spec_requests();
    let r3 = reader.rx_tune_dgc_cfg0(interface);
    proof {
        otp::lemma_prefix_step(req0, req3, interface.spec_requests(), ops, 16, otp::spec_word_requests(otp::DGC_CFG), r3 is Ok);
    }
    let cfg0 = match r3 {
        Ok(v) => v,
        Err(e) => return Err(from_ral(e)),
    };
    let ghost req4 = interface.spec_requests();
    let r4 = reader.pll_lock_code(interface);
    proof {
        otp::lemma_prefix_step(req0, req4, interface.spec_requests(), ops, 20, otp::spec_word_requests(otp::PLL_LOCK_CODE), r4 is Ok);
    }
    let pll = match r4 {
        Ok(v) => v,
        Err(e) => return Err(from_ral(e)),
    };
    let d = OtpData {
        ldotune_cal_set: ldotune != 0,
        xtal_trim,
        bias_tune_byte2: (bias >> 16) as u8,
        rx_tune_set: cfg0 == RX_TUNE_DGC_CFG_WORD0,
        pll_lock_code: pll,
    };
    proof {
        let n = log0.len() as int;
        let log = interface.spec_log();
        let w = spec_last_read(log_x);
        assert(log =~= log0 + otp::spec_word_ops(otp::LDOTUNE_CAL, ldotune & 0xffff_ffff) + otp::spec_word_ops(
            (otp::LDOTUNE_CAL + 1) as u8,
            ldotune >> 32,
        ) + otp::spec_word_ops(otp::XTAL_TRIM, w) + otp::spec_word_ops(otp::BIASTUNE_CAL, bias as u64)
            + otp::spec_word_ops(otp::DGC_CFG, cfg0 as u64) + otp::spec_word_ops(otp::PLL_LOCK_CODE, pll as u64));
        assert(spec_read_at(log, n + 3) == ldotune & 0xffff_ffff);
        assert(spec_read_at(log, n + 7) == ldotune >> 32);
        assert(spec_read_at(log, n + 11) == w);
        assert(spec_read_at(log, n + 15) == bias as u64);
        assert(spec_read_at(log, n + 19) == cfg0 as u64);
        assert(spec_read_at(log, n + 23) == pll as u64);
        assert((ldotune != 0) == (ldotune & 0xffff_ffff != 0 || ldotune >> 32 != 0)) by (bit_vector);
        assert(log.subrange(0, n) =~= log0);
        assert(log.subrange(n, n + 24) =~= spec_otp_load_ops(log, n));
    }
    Ok(d)
}

/// The instant of a system clock count read as twice its value.
fn system_instant(sys_ticks_x2: u64) -> (r: Instant)
    requires
        sys_ticks_x2 < 0x1_0000_0000,
    ensures
        r@ == SYSTEM_TIME_UNIT_TICKS * (sys_ticks_x2 / 2),
{
    instant_from_ticks(SYSTEM_TIME_UNIT_TICKS * (sys_ticks_x2 / 2))
}

fn instant_from_ticks(ticks: u64) -> (r: Instant)
    requires
        ticks < SYSTEM_TIME_PERIOD_TICKS,
    ensures
        r@ == ticks,
{
    Instant::try_from_ticks(ticks).unwrap()
}

/// The transmit bit rate code of a bit rate.
pub open spec fn spec_tx_bit_rate(bit_rate: BitRate) -> regs::BitRate {
    match bit_rate {
        BitRate::Kbs850 => regs::BitRate::Kbs850,
        BitRate::Kbs6810 | BitRate::Kbs6810Only => regs::BitRate::Kbs6810,
    }
}

fn tx_bit_rate(bit_rate: BitRate) -> (r: regs::BitRate)
    ensures
        r == spec_tx_bit_rate(bit_rate),
{
    match bit_rate {
        BitRate::Kbs850 => regs::BitRate::Kbs850,
        BitRate::Kbs6810 | BitRate::Kbs6810Only => regs::BitRate::Kbs6810,
    }
}

/// The transmit preamble length code of a PSR.
pub open spec fn spec_tx_psr(psr: phy::Psr) -> regs::TxPreambleLength {
    match psr {
        phy::Psr::Symbols16 => regs::TxPreambleLength::Symbols16,
        phy::Psr::Symbols32 => regs::TxPreambleLength::Symbols32,
        phy::Psr::Symbols64 => regs::TxPreambleLength::Symbols64,
        phy::Psr::Symbols128 => regs::TxPreambleLength::Symbols128,
        phy::Psr::Symbols256 => regs::TxPreambleLength::Symbols256,
        phy::Psr::Symbols512 => regs::TxPreambleLength::Symbols512,
        phy::Psr::Symbols1024 => regs::TxPreambleLength::Symbols1024,
        phy::Psr::Symbols1536 => regs::TxPreambleLength::Symbols1536,
        phy::Psr::Symbols2048 => regs::TxPreambleLength::Symbols2048,
        phy::Psr::Symbols4096 => regs::TxPreambleLength::Symbols4096,
    }
}

/// The fields of a TX_FCTRL value built from its parts.
proof fn lemma_tx_fctrl_fields(len: u64, br: u64, rng: bool, pc: u64)
    by (bit_vector)
    requires
        len < 1024,
        br < 2,
        pc < 16,
    ensures
        ({
            let v = spec_with_field(
                spec_with_bit(spec_with_field(spec_with_field(0x1c0c, 0, 10, len), 10, 11, br), 11, rng),
                12,
                16,
                pc,
            );
            &&& spec_field(v, 0, 10) == len
            &&& spec_field(v, 10, 11) == br
            &&& spec_field(v, 11, 12) == if rng { 1u64 } else { 0u64 }
            &&& spec_field(v, 12, 16) == pc
        }),
{
}

/// The TX_FCTRL value written for a transmission describes it: the frame
/// length in bits 0 to 9, the data rate in bit 10 (0 for 850 kb/s, 1 for
/// 6.8 Mb/s), the ranging flag in bit 11, and in bits 12 to 15 the DW3000
/// code of a preamble of as many symbols as the PSR asks for (16: 0,
/// 64: 1, 1024: 2, 4096: 3, 32: 4, 128: 5, 1536: 6, 256: 9, 2048: 10,
/// 512: 13).
pub proof fn law_tx_fctrl_fields(psr: phy::Psr, bit_rate: BitRate, ranging: bool, length: u16)
    requires
        length <= 1023,
    ensures
        ({
            let v = spec_tx_fctrl(psr, bit_rate, ranging, length);
            let code = spec_field(v, 12, 16);
            &&& spec_field(v, 0, 10) == length
            &&& spec_field(v, 10, 11) == if bit_rate is Kbs850 { 0u64 } else { 1u64 }
            &&& spec_field(v, 11, 12) == if ranging { 1u64 } else { 0u64 }
            &&& phy::spec_psr_symbols(psr) == if code == 0 {
                16u16
            } else if code == 1 {
                64u16
            } else if code == 2 {
                1024u16
            } else if code == 3 {
                4096u16
            } else if code == 4 {
                32u16
            } else if code == 5 {
                128u16
            } else if code == 6 {
                1536u16
            } else if code == 9 {
                256u16
            } else if code == 10 {
                2048u16
            } else if code == 13 {
                512u16
            } else {
                0u16
            }
        }),
{
    lemma_tx_fctrl_fields(
        length as u64,
        spec_tx_bit_rate(bit_rate).spec_code(),
        ranging,
        spec_tx_psr(psr).spec_code(),
    );
}

fn tx_psr(psr: phy::Psr) -> (r: regs::TxPreambleLength)
    ensures
        r == spec_tx_psr(psr),
{
    match psr {
        phy::Psr::Symbols16 => regs::TxPreambleLength::Symbols16,
        phy::Psr::Symbols32 => regs::TxPreambleLength::Symbols32,
        phy::Psr::Symbols64 => regs::TxPreambleLength::Symbols64,
        phy::Psr::Symbols128 => regs::TxPreambleLength::Symbols128,
        phy::Psr::Symbols256 => regs::TxPreambleLength::Symbols256,
        phy::Psr::Symbols512 => regs::TxPreambleLength::Symbols512,
        phy::Psr::Symbols1024 => regs::TxPreambleLength::Symbols1024,
        phy::Psr::Symbols1536 => regs::TxPreambleLength::Symbols1536,
        phy::Psr::Symbols2048 => regs::TxPreambleLength::Symbols2048,
        phy::Psr::Symbols4096 => regs::TxPreambleLength::Symbols4096,
    }
}

/// The TX_FCTRL value of a transmission: the reset value with the length,
/// bit rate, ranging flag and preamble length fields set.
pub open spec fn spec_tx_fctrl(psr: phy::Psr, bit_rate: BitRate, ranging: bool, length: u16) -> u64 {
    spec_with_field(
        spec_with_bit(
            spec_with_field(
                spec_with_field(0x1c0c, 0, 10, length as u64),
                10,
                11,
                spec_tx_bit_rate(bit_rate).spec_code(),
            ),
            11,
            ranging,
        ),
        12,
        16,
        spec_tx_psr(psr).spec_code(),
    )
}

/// Symbols in an acquisition chunk.
pub open spec fn spec_pac_symbols(pac: PacSize) -> u16 {
    match pac {
        Pac::Symbols4 => 4,
        Pac::Symbols8 => 8,
        Pac::Symbols16 => 16,
        Pac::Symbols32 => 32,
    }
}

pub fn pac_symbols(pac: PacSize) -> (r: u16)
    ensures
        r == spec_pac_symbols(pac),
        r > 0,
{
    match pac {
        Pac::Symbols4 => 4,
        Pac::Symbols8 => 8,
        Pac::Symbols16 => 16,
        Pac::Symbols32 => 32,
    }
}

/// The preamble detection timeout in acquisition chunks.
pub open spec fn spec_preamble_toc(pac: PacSize, timeout: Option<u16>) -> u16 {
    match timeout {
        Some(count) => crate::phy::time::spec_div_ceil(count as int, spec_pac_symbols(pac) as int) as u16,
        None => 0,
    }
}

/// Symbols of an SFD.
pub open spec fn spec_sfd_symbols(sfd: SfdType) -> u16 {
    match sfd {
        SfdType::IeeeSfd0 | SfdType::Decawave8 | SfdType::IeeeSfd2 => 8,
        SfdType::Decawave16 => 16,
    }
}

impl SfdType {
    pub fn as_symbols(self) -> (r: u16)
        ensures
            r == spec_sfd_symbols(self),
    {
        match self {
            Self::IeeeSfd0 | Self::Decawave8 | Self::IeeeSfd2 => 8,
            Self::Decawave16 => 16,
        }
    }
}

/// The acquisition chunk size recommended for a preamble length.
pub open spec fn spec_recommended_pac_size(psr: phy::Psr) -> PacSize {
    match psr {
        phy::Psr::Symbols16 | phy::Psr::Symbols32 => Pac::Symbols4,
        phy::Psr::Symbols64 => Pac::Symbols8,
        _ => Pac::Symbols16,
    }
}

// The chunk size for 32-symbol preambles is a first choice, not tuned.
pub fn recommended_pac_size(psr: phy::Psr) -> (r: PacSize)
    ensures
        r == spec_recommended_pac_size(psr),
{
    match psr {
        phy::Psr::Symbols16 | phy::Psr::Symbols32 => Pac::Symbols4,
        phy::Psr::Symbols64 => Pac::Symbols8,
        _ => Pac::Symbols16,
    }
}

/// Whether the receiver tuning is enabled for a PRF (user guide 8.2.4.1).
pub open spec fn spec_recommended_rx_tune_en(prf: MeanPrf) -> bool {
    match prf {
        MeanPrf::Mhz16 => false,
        MeanPrf::Mhz62 => true,
    }
}

pub fn recommended_rx_tune_en(prf: MeanPrf) -> (r: bool)
    ensures
        r == spec_recommended_rx_tune_en(prf),
{
    match prf {
        MeanPrf::Mhz16 => false,
        MeanPrf::Mhz62 => true,
    }
}

} // verus!

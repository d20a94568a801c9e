//! PHY service definitions: channels, preamble and SFD parameters, device
//! capabilities, run configuration and on-air durations.
use vstd::prelude::*;

pub mod time;

use crate::phy::time::Duration;

verus! {

pub const FCS_LENGTH: u16 = 2;

pub const MAX_PSDU_LENGTH: u16 = 127;

pub const MAX_LONG_PSDU_LENGTH: u16 = 1023;

/// UWB channel number, 0..=15.
#[derive(Clone, Copy, Eq, PartialEq, Structural, Debug)]
pub struct Channel(u8);

impl View for Channel {
    type V = u8;

    closed spec fn view(&self) -> u8 {
        self.0
    }
}

impl Channel {
    #[verifier::type_invariant]
    spec fn valid(self) -> bool {
        self.0 <= 15
    }

    /// Builds a channel from the four low bits of `value`.
    pub fn new_truncating(value: u8) -> (r: Self)
        ensures
            r@ == value % 16,
    {
        assert(value & 0xf == value % 16) by (bit_vector);
        Self(value & 0xf)
    }

    pub fn as_number(self) -> (r: u8)
        ensures
            r == self@,
            r <= 15,
    {
        proof { use_type_invariant(&self); }
        self.0
    }
}

#[derive(Clone, Copy, Eq, PartialEq, Structural, Debug)]
pub enum MeanPrf {
    /// 31-symbols preambles, CHIP_FREQ / 64
    Mhz4,
    /// 31-symbols preambles, CHIP_FREQ / 16
    Mhz16,
    /// 127-symbols preambles, CHIP_FREQ / 4
    Mhz62,
    /// 91-symbols preambles, CHIP_FREQ / 4, IEEE 802.15.4z
    Mhz111,
}

/// The inclusive range of preamble codes defined for a mean PRF.
pub open spec fn spec_code_range(prf: MeanPrf) -> Seq<u8> {
    match prf {
        MeanPrf::Mhz4 | MeanPrf::Mhz16 => seq![1u8, 8u8],
        MeanPrf::Mhz62 => seq![9u8, 24u8],
        MeanPrf::Mhz111 => seq![25u8, 32u8],
    }
}

impl MeanPrf {
    pub fn code_range(self) -> (r: [u8; 2])
        ensures
            r@ == spec_code_range(self),
    {
        let r = match self {
            MeanPrf::Mhz4 | MeanPrf::Mhz16 => [1, 8],
            MeanPrf::Mhz62 => [9, 24],
            MeanPrf::Mhz111 => [25, 32],
        };
        assert(r@ =~= spec_code_range(self));
        r
    }
}

/// Preamble codes that IEEE 802.15.4 allocates to a channel and mean PRF.
pub open spec fn spec_ieee_allocated_code_range(chan: int, prf: MeanPrf) -> Seq<u8> {
    match prf {
        MeanPrf::Mhz4 | MeanPrf::Mhz16 => {
            if chan == 0 || chan == 1 || chan == 8 || chan == 12 {
                seq![1u8, 2u8]
            } else if chan == 2 || chan == 5 || chan == 9 || chan == 13 {
                seq![3u8, 4u8]
            } else if chan == 3 || chan == 6 || chan == 10 || chan == 14 {
                seq![5u8, 6u8]
            } else {
                seq![7u8, 8u8]
            }
        },
        MeanPrf::Mhz62 => {
            if chan == 4 || chan == 7 || chan == 11 || chan == 15 {
                seq![17u8, 20u8]
            } else {
                seq![9u8, 12u8]
            }
        },
        MeanPrf::Mhz111 => seq![25u8, 32u8],
    }
}

pub fn ieee_allocated_code_range(chan: Channel, prf: MeanPrf) -> (r: [u8; 2])
    ensures
        r@ == spec_ieee_allocated_code_range(chan@ as int, prf),
{
    let c = chan.as_number();
    let r = match prf {
        MeanPrf::Mhz4 | MeanPrf::Mhz16 => {
            if c == 0 || c == 1 || c == 8 || c == 12 {
                [1, 2]
            } else if c == 2 || c == 5 || c == 9 || c == 13 {
                [3, 4]
            } else if c == 3 || c == 6 || c == 10 || c == 14 {
                [5, 6]
            } else {
                [7, 8]
            }
        },
        MeanPrf::Mhz62 => {
            if c == 4 || c == 7 || c == 11 || c == 15 {
                [17, 20]
            } else {
                [9, 12]
            }
        },
        MeanPrf::Mhz111 => [25, 32],
    };
    assert(r@ =~= spec_ieee_allocated_code_range(chan@ as int, prf));
    r
}

/// Preamble symbol repetitions
#[derive(Clone, Copy, Eq, PartialEq, Structural, Debug)]
pub enum Psr {
    /// IEEE 802.15.4 standard length
    Symbols16,
    /// Non-standard length
    Symbols32,
    /// IEEE 802.15.4, IEEE 802.15.8 standard length
    Symbols64,
    /// IEEE 802.15.8 standard length
    Symbols128,
    /// IEEE 802.15.8 standard length
    Symbols256,
    /// IEEE 802.15.8 standard length
    Symbols512,
    /// IEEE 802.15.4, IEEE 802.15.8 standard length
    Symbols1024,
    /// IEEE 802.15.8 standard length
    Symbols1536,
    /// IEEE 802.15.8 standard length
    Symbols2048,
    /// IEEE 802.15.4, IEEE 802.15.8 standard length
    Symbols4096,
}

pub open spec fn spec_psr_symbols(psr: Psr) -> u16 {
    match psr {
        Psr::Symbols16 => 16,
        Psr::Symbols32 => 32,
        Psr::Symbols64 => 64,
        Psr::Symbols128 => 128,
        Psr::Symbols256 => 256,
        Psr::Symbols512 => 512,
        Psr::Symbols1024 => 1024,
        Psr::Symbols1536 => 1536,
        Psr::Symbols2048 => 2048,
        Psr::Symbols4096 => 4096,
    }
}

impl Psr {
    pub fn as_symbols(self) -> (r: u16)
        ensures
            r == spec_psr_symbols(self),
    {
        match self {
            Psr::Symbols16 => 16,
            Psr::Symbols32 => 32,
            Psr::Symbols64 => 64,
            Psr::Symbols128 => 128,
            Psr::Symbols256 => 256,
            Psr::Symbols512 => 512,
            Psr::Symbols1024 => 1024,
            Psr::Symbols1536 => 1536,
            Psr::Symbols2048 => 2048,
            Psr::Symbols4096 => 4096,
        }
    }
}

#[derive(Clone, Copy, Eq, PartialEq, Structural, Debug)]
pub enum SfdType {
    /// 0+0-+00-, IEEE 802.15.4 short 8-symbol SFD
    Sfd0,
    /// --+--, IEEE 802.15.4z short 4-symbol SFD
    Sfd1,
    /// ---+--+-, IEEE 802.15.4z defined 8-symbol SFD
    Sfd2,
    /// -----++--+--+--+-, IEEE 802.15.4z defined 16-symbol SFD
    Sfd3,
    /// -------+--+--+-+--+---++---+--++--, IEEE 802.15.4z defined 32-symbol SFD
    Sfd4,
}

pub open spec fn spec_sfd_symbols(sfd: SfdType) -> u16 {
    match sfd {
        SfdType::Sfd1 => 4,
        SfdType::Sfd0 | SfdType::Sfd2 => 8,
        SfdType::Sfd3 => 16,
        SfdType::Sfd4 => 32,
    }
}

impl SfdType {
    pub fn as_symbols(self) -> (r: u16)
        ensures
            r == spec_sfd_symbols(self),
    {
        match self {
            Self::Sfd1 => 4,
            Self::Sfd0 | Self::Sfd2 => 8,
            Self::Sfd3 => 16,
            Self::Sfd4 => 32,
        }
    }
}

#[derive(Clone, Copy, Eq, PartialEq, Structural, Debug)]
pub enum BitRate {
    /// 0.11 MBit/s for PHR and payload
    Kbs110,
    /// 0.85 MBit/s for PHR and payload
    Kbs850,
    /// 0.85 MBit/s for PHR, 6.81 MBit/s for payload, a.k.a. DRBM_LP
    Kbs6810,
    /// 6.81 MBit/s for PHR and payload, a.k.a. DRBM_HP
    Kbs6810Only,
    /// 0.85 MBit/s for PHR, 27.24 MBit/s for payload
    Kbs27240,
}

/// Whether bit `i` of `bits` is set.
pub open spec fn has_bit(bits: u64, i: u64) -> bool {
    bits & (1u64 << i) != 0
}

pub open spec fn spec_prf_bit(prf: MeanPrf) -> u64 {
    match prf {
        MeanPrf::Mhz4 => 16,
        MeanPrf::Mhz16 => 17,
        MeanPrf::Mhz62 => 18,
        MeanPrf::Mhz111 => 19,
    }
}

pub open spec fn spec_psr_bit(psr: Psr) -> u64 {
    match psr {
        Psr::Symbols16 => 20,
        Psr::Symbols32 => 21,
        Psr::Symbols64 => 22,
        Psr::Symbols128 => 23,
        Psr::Symbols256 => 24,
        Psr::Symbols512 => 25,
        Psr::Symbols1024 => 26,
        Psr::Symbols1536 => 27,
        Psr::Symbols2048 => 28,
        Psr::Symbols4096 => 29,
    }
}

pub open spec fn spec_sfd_bit(sfd: SfdType) -> u64 {
    match sfd {
        SfdType::Sfd0 => 30,
        SfdType::Sfd1 => 31,
        SfdType::Sfd2 => 32,
        SfdType::Sfd3 => 33,
        SfdType::Sfd4 => 34,
    }
}

pub open spec fn spec_bit_rate_bit(bit_rate: BitRate) -> u64 {
    match bit_rate {
        BitRate::Kbs110 => 35,
        BitRate::Kbs850 => 36,
        BitRate::Kbs6810 => 37,
        BitRate::Kbs6810Only => 38,
        BitRate::Kbs27240 => 39,
    }
}

pub const LONG_FRAME_FORMAT_BIT: u64 = 40;

pub const CORRECT_TX_FCS_BIT: u64 = 41;

/// Set of PHY features a device supports, one flag per bit:
/// bits 0..=15 channels, 16..=19 mean PRF, 20..=29 PSR, 30..=34 SFD types,
/// 35..=39 bit rates, 40 long frame format, 41 TX FCS correction.
#[derive(Clone, Copy, Eq, PartialEq, Structural, Debug)]
pub struct Capabilities(u64);

impl View for Capabilities {
    type V = u64;

    closed spec fn view(&self) -> u64 {
        self.0
    }
}

/// Bits that name a capability.
pub const CAPABILITIES_ALL_BITS: u64 = 0x3ff_ffff_ffff;

proof fn lemma_single_bit(x: u64, i: u64)
    requires
        i < 64,
    ensures
        (x & (1u64 << i) == (1u64 << i)) <==> has_bit(x, i),
        (x & (1u64 << i)) & (1u64 << i) == (x & (1u64 << i)),
{
    assert(((x & (1u64 << i) == (1u64 << i)) <==> (x & (1u64 << i) != 0)) && (x & (1u64 << i)) & (1u64 << i) == (x
        & (1u64 << i))) by (bit_vector)
        requires
            i < 64,
    ;
}

impl Capabilities {
    pub const CH_0: u64 = 1 << 0;
    pub const CH_1: u64 = 1 << 1;
    pub const CH_2: u64 = 1 << 2;
    pub const CH_3: u64 = 1 << 3;
    pub const CH_4: u64 = 1 << 4;
    pub const CH_5: u64 = 1 << 5;
    pub const CH_6: u64 = 1 << 6;
    pub const CH_7: u64 = 1 << 7;
    pub const CH_8: u64 = 1 << 8;
    pub const CH_9: u64 = 1 << 9;
    pub const CH_10: u64 = 1 << 10;
    pub const CH_11: u64 = 1 << 11;
    pub const CH_12: u64 = 1 << 12;
    pub const CH_13: u64 = 1 << 13;
    pub const CH_14: u64 = 1 << 14;
    pub const CH_15: u64 = 1 << 15;
    pub const PRF_4: u64 = 1 << 16;
    pub const PRF_16: u64 = 1 << 17;
    pub const PRF_62: u64 = 1 << 18;
    pub const PRF_111: u64 = 1 << 19;
    pub const PSR_16: u64 = 1 << 20;
    pub const PSR_32: u64 = 1 << 21;
    pub const PSR_64: u64 = 1 << 22;
    pub const PSR_128: u64 = 1 << 23;
    pub const PSR_256: u64 = 1 << 24;
    pub const PSR_512: u64 = 1 << 25;
    pub const PSR_1024: u64 = 1 << 26;
    pub const PSR_1536: u64 = 1 << 27;
    pub const PSR_2048: u64 = 1 << 28;
    pub const PSR_4096: u64 = 1 << 29;
    pub const SFD_0: u64 = 1 << 30;
    pub const SFD_1: u64 = 1 << 31;
    pub const SFD_2: u64 = 1 << 32;
    pub const SFD_3: u64 = 1 << 33;
    pub const SFD_4: u64 = 1 << 34;
    pub const BIT_RATE_110: u64 = 1 << 35;
    pub const BIT_RATE_850: u64 = 1 << 36;
    pub const BIT_RATE_6810: u64 = 1 << 37;
    pub const BIT_RATE_6810_ONLY: u64 = 1 << 38;
    pub const BIT_RATE_27240: u64 = 1 << 39;
    pub const LONG_FRAME_FORMAT: u64 = 1 << 40;
    pub const CORRECT_TX_FCS: u64 = 1 << 41;

    /// Keeps the bits that name a capability and drops the others.
    pub fn from_bits_truncate(bits: u64) -> (r: Self)
        ensures
            r@ == bits & CAPABILITIES_ALL_BITS,
    {
        Self(bits & CAPABILITIES_ALL_BITS)
    }

    pub fn bits(self) -> (r: u64)
        ensures
            r == self@,
    {
        self.0
    }

    pub fn empty() -> (r: Self)
        ensures
            r@ == 0,
    {
        Self(0)
    }

    pub fn union(self, other: Self) -> (r: Self)
        ensures
            r@ == self@ | other@,
    {
        Self(self.0 | other.0)
    }

    /// Whether every capability of `other` is also in `self`.
    pub fn contains(self, other: Self) -> (r: bool)
        ensures
            r == (self@ & other@ == other@),
    {
        self.0 & other.0 == other.0
    }

    fn has_flag(self, i: u64) -> (r: bool)
        requires
            i < 64,
        ensures
            r == has_bit(self@, i),
    {
        proof { lemma_single_bit(self.0, i); }
        self.0 & (1u64 << i) == (1u64 << i)
    }

    pub fn has_channel(self, channel: Channel) -> (r: bool)
        ensures
            r == has_bit(self@, channel@ as u64),
    {
        self.has_flag(channel.as_number() as u64)
    }

    pub fn has_prf(self, prf: MeanPrf) -> (r: bool)
        ensures
            r == has_bit(self@, spec_prf_bit(prf)),
    {
        self.has_flag(match prf {
            MeanPrf::Mhz4 => 16,
            MeanPrf::Mhz16 => 17,
            MeanPrf::Mhz62 => 18,
            MeanPrf::Mhz111 => 19,
        })
    }

    pub fn has_psr(self, psr: Psr) -> (r: bool)
        ensures
            r == has_bit(self@, spec_psr_bit(psr)),
    {
        self.has_flag(match psr {
            Psr::Symbols16 => 20,
            Psr::Symbols32 => 21,
            Psr::Symbols64 => 22,
            Psr::Symbols128 => 23,
            Psr::Symbols256 => 24,
            Psr::Symbols512 => 25,
            Psr::Symbols1024 => 26,
            Psr::Symbols1536 => 27,
            Psr::Symbols2048 => 28,
            Psr::Symbols4096 => 29,
        })
    }

    pub fn has_sfd(self, sfd_type: SfdType) -> (r: bool)
        ensures
            r == has_bit(self@, spec_sfd_bit(sfd_type)),
    {
        self.has_flag(match sfd_type {
            SfdType::Sfd0 => 30,
            SfdType::Sfd1 => 31,
            SfdType::Sfd2 => 32,
            SfdType::Sfd3 => 33,
            SfdType::Sfd4 => 34,
        })
    }

    pub fn has_bit_rate(self, bit_rate: BitRate) -> (r: bool)
        ensures
            r == has_bit(self@, spec_bit_rate_bit(bit_rate)),
    {
        self.has_flag(match bit_rate {
            BitRate::Kbs110 => 35,
            BitRate::Kbs850 => 36,
            BitRate::Kbs6810 => 37,
            BitRate::Kbs6810Only => 38,
            BitRate::Kbs27240 => 39,
        })
    }

    pub fn has_long_frame_format(self) -> (r: bool)
        ensures
            r == has_bit(self@, LONG_FRAME_FORMAT_BIT),
    {
        self.has_flag(40)
    }

    pub fn has_correct_tx_fcs(self) -> (r: bool)
        ensures
            r == has_bit(self@, CORRECT_TX_FCS_BIT),
    {
        self.has_flag(41)
    }
}

#[derive(Clone, Copy, Eq, PartialEq, Structural, Debug)]
pub enum State {
    /// Low power consumption, time is not kept
    Stopped,
    /// Moderate power consumption, precision time is kept
    Running,
}

#[non_exhaustive]
#[derive(Clone, Copy, Eq, PartialEq, Structural, Debug)]
pub struct RunConfig {
    pub channel: Channel,
    pub prf: MeanPrf,
    pub rx_preamble_code: u8,
    pub tx_preamble_code: u8,
    pub psr: Psr,
    pub sfd_type: SfdType,
    pub bit_rate: BitRate,
    pub long_frame_format: bool,
    pub ranging: bool,
    /// Replace last FCS_LENGTH octets with calculated FCS
    pub correct_tx_fcs: bool,
}

impl RunConfig {
    /// The default configuration: channel 9, 62.4 MHz PRF with code 9,
    /// 64-symbol preamble, IEEE SFD 0, 850 kb/s, standard frames.
    pub fn new() -> (r: Self)
        ensures
            r.channel@ == 9,
            r.prf == MeanPrf::Mhz62,
            r.rx_preamble_code == 9,
            r.tx_preamble_code == 9,
            r.psr == Psr::Symbols64,
            r.sfd_type == SfdType::Sfd0,
            r.bit_rate == BitRate::Kbs850,
            !r.long_frame_format,
            !r.ranging,
            !r.correct_tx_fcs,
    {
        Self {
            channel: Channel::new_truncating(9),
            prf: MeanPrf::Mhz62,
            rx_preamble_code: 9,
            tx_preamble_code: 9,
            psr: Psr::Symbols64,
            sfd_type: SfdType::Sfd0,
            bit_rate: BitRate::Kbs850,
            long_frame_format: false,
            ranging: false,
            correct_tx_fcs: false,
        }
    }
}

#[derive(Clone, Copy, Eq, PartialEq, Structural, Debug)]
pub enum ConfigError {
    UnsupportedChannel(Channel),
    UnsupportedPrf(MeanPrf),
    InvalidRxPreambleCode(u8, MeanPrf),
    InvalidTxPreambleCode(u8, MeanPrf),
    UnsupportedPsr(Psr),
    UnsupportedSfd(SfdType),
    UnsupportedBitRate(BitRate),
    UnsupportedLongFrameFormat,
    UnsupportedCorrectTxFcs,
}

/// The first requirement of `cfg` that `caps` does not meet, checked in the
/// order channel, PSR, PRF, RX code, TX code, SFD, bit rate, long frame
/// format, TX FCS correction.
pub open spec fn spec_check_capabilities(cfg: RunConfig, caps: u64) -> Result<(), ConfigError> {
    let range = spec_code_range(cfg.prf);
    if !has_bit(caps, cfg.channel@ as u64) {
        Err(ConfigError::UnsupportedChannel(cfg.channel))
    } else if !has_bit(caps, spec_psr_bit(cfg.psr)) {
        Err(ConfigError::UnsupportedPsr(cfg.psr))
    } else if !has_bit(caps, spec_prf_bit(cfg.prf)) {
        Err(ConfigError::UnsupportedPrf(cfg.prf))
    } else if !(range[0] <= cfg.rx_preamble_code <= range[1]) {
        Err(ConfigError::InvalidRxPreambleCode(cfg.rx_preamble_code, cfg.prf))
    } else if !(range[0] <= cfg.tx_preamble_code <= range[1]) {
        Err(ConfigError::InvalidTxPreambleCode(cfg.tx_preamble_code, cfg.prf))
    } else if !has_bit(caps, spec_sfd_bit(cfg.sfd_type)) {
        Err(ConfigError::UnsupportedSfd(cfg.sfd_type))
    } else if !has_bit(caps, spec_bit_rate_bit(cfg.bit_rate)) {
        Err(ConfigError::UnsupportedBitRate(cfg.bit_rate))
    } else if cfg.long_frame_format && !has_bit(caps, LONG_FRAME_FORMAT_BIT) {
        Err(ConfigError::UnsupportedLongFrameFormat)
    } else if cfg.correct_tx_fcs && !has_bit(caps, CORRECT_TX_FCS_BIT) {
        Err(ConfigError::UnsupportedCorrectTxFcs)
    } else {
        Ok(())
    }
}

impl RunConfig {
    pub fn check_capabilities(&self, capabilities: Capabilities) -> (r: Result<(), ConfigError>)
        ensures
            r == spec_check_capabilities(*self, capabilities@),
    {
        if !capabilities.has_channel(self.channel) {
            return Err(ConfigError::UnsupportedChannel(self.channel));
        }
        if !capabilities.has_psr(self.psr) {
            return Err(ConfigError::UnsupportedPsr(self.psr));
        }
        if !capabilities.has_prf(self.prf) {
            return Err(ConfigError::UnsupportedPrf(self.prf));
        }
        let range = self.prf.code_range();
        let min_code = range[0];
        let max_code = range[1];
        if !(min_code <= self.rx_preamble_code && self.rx_preamble_code <= max_code) {
            return Err(ConfigError::InvalidRxPreambleCode(self.rx_preamble_code, self.prf));
        }
        if !(min_code <= self.tx_preamble_code && self.tx_preamble_code <= max_code) {
            return Err(ConfigError::InvalidTxPreambleCode(self.tx_preamble_code, self.prf));
        }
        if !capabilities.has_sfd(self.sfd_type) {
            return Err(ConfigError::UnsupportedSfd(self.sfd_type));
        }
        if !capabilities.has_bit_rate(self.bit_rate) {
            return Err(ConfigError::UnsupportedBitRate(self.bit_rate));
        }
        if self.long_frame_format && !capabilities.has_long_frame_format() {
            return Err(ConfigError::UnsupportedLongFrameFormat);
        }
        if self.correct_tx_fcs && !capabilities.has_correct_tx_fcs() {
            return Err(ConfigError::UnsupportedCorrectTxFcs);
        }
        Ok(())
    }
}

/// A UWB PHY: its run state, what it supports and the longest receive
/// timeout it takes.
pub trait Phy {
    type Instant;

    type IoError;

    type DevError;

    fn state(&self) -> State;

    fn capabilities(&self) -> Capabilities;

    fn max_rx_timeout(&self) -> Duration;
}

/// Report of a received frame.
#[derive(Clone, Copy, Eq, PartialEq, Debug)]
pub struct RxReport<T> {
    pub length: u16,
    pub fcs_good: bool,
    pub timestamp: T,
}

#[derive(Clone, Copy, Eq, PartialEq, Structural, Debug)]
pub enum OpError {
    ProhibitedInCurrentState(State),
    StartInstantNotAligned(Duration),
    UnsupportedConfig(ConfigError),
    ExcessiveRxTimeout(Duration),
    StartInstantPassed(Duration),
    BufferAccessBeyondFrameFormat(usize, u16),
    TxLengthAboveFrameFormat(u16, u16),
    TxLengthLessThanFcs(u16),
}

/// Error of a PHY operation: of the bus interface, of the device, or of the
/// requested operation itself.
#[derive(Debug)]
pub enum Error<IF, DEV> {
    Interface(IF),
    Device(DEV),
    Operation(OpError),
}

impl Default for RunConfig {
    fn default() -> (r: Self)
        ensures
            r.channel@ == 9,
            r.prf == MeanPrf::Mhz62,
            r.rx_preamble_code == 9,
            r.tx_preamble_code == 9,
            r.psr == Psr::Symbols64,
            r.sfd_type == SfdType::Sfd0,
            r.bit_rate == BitRate::Kbs850,
            !r.long_frame_format,
            !r.ranging,
            !r.correct_tx_fcs,
    {
        Self::new()
    }
}

/// Chips in one preamble symbol, IEEE 802.15.4-2020 table 15-5.
pub open spec fn spec_preamble_symbol_chips(prf: MeanPrf) -> nat {
    match prf {
        MeanPrf::Mhz4 => 31 * 64,
        MeanPrf::Mhz16 => 31 * 16,
        MeanPrf::Mhz62 => 127 * 4,
        MeanPrf::Mhz111 => 91 * 4,
    }
}

/// Chips in one PHR bit, IEEE 802.15.4-2020 table 15-3.
pub open spec fn spec_phr_bit_chips(bit_rate: BitRate) -> nat {
    match bit_rate {
        BitRate::Kbs110 => 4096,
        BitRate::Kbs850 | BitRate::Kbs6810 | BitRate::Kbs27240 => 512,
        BitRate::Kbs6810Only => 64,
    }
}

/// Chips in one PSDU bit, IEEE 802.15.4-2020 table 15-3.
pub open spec fn spec_psdu_bit_chips(bit_rate: BitRate) -> nat {
    match bit_rate {
        BitRate::Kbs110 => 4096,
        BitRate::Kbs850 => 512,
        BitRate::Kbs6810 | BitRate::Kbs6810Only => 64,
        BitRate::Kbs27240 => 16,
    }
}

/// Coded bits of a PSDU of `length` octets: the data bits plus 48 Reed-Solomon
/// parity bits for each started 330-bit block.
pub open spec fn spec_psdu_coded_bits(length: int) -> int {
    8 * length + crate::phy::time::spec_div_ceil(8 * length, 330) * 48
}

// See IEEE 802.15.4-2020, Table 15-5
pub fn preamble_symbol_duration(prf: MeanPrf) -> (r: Duration)
    ensures
        r@ == 128 * spec_preamble_symbol_chips(prf),
{
    let chip = Duration::chip();
    match prf {
        MeanPrf::Mhz4 => chip.mul_u32(31 * 64),
        MeanPrf::Mhz16 => chip.mul_u32(31 * 16),
        MeanPrf::Mhz62 => chip.mul_u32(127 * 4),
        MeanPrf::Mhz111 => chip.mul_u32(91 * 4),
    }
}

pub fn phr_bit_duration(bit_rate: BitRate) -> (r: Duration)
    ensures
        r@ == 128 * spec_phr_bit_chips(bit_rate),
{
    // See IEEE802.15.4-2020 table 15.3
    let chip = Duration::chip();
    match bit_rate {
        BitRate::Kbs110 => chip.mul_u32(4096),
        BitRate::Kbs850 | BitRate::Kbs6810 | BitRate::Kbs27240 => chip.mul_u32(512),
        BitRate::Kbs6810Only => chip.mul_u32(64),
    }
}

pub fn psdu_bit_duration(bit_rate: BitRate) -> (r: Duration)
    ensures
        r@ == 128 * spec_psdu_bit_chips(bit_rate),
{
    // See IEEE802.15.4-2020 table 15.3
    let chip = Duration::chip();
    match bit_rate {
        BitRate::Kbs110 => chip.mul_u32(4096),
        BitRate::Kbs850 => chip.mul_u32(512),
        BitRate::Kbs6810 | BitRate::Kbs6810Only => chip.mul_u32(64),
        BitRate::Kbs27240 => chip.mul_u32(16),
    }
}

/// Duration of the synchronization header: preamble repetitions plus SFD.
pub fn shr_duration(prf: MeanPrf, sfd_type: SfdType, psr: Psr) -> (r: Duration)
    ensures
        r@ == 128 * spec_preamble_symbol_chips(prf) * (spec_psr_symbols(psr) + spec_sfd_symbols(sfd_type)),
{
    let preamble_symbol_duration = preamble_symbol_duration(prf);
    let sync_length = psr.as_symbols();
    let shr_length = sync_length + sfd_type.as_symbols();
    proof {
        let c = 128 * spec_preamble_symbol_chips(prf);
        assert(c * shr_length <= 128 * 1984 * 4128) by (nonlinear_arith)
            requires
                0 <= c <= 128 * 1984,
                0 <= shr_length <= 4128,
        ;
    }
    preamble_symbol_duration.mul_u32(shr_length as u32)
}

/// Duration of the 18-bit PHY header.
pub fn phr_duration(bit_rate: BitRate) -> (r: Duration)
    ensures
        r@ == 128 * spec_phr_bit_chips(bit_rate) * 18,
{
    phr_bit_duration(bit_rate).mul_u32(18)
}

/// Duration of a PSDU of `length` octets, Reed-Solomon parity included.
pub fn psdu_duration(bit_rate: BitRate, length: u16) -> (r: Duration)
    ensures
        r@ == 128 * spec_psdu_bit_chips(bit_rate) * spec_psdu_coded_bits(length as int),
{
    let in_bit_length = length as u32 * 8;
    let block_count = crate::phy::time::u64_div_ceil(in_bit_length as u64, 330) as u32;
    proof {
        assert(block_count <= 1600) by (nonlinear_arith)
            requires
                block_count == crate::phy::time::spec_div_ceil(in_bit_length as int, 330),
                in_bit_length <= 65535 * 8,
        ;
    }
    let out_bit_length = in_bit_length + block_count * 48;
    proof {
        let c = 128 * spec_psdu_bit_chips(bit_rate);
        assert(c * out_bit_length <= 128 * 4096 * 700000) by (nonlinear_arith)
            requires
                0 <= c <= 128 * 4096,
                0 <= out_bit_length <= 700000,
        ;
    }
    psdu_bit_duration(bit_rate).mul_u32(out_bit_length)
}

/// PAN identifier.
#[derive(Clone, Copy, Eq, PartialEq, Structural, Debug)]
pub struct PanId(u16);

/// Short (16-bit) device address.
#[derive(Clone, Copy, Eq, PartialEq, Structural, Debug)]
pub struct ShortAddress(u16);

/// Extended (64-bit) device address.
#[derive(Clone, Copy, Eq, PartialEq, Structural, Debug)]
pub struct ExtendedAddress(u64);

impl View for PanId {
    type V = u16;

    closed spec fn view(&self) -> u16 {
        self.0
    }
}

impl View for ShortAddress {
    type V = u16;

    closed spec fn view(&self) -> u16 {
        self.0
    }
}

impl View for ExtendedAddress {
    type V = u64;

    closed spec fn view(&self) -> u64 {
        self.0
    }
}

impl PanId {
    pub closed spec fn from_view(value: u16) -> PanId {
        PanId(value)
    }

    pub fn new(value: u16) -> (r: Self)
        ensures
            r == Self::from_view(value),
    {
        PanId(value)
    }

    pub fn as_u16(self) -> (r: u16)
        ensures
            r == self@,
    {
        self.0
    }
}

impl ShortAddress {
    pub closed spec fn from_view(value: u16) -> ShortAddress {
        ShortAddress(value)
    }

    pub fn new(value: u16) -> (r: Self)
        ensures
            r == Self::from_view(value),
    {
        ShortAddress(value)
    }

    pub fn as_u16(self) -> (r: u16)
        ensures
            r == self@,
    {
        self.0
    }
}

impl ExtendedAddress {
    pub closed spec fn from_view(value: u64) -> ExtendedAddress {
        ExtendedAddress(value)
    }

    pub fn new(value: u64) -> (r: Self)
        ensures
            r == Self::from_view(value),
    {
        ExtendedAddress(value)
    }

    pub fn as_u64(self) -> (r: u64)
        ensures
            r == self@,
    {
        self.0
    }
}

/// An address built from a value holds that value.
pub broadcast proof fn lemma_pan_id_view(value: u16)
    ensures
        #[trigger] PanId::from_view(value)@ == value,
{
}

/// An address is the one built from its value.
pub broadcast proof fn lemma_pan_id_from_view(a: PanId)
    ensures
        PanId::from_view(#[trigger] a@) == a,
{
}

/// An address built from a value holds that value.
pub broadcast proof fn lemma_short_address_view(value: u16)
    ensures
        #[trigger] ShortAddress::from_view(value)@ == value,
{
}

/// An address is the one built from its value.
pub broadcast proof fn lemma_short_address_from_view(a: ShortAddress)
    ensures
        ShortAddress::from_view(#[trigger] a@) == a,
{
}

/// An address built from a value holds that value.
pub broadcast proof fn lemma_extended_address_view(value: u64)
    ensures
        #[trigger] ExtendedAddress::from_view(value)@ == value,
{
}

/// An address is the one built from its value.
pub broadcast proof fn lemma_extended_address_from_view(a: ExtendedAddress)
    ensures
        ExtendedAddress::from_view(#[trigger] a@) == a,
{
}

pub broadcast group group_address_views {
    lemma_pan_id_view,
    lemma_short_address_view,
    lemma_extended_address_view,
    lemma_pan_id_from_view,
    lemma_short_address_from_view,
    lemma_extended_address_from_view,
}


/// The PHY header goes at 850 kb/s, 512 chips a bit, in every mode but two:
/// the 110 kb/s mode and the 6.8 Mb/s-only mode send it at their own data
/// rate. So a PHR bit is never shorter than a data bit of the same mode.
pub proof fn law_phr_rate(bit_rate: BitRate)
    ensures
        spec_phr_bit_chips(bit_rate) == if bit_rate == BitRate::Kbs110 || bit_rate == BitRate::Kbs6810Only {
            spec_psdu_bit_chips(bit_rate)
        } else {
            spec_psdu_bit_chips(BitRate::Kbs850)
        },
        !(bit_rate == BitRate::Kbs110 || bit_rate == BitRate::Kbs6810Only) ==> spec_phr_bit_chips(bit_rate) == 512,
        spec_phr_bit_chips(bit_rate) >= spec_psdu_bit_chips(bit_rate),
{
}

/// Each step up in data rate shortens a data bit: 4096 chips at 110 kb/s,
/// eight times fewer at 850 kb/s, eight times fewer again at 6.8 Mb/s (with
/// or without the PHR at that rate) and four times fewer at 27 Mb/s.
pub proof fn law_psdu_rate()
    ensures
        spec_psdu_bit_chips(BitRate::Kbs110) == 4096,
        spec_psdu_bit_chips(BitRate::Kbs110) == 8 * spec_psdu_bit_chips(BitRate::Kbs850),
        spec_psdu_bit_chips(BitRate::Kbs850) == 8 * spec_psdu_bit_chips(BitRate::Kbs6810),
        spec_psdu_bit_chips(BitRate::Kbs6810Only) == spec_psdu_bit_chips(BitRate::Kbs6810),
        spec_psdu_bit_chips(BitRate::Kbs6810) == 4 * spec_psdu_bit_chips(BitRate::Kbs27240),
{
}

/// A run configuration passes the capability check exactly when the
/// capabilities name its channel (bits 0 to 15), preamble length (bits 20
/// to 29), mean PRF (bits 16 to 19), SFD (bits 30 to 34) and bit rate (bits
/// 35 to 39), both its preamble codes lie in the code range of its PRF
/// (1 to 8 at 4 and 16 MHz, 9 to 24 at 62 MHz, 25 to 32 at 111 MHz), and the
/// long frame format (bit 40) and TX FCS correction (bit 41) are named when
/// it asks for them.
pub proof fn law_check_capabilities(cfg: RunConfig, caps: u64)
    ensures
        spec_check_capabilities(cfg, caps) is Ok <==> {
            let (lo, hi): (u8, u8) = match cfg.prf {
                MeanPrf::Mhz4 | MeanPrf::Mhz16 => (1, 8),
                MeanPrf::Mhz62 => (9, 24),
                MeanPrf::Mhz111 => (25, 32),
            };
            &&& has_bit(caps, cfg.channel@ as u64)
            &&& has_bit(
                caps,
                match cfg.psr {
                    Psr::Symbols16 => 20,
                    Psr::Symbols32 => 21,
                    Psr::Symbols64 => 22,
                    Psr::Symbols128 => 23,
                    Psr::Symbols256 => 24,
                    Psr::Symbols512 => 25,
                    Psr::Symbols1024 => 26,
                    Psr::Symbols1536 => 27,
                    Psr::Symbols2048 => 28,
                    Psr::Symbols4096 => 29,
                },
            )
            &&& has_bit(
                caps,
                match cfg.prf {
                    MeanPrf::Mhz4 => 16,
                    MeanPrf::Mhz16 => 17,
                    MeanPrf::Mhz62 => 18,
                    MeanPrf::Mhz111 => 19,
                },
            )
            &&& lo <= cfg.rx_preamble_code <= hi
            &&& lo <= cfg.tx_preamble_code <= hi
            &&& has_bit(
                caps,
                match cfg.sfd_type {
                    SfdType::Sfd0 => 30,
                    SfdType::Sfd1 => 31,
                    SfdType::Sfd2 => 32,
                    SfdType::Sfd3 => 33,
                    SfdType::Sfd4 => 34,
                },
            )
            &&& has_bit(
                caps,
                match cfg.bit_rate {
                    BitRate::Kbs110 => 35,
                    BitRate::Kbs850 => 36,
                    BitRate::Kbs6810 => 37,
                    BitRate::Kbs6810Only => 38,
                    BitRate::Kbs27240 => 39,
                },
            )
            &&& cfg.long_frame_format ==> has_bit(caps, 40)
            &&& cfg.correct_tx_fcs ==> has_bit(caps, 41)
        },
{
}

} // verus!

//! The DW3000 registers the driver uses, with their bit fields.
use vstd::prelude::*;
use crate::dw3000::interface::{FileId, FullAddress, spec_full_address};
use crate::dw3000::ral::{
    Clear, FieldAccess, File, FromRaw, Read, Register, ToRaw, Write, ZeroOffsetFile, bit, field, spec_bit, spec_field,
    spec_with_bit, spec_with_field, with_bit, with_field,
};

verus! {

/// PHY header mode.
#[derive(Clone, Copy, Eq, PartialEq, Structural, Debug)]
pub enum PhrMode {
    /// Standard Frame mode as per IEEE802.15.4 standard
    StandardFrame,
    /// Long Frame mode encoding as per IEEE802.15.8 standard
    LongFrame,
}

impl PhrMode {
    /// The field value that selects this variant.
    pub open spec fn spec_code(self) -> u64 {
        match self {
            PhrMode::StandardFrame => 0,
            PhrMode::LongFrame => 1,
        }
    }

    /// The variant selected by the 1 low bits of `code`.
    pub open spec fn spec_from_code(code: u64) -> PhrMode {
        let c = code % 2;
        if c == 0 {
            PhrMode::StandardFrame
        } else {
            PhrMode::LongFrame
        }
    }

    pub fn code(self) -> (r: u64)
        ensures
            r == self.spec_code(),
            r < 2,
    {
        match self {
            PhrMode::StandardFrame => 0,
            PhrMode::LongFrame => 1,
        }
    }

    pub fn from_code(code: u64) -> (r: PhrMode)
        ensures
            r == PhrMode::spec_from_code(code),
    {
        let c = code % 2;
        if c == 0 {
            PhrMode::StandardFrame
        } else {
            PhrMode::LongFrame
        }
    }
}

/// A code read back from a field selects the variant written.
pub proof fn law_phr_mode_code(v: PhrMode)
    ensures
        PhrMode::spec_from_code(v.spec_code()) == v,
{
}

/// Where the STS sits in the packet.
#[derive(Clone, Copy, Eq, PartialEq, Structural, Debug)]
pub enum StsPocketPosition {
    /// No STS in the packet
    NoSts,
    /// The STS is between the SDF and the PHR
    AfterData,
    /// The STS is after the data, (i.e. at the end of the packet)
    BeforeData,
    /// The STS is after the SDF but there is no PHR or data
    StsOnly,
}

impl StsPocketPosition {
    /// The field value that selects this variant.
    pub open spec fn spec_code(self) -> u64 {
        match self {
            StsPocketPosition::NoSts => 0,
            StsPocketPosition::AfterData => 1,
            StsPocketPosition::BeforeData => 2,
            StsPocketPosition::StsOnly => 3,
        }
    }

    /// The variant selected by the 2 low bits of `code`.
    pub open spec fn spec_from_code(code: u64) -> StsPocketPosition {
        let c = code % 4;
        if c == 0 {
            StsPocketPosition::NoSts
        } else if c == 1 {
            StsPocketPosition::AfterData
        } else if c == 2 {
            StsPocketPosition::BeforeData
        } else {
            StsPocketPosition::StsOnly
        }
    }

    pub fn code(self) -> (r: u64)
        ensures
            r == self.spec_code(),
            r < 4,
    {
        match self {
            StsPocketPosition::NoSts => 0,
            StsPocketPosition::AfterData => 1,
            StsPocketPosition::BeforeData => 2,
            StsPocketPosition::StsOnly => 3,
        }
    }

    pub fn from_code(code: u64) -> (r: StsPocketPosition)
        ensures
            r == StsPocketPosition::spec_from_code(code),
    {
        let c = code % 4;
        if c == 0 {
            StsPocketPosition::NoSts
        } else if c == 1 {
            StsPocketPosition::AfterData
        } else if c == 2 {
            StsPocketPosition::BeforeData
        } else {
            StsPocketPosition::StsOnly
        }
    }
}

/// A code read back from a field selects the variant written.
pub proof fn law_sts_pocket_position_code(v: StsPocketPosition)
    ensures
        StsPocketPosition::spec_from_code(v.spec_code()) == v,
{
}

/// Phase difference of arrival mode.
#[derive(Clone, Copy, Eq, PartialEq, Structural, Debug)]
pub enum PdoaMode {
    Disable,
    Mode1,
    _Reserved2,
    Mode3,
}

impl PdoaMode {
    /// The field value that selects this variant.
    pub open spec fn spec_code(self) -> u64 {
        match self {
            PdoaMode::Disable => 0,
            PdoaMode::Mode1 => 1,
            PdoaMode::_Reserved2 => 2,
            PdoaMode::Mode3 => 3,
        }
    }

    /// The variant selected by the 2 low bits of `code`.
    pub open spec fn spec_from_code(code: u64) -> PdoaMode {
        let c = code % 4;
        if c == 0 {
            PdoaMode::Disable
        } else if c == 1 {
            PdoaMode::Mode1
        } else if c == 2 {
            PdoaMode::_Reserved2
        } else {
            PdoaMode::Mode3
        }
    }

    pub fn code(self) -> (r: u64)
        ensures
            r == self.spec_code(),
            r < 4,
    {
        match self {
            PdoaMode::Disable => 0,
            PdoaMode::Mode1 => 1,
            PdoaMode::_Reserved2 => 2,
            PdoaMode::Mode3 => 3,
        }
    }

    pub fn from_code(code: u64) -> (r: PdoaMode)
        ensures
            r == PdoaMode::spec_from_code(code),
    {
        let c = code % 4;
        if c == 0 {
            PdoaMode::Disable
        } else if c == 1 {
            PdoaMode::Mode1
        } else if c == 2 {
            PdoaMode::_Reserved2
        } else {
            PdoaMode::Mode3
        }
    }
}

/// A code read back from a field selects the variant written.
pub proof fn law_pdoa_mode_code(v: PdoaMode)
    ensures
        PdoaMode::spec_from_code(v.spec_code()) == v,
{
}

/// Receiver operating parameter set.
#[derive(Clone, Copy, Eq, PartialEq, Structural, Debug)]
pub enum ReceiverParameterSet {
    /// Parameter set 0, optimized for long preamble
    Long,
    /// Parameter set 1, reserved
    _Reserved1,
    /// Default parameter set, optimized for short preamble
    Short,
    _Reserved3,
}

impl ReceiverParameterSet {
    /// The field value that selects this variant.
    pub open spec fn spec_code(self) -> u64 {
        match self {
            ReceiverParameterSet::Long => 0,
            ReceiverParameterSet::_Reserved1 => 1,
            ReceiverParameterSet::Short => 2,
            ReceiverParameterSet::_Reserved3 => 3,
        }
    }

    /// The variant selected by the 2 low bits of `code`.
    pub open spec fn spec_from_code(code: u64) -> ReceiverParameterSet {
        let c = code % 4;
        if c == 0 {
            ReceiverParameterSet::Long
        } else if c == 1 {
            ReceiverParameterSet::_Reserved1
        } else if c == 2 {
            ReceiverParameterSet::Short
        } else {
            ReceiverParameterSet::_Reserved3
        }
    }

    pub fn code(self) -> (r: u64)
        ensures
            r == self.spec_code(),
            r < 4,
    {
        match self {
            ReceiverParameterSet::Long => 0,
            ReceiverParameterSet::_Reserved1 => 1,
            ReceiverParameterSet::Short => 2,
            ReceiverParameterSet::_Reserved3 => 3,
        }
    }

    pub fn from_code(code: u64) -> (r: ReceiverParameterSet)
        ensures
            r == ReceiverParameterSet::spec_from_code(code),
    {
        let c = code % 4;
        if c == 0 {
            ReceiverParameterSet::Long
        } else if c == 1 {
            ReceiverParameterSet::_Reserved1
        } else if c == 2 {
            ReceiverParameterSet::Short
        } else {
            ReceiverParameterSet::_Reserved3
        }
    }
}

/// A code read back from a field selects the variant written.
pub proof fn law_receiver_parameter_set_code(v: ReceiverParameterSet)
    ensures
        ReceiverParameterSet::spec_from_code(v.spec_code()) == v,
{
}

/// Radio channel.
#[derive(Clone, Copy, Eq, PartialEq, Structural, Debug)]
pub enum Channel {
    Channel5,
    Channel9,
}

impl Channel {
    /// The field value that selects this variant.
    pub open spec fn spec_code(self) -> u64 {
        match self {
            Channel::Channel5 => 0,
            Channel::Channel9 => 1,
        }
    }

    /// The variant selected by the 1 low bits of `code`.
    pub open spec fn spec_from_code(code: u64) -> Channel {
        let c = code % 2;
        if c == 0 {
            Channel::Channel5
        } else {
            Channel::Channel9
        }
    }

    pub fn code(self) -> (r: u64)
        ensures
            r == self.spec_code(),
            r < 2,
    {
        match self {
            Channel::Channel5 => 0,
            Channel::Channel9 => 1,
        }
    }

    pub fn from_code(code: u64) -> (r: Channel)
        ensures
            r == Channel::spec_from_code(code),
    {
        let c = code % 2;
        if c == 0 {
            Channel::Channel5
        } else {
            Channel::Channel9
        }
    }
}

/// A code read back from a field selects the variant written.
pub proof fn law_channel_code(v: Channel)
    ensures
        Channel::spec_from_code(v.spec_code()) == v,
{
}

/// Start of frame delimiter.
#[derive(Clone, Copy, Eq, PartialEq, Structural, Debug)]
pub enum SfdType {
    IeeeSfd0,
    Decawave8,
    Decawave16,
    IeeeSfd2,
}

impl SfdType {
    /// The field value that selects this variant.
    pub open spec fn spec_code(self) -> u64 {
        match self {
            SfdType::IeeeSfd0 => 0,
            SfdType::Decawave8 => 1,
            SfdType::Decawave16 => 2,
            SfdType::IeeeSfd2 => 3,
        }
    }

    /// The variant selected by the 2 low bits of `code`.
    pub open spec fn spec_from_code(code: u64) -> SfdType {
        let c = code % 4;
        if c == 0 {
            SfdType::IeeeSfd0
        } else if c == 1 {
            SfdType::Decawave8
        } else if c == 2 {
            SfdType::Decawave16
        } else {
            SfdType::IeeeSfd2
        }
    }

    pub fn code(self) -> (r: u64)
        ensures
            r == self.spec_code(),
            r < 4,
    {
        match self {
            SfdType::IeeeSfd0 => 0,
            SfdType::Decawave8 => 1,
            SfdType::Decawave16 => 2,
            SfdType::IeeeSfd2 => 3,
        }
    }

    pub fn from_code(code: u64) -> (r: SfdType)
        ensures
            r == SfdType::spec_from_code(code),
    {
        let c = code % 4;
        if c == 0 {
            SfdType::IeeeSfd0
        } else if c == 1 {
            SfdType::Decawave8
        } else if c == 2 {
            SfdType::Decawave16
        } else {
            SfdType::IeeeSfd2
        }
    }
}

/// A code read back from a field selects the variant written.
pub proof fn law_sfd_type_code(v: SfdType)
    ensures
        SfdType::spec_from_code(v.spec_code()) == v,
{
}

/// System clock source.
#[derive(Clone, Copy, Eq, PartialEq, Structural, Debug)]
pub enum ClockSource {
    /// Fastest available clock: FAST_RC/4, FAST_RC, PLL
    Auto,
    /// FAST_RC/4, about 30MHz
    FastRcDiv4,
    /// PLL clock, 125 MHz
    Pll,
    /// FAST_RC, about 120MHz
    FastRc,
}

impl ClockSource {
    /// The field value that selects this variant.
    pub open spec fn spec_code(self) -> u64 {
        match self {
            ClockSource::Auto => 0,
            ClockSource::FastRcDiv4 => 1,
            ClockSource::Pll => 2,
            ClockSource::FastRc => 3,
        }
    }

    /// The variant selected by the 2 low bits of `code`.
    pub open spec fn spec_from_code(code: u64) -> ClockSource {
        let c = code % 4;
        if c == 0 {
            ClockSource::Auto
        } else if c == 1 {
            ClockSource::FastRcDiv4
        } else if c == 2 {
            ClockSource::Pll
        } else {
            ClockSource::FastRc
        }
    }

    pub fn code(self) -> (r: u64)
        ensures
            r == self.spec_code(),
            r < 4,
    {
        match self {
            ClockSource::Auto => 0,
            ClockSource::FastRcDiv4 => 1,
            ClockSource::Pll => 2,
            ClockSource::FastRc => 3,
        }
    }

    pub fn from_code(code: u64) -> (r: ClockSource)
        ensures
            r == ClockSource::spec_from_code(code),
    {
        let c = code % 4;
        if c == 0 {
            ClockSource::Auto
        } else if c == 1 {
            ClockSource::FastRcDiv4
        } else if c == 2 {
            ClockSource::Pll
        } else {
            ClockSource::FastRc
        }
    }
}

/// A code read back from a field selects the variant written.
pub proof fn law_clock_source_code(v: ClockSource)
    ensures
        ClockSource::spec_from_code(v.spec_code()) == v,
{
}

/// Data rate of the payload.
#[derive(Clone, Copy, Eq, PartialEq, Structural, Debug)]
pub enum BitRate {
    Kbs850,
    Kbs6810,
}

impl BitRate {
    /// The field value that selects this variant.
    pub open spec fn spec_code(self) -> u64 {
        match self {
            BitRate::Kbs850 => 0,
            BitRate::Kbs6810 => 1,
        }
    }

    /// The variant selected by the 1 low bits of `code`.
    pub open spec fn spec_from_code(code: u64) -> BitRate {
        let c = code % 2;
        if c == 0 {
            BitRate::Kbs850
        } else {
            BitRate::Kbs6810
        }
    }

    pub fn code(self) -> (r: u64)
        ensures
            r == self.spec_code(),
            r < 2,
    {
        match self {
            BitRate::Kbs850 => 0,
            BitRate::Kbs6810 => 1,
        }
    }

    pub fn from_code(code: u64) -> (r: BitRate)
        ensures
            r == BitRate::spec_from_code(code),
    {
        let c = code % 2;
        if c == 0 {
            BitRate::Kbs850
        } else {
            BitRate::Kbs6810
        }
    }
}

/// A code read back from a field selects the variant written.
pub proof fn law_bit_rate_code(v: BitRate)
    ensures
        BitRate::spec_from_code(v.spec_code()) == v,
{
}

/// Transmit preamble length code.
#[derive(Clone, Copy, Eq, PartialEq, Structural, Debug)]
pub enum TxPreambleLength {
    /// undocumented
    Symbols16,
    Symbols64,
    Symbols1024,
    Symbols4096,
    Symbols32,
    Symbols128,
    Symbols1536,
    _Reserved7,
    _Reserved8,
    Symbols256,
    Symbols2048,
    _Reserved11,
    _Reserved12,
    Symbols512,
    _Reserved14,
    _Reserved15,
}

impl TxPreambleLength {
    /// The field value that selects this variant.
    pub open spec fn spec_code(self) -> u64 {
        match self {
            TxPreambleLength::Symbols16 => 0,
            TxPreambleLength::Symbols64 => 1,
            TxPreambleLength::Symbols1024 => 2,
            TxPreambleLength::Symbols4096 => 3,
            TxPreambleLength::Symbols32 => 4,
            TxPreambleLength::Symbols128 => 5,
            TxPreambleLength::Symbols1536 => 6,
            TxPreambleLength::_Reserved7 => 7,
            TxPreambleLength::_Reserved8 => 8,
            TxPreambleLength::Symbols256 => 9,
            TxPreambleLength::Symbols2048 => 10,
            TxPreambleLength::_Reserved11 => 11,
            TxPreambleLength::_Reserved12 => 12,
            TxPreambleLength::Symbols512 => 13,
            TxPreambleLength::_Reserved14 => 14,
            TxPreambleLength::_Reserved15 => 15,
        }
    }

    /// The variant selected by the 4 low bits of `code`.
    pub open spec fn spec_from_code(code: u64) -> TxPreambleLength {
        let c = code % 16;
        if c == 0 {
            TxPreambleLength::Symbols16
        } else if c == 1 {
            TxPreambleLength::Symbols64
        } else if c == 2 {
            TxPreambleLength::Symbols1024
        } else if c == 3 {
            TxPreambleLength::Symbols4096
        } else if c == 4 {
            TxPreambleLength::Symbols32
        } else if c == 5 {
            TxPreambleLength::Symbols128
        } else if c == 6 {
            TxPreambleLength::Symbols1536
        } else if c == 7 {
            TxPreambleLength::_Reserved7
        } else if c == 8 {
            TxPreambleLength::_Reserved8
        } else if c == 9 {
            TxPreambleLength::Symbols256
        } else if c == 10 {
            TxPreambleLength::Symbols2048
        } else if c == 11 {
            TxPreambleLength::_Reserved11
        } else if c == 12 {
            TxPreambleLength::_Reserved12
        } else if c == 13 {
            TxPreambleLength::Symbols512
        } else if c == 14 {
            TxPreambleLength::_Reserved14
        } else {
            TxPreambleLength::_Reserved15
        }
    }

    pub fn code(self) -> (r: u64)
        ensures
            r == self.spec_code(),
            r < 16,
    {
        match self {
            TxPreambleLength::Symbols16 => 0,
            TxPreambleLength::Symbols64 => 1,
            TxPreambleLength::Symbols1024 => 2,
            TxPreambleLength::Symbols4096 => 3,
            TxPreambleLength::Symbols32 => 4,
            TxPreambleLength::Symbols128 => 5,
            TxPreambleLength::Symbols1536 => 6,
            TxPreambleLength::_Reserved7 => 7,
            TxPreambleLength::_Reserved8 => 8,
            TxPreambleLength::Symbols256 => 9,
            TxPreambleLength::Symbols2048 => 10,
            TxPreambleLength::_Reserved11 => 11,
            TxPreambleLength::_Reserved12 => 12,
            TxPreambleLength::Symbols512 => 13,
            TxPreambleLength::_Reserved14 => 14,
            TxPreambleLength::_Reserved15 => 15,
        }
    }

    pub fn from_code(code: u64) -> (r: TxPreambleLength)
        ensures
            r == TxPreambleLength::spec_from_code(code),
    {
        let c = code % 16;
        if c == 0 {
            TxPreambleLength::Symbols16
        } else if c == 1 {
            TxPreambleLength::Symbols64
        } else if c == 2 {
            TxPreambleLength::Symbols1024
        } else if c == 3 {
            TxPreambleLength::Symbols4096
        } else if c == 4 {
            TxPreambleLength::Symbols32
        } else if c == 5 {
            TxPreambleLength::Symbols128
        } else if c == 6 {
            TxPreambleLength::Symbols1536
        } else if c == 7 {
            TxPreambleLength::_Reserved7
        } else if c == 8 {
            TxPreambleLength::_Reserved8
        } else if c == 9 {
            TxPreambleLength::Symbols256
        } else if c == 10 {
            TxPreambleLength::Symbols2048
        } else if c == 11 {
            TxPreambleLength::_Reserved11
        } else if c == 12 {
            TxPreambleLength::_Reserved12
        } else if c == 13 {
            TxPreambleLength::Symbols512
        } else if c == 14 {
            TxPreambleLength::_Reserved14
        } else {
            TxPreambleLength::_Reserved15
        }
    }
}

/// A code read back from a field selects the variant written.
pub proof fn law_tx_preamble_length_code(v: TxPreambleLength)
    ensures
        TxPreambleLength::spec_from_code(v.spec_code()) == v,
{
}

/// Preamble length reported for a received frame.
#[derive(Clone, Copy, Eq, PartialEq, Structural, Debug)]
pub enum RxPreambleLength {
    Symbols16,
    Symbols64,
    Symbols1024,
    Symbols4096,
}

impl RxPreambleLength {
    /// The field value that selects this variant.
    pub open spec fn spec_code(self) -> u64 {
        match self {
            RxPreambleLength::Symbols16 => 0,
            RxPreambleLength::Symbols64 => 1,
            RxPreambleLength::Symbols1024 => 2,
            RxPreambleLength::Symbols4096 => 3,
        }
    }

    /// The variant selected by the 2 low bits of `code`.
    pub open spec fn spec_from_code(code: u64) -> RxPreambleLength {
        let c = code % 4;
        if c == 0 {
            RxPreambleLength::Symbols16
        } else if c == 1 {
            RxPreambleLength::Symbols64
        } else if c == 2 {
            RxPreambleLength::Symbols1024
        } else {
            RxPreambleLength::Symbols4096
        }
    }

    pub fn code(self) -> (r: u64)
        ensures
            r == self.spec_code(),
            r < 4,
    {
        match self {
            RxPreambleLength::Symbols16 => 0,
            RxPreambleLength::Symbols64 => 1,
            RxPreambleLength::Symbols1024 => 2,
            RxPreambleLength::Symbols4096 => 3,
        }
    }

    pub fn from_code(code: u64) -> (r: RxPreambleLength)
        ensures
            r == RxPreambleLength::spec_from_code(code),
    {
        let c = code % 4;
        if c == 0 {
            RxPreambleLength::Symbols16
        } else if c == 1 {
            RxPreambleLength::Symbols64
        } else if c == 2 {
            RxPreambleLength::Symbols1024
        } else {
            RxPreambleLength::Symbols4096
        }
    }
}

/// A code read back from a field selects the variant written.
pub proof fn law_rx_preamble_length_code(v: RxPreambleLength)
    ensures
        RxPreambleLength::spec_from_code(v.spec_code()) == v,
{
}

/// Preamble acquisition chunk size.
#[derive(Clone, Copy, Eq, PartialEq, Structural, Debug)]
pub enum Pac {
    Symbols8,
    Symbols16,
    Symbols32,
    Symbols4,
}

impl Pac {
    /// The field value that selects this variant.
    pub open spec fn spec_code(self) -> u64 {
        match self {
            Pac::Symbols8 => 0,
            Pac::Symbols16 => 1,
            Pac::Symbols32 => 2,
            Pac::Symbols4 => 3,
        }
    }

    /// The variant selected by the 2 low bits of `code`.
    pub open spec fn spec_from_code(code: u64) -> Pac {
        let c = code % 4;
        if c == 0 {
            Pac::Symbols8
        } else if c == 1 {
            Pac::Symbols16
        } else if c == 2 {
            Pac::Symbols32
        } else {
            Pac::Symbols4
        }
    }

    pub fn code(self) -> (r: u64)
        ensures
            r == self.spec_code(),
            r < 4,
    {
        match self {
            Pac::Symbols8 => 0,
            Pac::Symbols16 => 1,
            Pac::Symbols32 => 2,
            Pac::Symbols4 => 3,
        }
    }

    pub fn from_code(code: u64) -> (r: Pac)
        ensures
            r == Pac::spec_from_code(code),
    {
        let c = code % 4;
        if c == 0 {
            Pac::Symbols8
        } else if c == 1 {
            Pac::Symbols16
        } else if c == 2 {
            Pac::Symbols32
        } else {
            Pac::Symbols4
        }
    }
}

/// A code read back from a field selects the variant written.
pub proof fn law_pac_code(v: Pac)
    ensures
        Pac::spec_from_code(v.spec_code()) == v,
{
}

/// Receiver calibration mode.
#[derive(Clone, Copy, Eq, PartialEq, Structural, Debug)]
pub enum CalibrationMode {
    NormalOperation,
    Calibration,
    _Reserved2,
    _Reserved3,
}

impl CalibrationMode {
    /// The field value that selects this variant.
    pub open spec fn spec_code(self) -> u64 {
        match self {
            CalibrationMode::NormalOperation => 0,
            CalibrationMode::Calibration => 1,
            CalibrationMode::_Reserved2 => 2,
            CalibrationMode::_Reserved3 => 3,
        }
    }

    /// The variant selected by the 2 low bits of `code`.
    pub open spec fn spec_from_code(code: u64) -> CalibrationMode {
        let c = code % 4;
        if c == 0 {
            CalibrationMode::NormalOperation
        } else if c == 1 {
            CalibrationMode::Calibration
        } else if c == 2 {
            CalibrationMode::_Reserved2
        } else {
            CalibrationMode::_Reserved3
        }
    }

    pub fn code(self) -> (r: u64)
        ensures
            r == self.spec_code(),
            r < 4,
    {
        match self {
            CalibrationMode::NormalOperation => 0,
            CalibrationMode::Calibration => 1,
            CalibrationMode::_Reserved2 => 2,
            CalibrationMode::_Reserved3 => 3,
        }
    }

    pub fn from_code(code: u64) -> (r: CalibrationMode)
        ensures
            r == CalibrationMode::spec_from_code(code),
    {
        let c = code % 4;
        if c == 0 {
            CalibrationMode::NormalOperation
        } else if c == 1 {
            CalibrationMode::Calibration
        } else if c == 2 {
            CalibrationMode::_Reserved2
        } else {
            CalibrationMode::_Reserved3
        }
    }
}

/// A code read back from a field selects the variant written.
pub proof fn law_calibration_mode_code(v: CalibrationMode)
    ensures
        CalibrationMode::spec_from_code(v.spec_code()) == v,
{
}

/// Mean pulse repetition frequency of a received frame.
#[derive(Clone, Copy, Eq, PartialEq, Structural, Debug)]
pub enum RxPfr {
    _Reserved00,
    Mhz16,
    Mhz64,
    _Reserved11,
}

impl RxPfr {
    /// The field value that selects this variant.
    pub open spec fn spec_code(self) -> u64 {
        match self {
            RxPfr::_Reserved00 => 0,
            RxPfr::Mhz16 => 1,
            RxPfr::Mhz64 => 2,
            RxPfr::_Reserved11 => 3,
        }
    }

    /// The variant selected by the 2 low bits of `code`.
    pub open spec fn spec_from_code(code: u64) -> RxPfr {
        let c = code % 4;
        if c == 0 {
            RxPfr::_Reserved00
        } else if c == 1 {
            RxPfr::Mhz16
        } else if c == 2 {
            RxPfr::Mhz64
        } else {
            RxPfr::_Reserved11
        }
    }

    pub fn code(self) -> (r: u64)
        ensures
            r == self.spec_code(),
            r < 4,
    {
        match self {
            RxPfr::_Reserved00 => 0,
            RxPfr::Mhz16 => 1,
            RxPfr::Mhz64 => 2,
            RxPfr::_Reserved11 => 3,
        }
    }

    pub fn from_code(code: u64) -> (r: RxPfr)
        ensures
            r == RxPfr::spec_from_code(code),
    {
        let c = code % 4;
        if c == 0 {
            RxPfr::_Reserved00
        } else if c == 1 {
            RxPfr::Mhz16
        } else if c == 2 {
            RxPfr::Mhz64
        } else {
            RxPfr::_Reserved11
        }
    }
}

/// A code read back from a field selects the variant written.
pub proof fn law_rx_pfr_code(v: RxPfr)
    ensures
        RxPfr::spec_from_code(v.spec_code()) == v,
{
}

/// Device Identifier
#[derive(Copy, Clone, Debug)]
pub struct DevId(pub u64);

impl Register for DevId {
    open spec fn spec_address() -> u16 {
        spec_full_address(0x00, 0x00)
    }

    open spec fn spec_length() -> nat {
        4
    }

    fn address() -> (r: FullAddress) {
        FullAddress::new(FileId::new(0x00), 0x00)
    }

    fn length() -> (r: usize) {
        4
    }
}

impl Read for DevId {

}

impl FieldAccess for DevId {
    type BaseType = u32;
}

impl FromRaw for DevId {
    /// The value truncated to the register's u32.
    open spec fn spec_from_raw(value: u64) -> DevId {
        DevId(value & 0xffffffff)
    }

    fn from_raw(value: u64) -> (r: DevId) {
        DevId(value & 0xffffffff)
    }
}

impl ToRaw for DevId {
    open spec fn spec_to_raw(self) -> u64 {
        self.0
    }

    fn to_raw(self) -> (r: u64) {
        self.0
    }
}

impl DevId {
    /// Revision
    pub fn rev(&self) -> (r: u8)
        ensures
            r == spec_field(self.0, 0, 4) as u8,
    {
        field(self.0, 0, 4) as u8
    }

    /// Revision
    pub fn set_rev(&mut self, value: u8)
        ensures
            final(self).0 == spec_with_field(old(self).0, 0, 4, value as u64),
    {
        self.0 = with_field(self.0, 0, 4, value as u64);
    }

    /// Version
    pub fn ver(&self) -> (r: u8)
        ensures
            r == spec_field(self.0, 4, 8) as u8,
    {
        field(self.0, 4, 8) as u8
    }

    /// Version
    pub fn set_ver(&mut self, value: u8)
        ensures
            final(self).0 == spec_with_field(old(self).0, 4, 8, value as u64),
    {
        self.0 = with_field(self.0, 4, 8, value as u64);
    }

    /// Model
    pub fn model(&self) -> (r: u8)
        ensures
            r == spec_field(self.0, 8, 16) as u8,
    {
        field(self.0, 8, 16) as u8
    }

    /// Model
    pub fn set_model(&mut self, value: u8)
        ensures
            final(self).0 == spec_with_field(old(self).0, 8, 16, value as u64),
    {
        self.0 = with_field(self.0, 8, 16, value as u64);
    }

    /// Register Identification Tag
    pub fn ridtag(&self) -> (r: u16)
        ensures
            r == spec_field(self.0, 16, 32) as u16,
    {
        field(self.0, 16, 32) as u16
    }

    /// Register Identification Tag
    pub fn set_ridtag(&mut self, value: u16)
        ensures
            final(self).0 == spec_with_field(old(self).0, 16, 32, value as u64),
    {
        self.0 = with_field(self.0, 16, 32, value as u64);
    }
}

/// System Configuration
#[derive(Copy, Clone, Debug)]
pub struct SysCfg(pub u64);

impl Register for SysCfg {
    open spec fn spec_address() -> u16 {
        spec_full_address(0x00, 0x10)
    }

    open spec fn spec_length() -> nat {
        4
    }

    fn address() -> (r: FullAddress) {
        FullAddress::new(FileId::new(0x00), 0x10)
    }

    fn length() -> (r: usize) {
        4
    }
}

impl Read for SysCfg {

}

impl Write for SysCfg {

}

impl FieldAccess for SysCfg {
    type BaseType = u32;
}

impl FromRaw for SysCfg {
    /// The value truncated to the register's u32.
    open spec fn spec_from_raw(value: u64) -> SysCfg {
        SysCfg(value & 0xffffffff)
    }

    fn from_raw(value: u64) -> (r: SysCfg) {
        SysCfg(value & 0xffffffff)
    }
}

impl ToRaw for SysCfg {
    open spec fn spec_to_raw(self) -> u64 {
        self.0
    }

    fn to_raw(self) -> (r: u64) {
        self.0
    }
}

impl Default for SysCfg {
    /// The value after power-on reset.
    fn default() -> (r: SysCfg)
        ensures
            r.0 == 0x41188,
    {
        SysCfg(0x41188)
    }
}

impl SysCfg {
    /// Frame Filtering Enable
    pub fn ffen(&self) -> (r: bool)
        ensures
            r == spec_bit(self.0, 0),
    {
        bit(self.0, 0)
    }

    /// Frame Filtering Enable
    pub fn set_ffen(&mut self, value: bool)
        ensures
            final(self).0 == spec_with_bit(old(self).0, 0, value),
    {
        self.0 = with_bit(self.0, 0, value);
    }

    /// Disable auto-FCS Transmission
    pub fn dis_fcs_tx(&self) -> (r: bool)
        ensures
            r == spec_bit(self.0, 1),
    {
        bit(self.0, 1)
    }

    /// Disable auto-FCS Transmission
    pub fn set_dis_fcs_tx(&mut self, value: bool)
        ensures
            final(self).0 == spec_with_bit(old(self).0, 1, value),
    {
        self.0 = with_bit(self.0, 1, value);
    }

    /// Disable frame check error handling
    pub fn dis_fce(&self) -> (r: bool)
        ensures
            r == spec_bit(self.0, 2),
    {
        bit(self.0, 2)
    }

    /// Disable frame check error handling
    pub fn set_dis_fce(&mut self, value: bool)
        ensures
            final(self).0 == spec_with_bit(old(self).0, 2, value),
    {
        self.0 = with_bit(self.0, 2, value);
    }

    /// Disable Double RX Buffer
    pub fn dis_drxb(&self) -> (r: bool)
        ensures
            r == spec_bit(self.0, 3),
    {
        bit(self.0, 3)
    }

    /// Disable Double RX Buffer
    pub fn set_dis_drxb(&mut self, value: bool)
        ensures
            final(self).0 == spec_with_bit(old(self).0, 3, value),
    {
        self.0 = with_bit(self.0, 3, value);
    }

    /// PHR mode
    pub fn phr_mode(&self) -> (r: PhrMode)
        ensures
            r == PhrMode::spec_from_code(spec_field(self.0, 4, 5)),
    {
        PhrMode::from_code(field(self.0, 4, 5))
    }

    /// PHR mode
    pub fn set_phr_mode(&mut self, value: PhrMode)
        ensures
            final(self).0 == spec_with_field(old(self).0, 4, 5, value.spec_code()),
    {
        self.0 = with_field(self.0, 4, 5, value.code());
    }

    /// 6.81 Mb/s data for PHR
    pub fn phr_6m8(&self) -> (r: bool)
        ensures
            r == spec_bit(self.0, 5),
    {
        bit(self.0, 5)
    }

    /// 6.81 Mb/s data for PHR
    pub fn set_phr_6m8(&mut self, value: bool)
        ensures
            final(self).0 == spec_with_bit(old(self).0, 5, value),
    {
        self.0 = with_bit(self.0, 5, value);
    }

    /// Enable SPI CRC functionality
    pub fn spi_crcen(&self) -> (r: bool)
        ensures
            r == spec_bit(self.0, 6),
    {
        bit(self.0, 6)
    }

    /// Enable SPI CRC functionality
    pub fn set_spi_crcen(&mut self, value: bool)
        ensures
            final(self).0 == spec_with_bit(old(self).0, 6, value),
    {
        self.0 = with_bit(self.0, 6, value);
    }

    /// Select CIA processing of the preamble CIR
    pub fn cia_ipatov(&self) -> (r: bool)
        ensures
            r == spec_bit(self.0, 7),
    {
        bit(self.0, 7)
    }

    /// Select CIA processing of the preamble CIR
    pub fn set_cia_ipatov(&mut self, value: bool)
        ensures
            final(self).0 == spec_with_bit(old(self).0, 7, value),
    {
        self.0 = with_bit(self.0, 7, value);
    }

    /// Select CIA processing of the STS CIR
    pub fn cia_sts(&self) -> (r: bool)
        ensures
            r == spec_bit(self.0, 8),
    {
        bit(self.0, 8)
    }

    /// Select CIA processing of the STS CIR
    pub fn set_cia_sts(&mut self, value: bool)
        ensures
            final(self).0 == spec_with_bit(old(self).0, 8, value),
    {
        self.0 = with_bit(self.0, 8, value);
    }

    /// Receive Wait Timeout Enable
    pub fn rxwtoe(&self) -> (r: bool)
        ensures
            r == spec_bit(self.0, 9),
    {
        bit(self.0, 9)
    }

    /// Receive Wait Timeout Enable
    pub fn set_rxwtoe(&mut self, value: bool)
        ensures
            final(self).0 == spec_with_bit(old(self).0, 9, value),
    {
        self.0 = with_bit(self.0, 9, value);
    }

    /// Receiver Auto-Re-enable
    pub fn rxautr(&self) -> (r: bool)
        ensures
            r == spec_bit(self.0, 10),
    {
        bit(self.0, 10)
    }

    /// Receiver Auto-Re-enable
    pub fn set_rxautr(&mut self, value: bool)
        ensures
            final(self).0 == spec_with_bit(old(self).0, 10, value),
    {
        self.0 = with_bit(self.0, 10, value);
    }

    /// Automatic Acknowledgement Enable
    pub fn auto_ack(&self) -> (r: bool)
        ensures
            r == spec_bit(self.0, 11),
    {
        bit(self.0, 11)
    }

    /// Automatic Acknowledgement Enable
    pub fn set_auto_ack(&mut self, value: bool)
        ensures
            final(self).0 == spec_with_bit(old(self).0, 11, value),
    {
        self.0 = with_bit(self.0, 11, value);
    }

    /// STS packet configuration
    pub fn cp_spc(&self) -> (r: StsPocketPosition)
        ensures
            r == StsPocketPosition::spec_from_code(spec_field(self.0, 12, 14)),
    {
        StsPocketPosition::from_code(field(self.0, 12, 14))
    }

    /// STS packet configuration
    pub fn set_cp_spc(&mut self, value: StsPocketPosition)
        ensures
            final(self).0 == spec_with_field(old(self).0, 12, 14, value.spec_code()),
    {
        self.0 = with_field(self.0, 12, 14, value.code());
    }

    /// Super Deterministic Code (SDC) mode enabled
    pub fn cp_sdc(&self) -> (r: bool)
        ensures
            r == spec_bit(self.0, 15),
    {
        bit(self.0, 15)
    }

    /// Super Deterministic Code (SDC) mode enabled
    pub fn set_cp_sdc(&mut self, value: bool)
        ensures
            final(self).0 == spec_with_bit(old(self).0, 15, value),
    {
        self.0 = with_bit(self.0, 15, value);
    }

    /// PDoA mode
    pub fn pdoa_mode(&self) -> (r: PdoaMode)
        ensures
            r == PdoaMode::spec_from_code(spec_field(self.0, 16, 18)),
    {
        PdoaMode::from_code(field(self.0, 16, 18))
    }

    /// PDoA mode
    pub fn set_pdoa_mode(&mut self, value: PdoaMode)
        ensures
            final(self).0 == spec_with_field(old(self).0, 16, 18, value.spec_code()),
    {
        self.0 = with_field(self.0, 16, 18, value.code());
    }

    /// Enable fast RX to TX turn around mode
    pub fn fast_aat(&self) -> (r: bool)
        ensures
            r == spec_bit(self.0, 18),
    {
        bit(self.0, 18)
    }

    /// Enable fast RX to TX turn around mode
    pub fn set_fast_aat(&mut self, value: bool)
        ensures
            final(self).0 == spec_with_bit(old(self).0, 18, value),
    {
        self.0 = with_bit(self.0, 18, value);
    }
}

/// System Time Counter
#[derive(Copy, Clone, Debug)]
pub struct SysTime(pub u64);

impl Register for SysTime {
    open spec fn spec_address() -> u16 {
        spec_full_address(0x00, 0x1c)
    }

    open spec fn spec_length() -> nat {
        4
    }

    fn address() -> (r: FullAddress) {
        FullAddress::new(FileId::new(0x00), 0x1c)
    }

    fn length() -> (r: usize) {
        4
    }
}

impl Read for SysTime {

}

/// Transmit frame control, bytes 0..=1
#[derive(Copy, Clone, Debug)]
pub struct TxFctrlShort(pub u64);

impl Register for TxFctrlShort {
    open spec fn spec_address() -> u16 {
        spec_full_address(0x00, 0x24)
    }

    open spec fn spec_length() -> nat {
        2
    }

    fn address() -> (r: FullAddress) {
        FullAddress::new(FileId::new(0x00), 0x24)
    }

    fn length() -> (r: usize) {
        2
    }
}

impl Read for TxFctrlShort {

}

impl Write for TxFctrlShort {

}

impl FieldAccess for TxFctrlShort {
    type BaseType = u16;
}

impl FromRaw for TxFctrlShort {
    /// The value truncated to the register's u16.
    open spec fn spec_from_raw(value: u64) -> TxFctrlShort {
        TxFctrlShort(value & 0xffff)
    }

    fn from_raw(value: u64) -> (r: TxFctrlShort) {
        TxFctrlShort(value & 0xffff)
    }
}

impl ToRaw for TxFctrlShort {
    open spec fn spec_to_raw(self) -> u64 {
        self.0
    }

    fn to_raw(self) -> (r: u64) {
        self.0
    }
}

impl Default for TxFctrlShort {
    /// The value after power-on reset.
    fn default() -> (r: TxFctrlShort)
        ensures
            r.0 == 0x1c0c,
    {
        TxFctrlShort(0x1c0c)
    }
}

impl TxFctrlShort {
    /// Transmit frame length
    pub fn txflen(&self) -> (r: u16)
        ensures
            r == spec_field(self.0, 0, 10) as u16,
    {
        field(self.0, 0, 10) as u16
    }

    /// Transmit frame length
    pub fn set_txflen(&mut self, value: u16)
        ensures
            final(self).0 == spec_with_field(old(self).0, 0, 10, value as u64),
    {
        self.0 = with_field(self.0, 0, 10, value as u64);
    }

    /// Transmit bit rate
    pub fn txbr(&self) -> (r: BitRate)
        ensures
            r == BitRate::spec_from_code(spec_field(self.0, 10, 11)),
    {
        BitRate::from_code(field(self.0, 10, 11))
    }

    /// Transmit bit rate
    pub fn set_txbr(&mut self, value: BitRate)
        ensures
            final(self).0 == spec_with_field(old(self).0, 10, 11, value.spec_code()),
    {
        self.0 = with_field(self.0, 10, 11, value.code());
    }

    /// Transmit ranging enable
    pub fn tr(&self) -> (r: bool)
        ensures
            r == spec_bit(self.0, 11),
    {
        bit(self.0, 11)
    }

    /// Transmit ranging enable
    pub fn set_tr(&mut self, value: bool)
        ensures
            final(self).0 == spec_with_bit(old(self).0, 11, value),
    {
        self.0 = with_bit(self.0, 11, value);
    }

    /// Transmit preamble symbol repetition (PSR)
    pub fn txpsr(&self) -> (r: TxPreambleLength)
        ensures
            r == TxPreambleLength::spec_from_code(spec_field(self.0, 12, 16)),
    {
        TxPreambleLength::from_code(field(self.0, 12, 16))
    }

    /// Transmit preamble symbol repetition (PSR)
    pub fn set_txpsr(&mut self, value: TxPreambleLength)
        ensures
            final(self).0 == spec_with_field(old(self).0, 12, 16, value.spec_code()),
    {
        self.0 = with_field(self.0, 12, 16, value.code());
    }
}

/// Delayed send or receive time
#[derive(Copy, Clone, Debug)]
pub struct DxTime(pub u64);

impl Register for DxTime {
    open spec fn spec_address() -> u16 {
        spec_full_address(0x00, 0x2c)
    }

    open spec fn spec_length() -> nat {
        4
    }

    fn address() -> (r: FullAddress) {
        FullAddress::new(FileId::new(0x00), 0x2c)
    }

    fn length() -> (r: usize) {
        4
    }
}

impl Read for DxTime {

}

impl Write for DxTime {

}

/// Delayed send or receive reference time
#[derive(Copy, Clone, Debug)]
pub struct DrefTime(pub u64);

impl Register for DrefTime {
    open spec fn spec_address() -> u16 {
        spec_full_address(0x00, 0x30)
    }

    open spec fn spec_length() -> nat {
        4
    }

    fn address() -> (r: FullAddress) {
        FullAddress::new(FileId::new(0x00), 0x30)
    }

    fn length() -> (r: usize) {
        4
    }
}

impl Read for DrefTime {

}

impl Write for DrefTime {

}

/// Receive frame wait timeout
#[derive(Copy, Clone, Debug)]
pub struct RxFwto(pub u64);

impl Register for RxFwto {
    open spec fn spec_address() -> u16 {
        spec_full_address(0x00, 0x34)
    }

    open spec fn spec_length() -> nat {
        3
    }

    fn address() -> (r: FullAddress) {
        FullAddress::new(FileId::new(0x00), 0x34)
    }

    fn length() -> (r: usize) {
        3
    }
}

impl Read for RxFwto {

}

impl Write for RxFwto {

}

impl FieldAccess for RxFwto {
    type BaseType = u32;
}

impl FromRaw for RxFwto {
    /// The value truncated to the register's u32.
    open spec fn spec_from_raw(value: u64) -> RxFwto {
        RxFwto(value & 0xffffffff)
    }

    fn from_raw(value: u64) -> (r: RxFwto) {
        RxFwto(value & 0xffffffff)
    }
}

impl ToRaw for RxFwto {
    open spec fn spec_to_raw(self) -> u64 {
        self.0
    }

    fn to_raw(self) -> (r: u64) {
        self.0
    }
}

impl Default for RxFwto {
    /// The value after power-on reset.
    fn default() -> (r: RxFwto)
        ensures
            r.0 == 0x0,
    {
        RxFwto(0x0)
    }
}

impl RxFwto {
    /// Receive frame wait timeout, 1.0256us per unit
    pub fn rx_fwto(&self) -> (r: u32)
        ensures
            r == spec_field(self.0, 0, 20) as u32,
    {
        field(self.0, 0, 20) as u32
    }

    /// Receive frame wait timeout, 1.0256us per unit
    pub fn set_rx_fwto(&mut self, value: u32)
        ensures
            final(self).0 == spec_with_field(old(self).0, 0, 20, value as u64),
    {
        self.0 = with_field(self.0, 0, 20, value as u64);
    }
}

/// System event enable mask, bytes 0..=3
#[derive(Copy, Clone, Debug)]
pub struct SysEnableLow(pub u64);

impl Register for SysEnableLow {
    open spec fn spec_address() -> u16 {
        spec_full_address(0x00, 0x3c)
    }

    open spec fn spec_length() -> nat {
        4
    }

    fn address() -> (r: FullAddress) {
        FullAddress::new(FileId::new(0x00), 0x3c)
    }

    fn length() -> (r: usize) {
        4
    }
}

impl Read for SysEnableLow {

}

impl Write for SysEnableLow {

}

/// System event enable mask, bytes 4..=5
#[derive(Copy, Clone, Debug)]
pub struct SysEnableHigh(pub u64);

impl Register for SysEnableHigh {
    open spec fn spec_address() -> u16 {
        spec_full_address(0x00, 0x40)
    }

    open spec fn spec_length() -> nat {
        2
    }

    fn address() -> (r: FullAddress) {
        FullAddress::new(FileId::new(0x00), 0x40)
    }

    fn length() -> (r: usize) {
        2
    }
}

impl Read for SysEnableHigh {

}

impl Write for SysEnableHigh {

}

/// System event status, bytes 0..=3
#[derive(Copy, Clone, Debug)]
pub struct SysStatusLow(pub u64);

impl Register for SysStatusLow {
    open spec fn spec_address() -> u16 {
        spec_full_address(0x00, 0x44)
    }

    open spec fn spec_length() -> nat {
        4
    }

    fn address() -> (r: FullAddress) {
        FullAddress::new(FileId::new(0x00), 0x44)
    }

    fn length() -> (r: usize) {
        4
    }
}

impl Read for SysStatusLow {

}

impl Clear for SysStatusLow {

}

/// RX frame information, bytes 0..=1
#[derive(Copy, Clone, Debug)]
pub struct RxFinfoShort(pub u64);

impl Register for RxFinfoShort {
    open spec fn spec_address() -> u16 {
        spec_full_address(0x00, 0x4c)
    }

    open spec fn spec_length() -> nat {
        2
    }

    fn address() -> (r: FullAddress) {
        FullAddress::new(FileId::new(0x00), 0x4c)
    }

    fn length() -> (r: usize) {
        2
    }
}

impl Read for RxFinfoShort {

}

impl FieldAccess for RxFinfoShort {
    type BaseType = u16;
}

impl FromRaw for RxFinfoShort {
    /// The value truncated to the register's u16.
    open spec fn spec_from_raw(value: u64) -> RxFinfoShort {
        RxFinfoShort(value & 0xffff)
    }

    fn from_raw(value: u64) -> (r: RxFinfoShort) {
        RxFinfoShort(value & 0xffff)
    }
}

impl ToRaw for RxFinfoShort {
    open spec fn spec_to_raw(self) -> u64 {
        self.0
    }

    fn to_raw(self) -> (r: u64) {
        self.0
    }
}

impl RxFinfoShort {
    /// Receive frame length
    pub fn rxflen(&self) -> (r: u16)
        ensures
            r == spec_field(self.0, 0, 10) as u16,
    {
        field(self.0, 0, 10) as u16
    }

    /// Receive frame length
    pub fn set_rxflen(&mut self, value: u16)
        ensures
            final(self).0 == spec_with_field(old(self).0, 0, 10, value as u64),
    {
        self.0 = with_field(self.0, 0, 10, value as u64);
    }
}

/// Receive accurate time stamp
#[derive(Copy, Clone, Debug)]
pub struct RxTime(pub u64);

impl Register for RxTime {
    open spec fn spec_address() -> u16 {
        spec_full_address(0x00, 0x64)
    }

    open spec fn spec_length() -> nat {
        5
    }

    fn address() -> (r: FullAddress) {
        FullAddress::new(FileId::new(0x00), 0x64)
    }

    fn length() -> (r: usize) {
        5
    }
}

impl Read for RxTime {

}

/// Receive raw time stamp
#[derive(Copy, Clone, Debug)]
pub struct RxRawst(pub u64);

impl Register for RxRawst {
    open spec fn spec_address() -> u16 {
        spec_full_address(0x00, 0x70)
    }

    open spec fn spec_length() -> nat {
        4
    }

    fn address() -> (r: FullAddress) {
        FullAddress::new(FileId::new(0x00), 0x70)
    }

    fn length() -> (r: usize) {
        4
    }
}

impl Read for RxRawst {

}

/// Transmit power control
#[derive(Copy, Clone, Debug)]
pub struct TxPower(pub u64);

impl Register for TxPower {
    open spec fn spec_address() -> u16 {
        spec_full_address(0x01, 0x0c)
    }

    open spec fn spec_length() -> nat {
        4
    }

    fn address() -> (r: FullAddress) {
        FullAddress::new(FileId::new(0x01), 0x0c)
    }

    fn length() -> (r: usize) {
        4
    }
}

impl Read for TxPower {

}

impl Write for TxPower {

}

impl FieldAccess for TxPower {
    type BaseType = u32;
}

impl FromRaw for TxPower {
    /// The value truncated to the register's u32.
    open spec fn spec_from_raw(value: u64) -> TxPower {
        TxPower(value & 0xffffffff)
    }

    fn from_raw(value: u64) -> (r: TxPower) {
        TxPower(value & 0xffffffff)
    }
}

impl ToRaw for TxPower {
    open spec fn spec_to_raw(self) -> u64 {
        self.0
    }

    fn to_raw(self) -> (r: u64) {
        self.0
    }
}

impl Default for TxPower {
    /// The value after power-on reset.
    fn default() -> (r: TxPower)
        ensures
            r.0 == 0x82828282,
    {
        TxPower(0x82828282)
    }
}

impl TxPower {
    /// Data transmit power
    pub fn data_pwr(&self) -> (r: u8)
        ensures
            r == spec_field(self.0, 0, 8) as u8,
    {
        field(self.0, 0, 8) as u8
    }

    /// Data transmit power
    pub fn set_data_pwr(&mut self, value: u8)
        ensures
            final(self).0 == spec_with_field(old(self).0, 0, 8, value as u64),
    {
        self.0 = with_field(self.0, 0, 8, value as u64);
    }

    /// PHY header transmit power
    pub fn phr_pwr(&self) -> (r: u8)
        ensures
            r == spec_field(self.0, 8, 16) as u8,
    {
        field(self.0, 8, 16) as u8
    }

    /// PHY header transmit power
    pub fn set_phr_pwr(&mut self, value: u8)
        ensures
            final(self).0 == spec_with_field(old(self).0, 8, 16, value as u64),
    {
        self.0 = with_field(self.0, 8, 16, value as u64);
    }

    /// SHR transmit power
    pub fn shr_pwr(&self) -> (r: u8)
        ensures
            r == spec_field(self.0, 16, 24) as u8,
    {
        field(self.0, 16, 24) as u8
    }

    /// SHR transmit power
    pub fn set_shr_pwr(&mut self, value: u8)
        ensures
            final(self).0 == spec_with_field(old(self).0, 16, 24, value as u64),
    {
        self.0 = with_field(self.0, 16, 24, value as u64);
    }

    /// STS transmit power
    pub fn sts_pwr(&self) -> (r: u8)
        ensures
            r == spec_field(self.0, 24, 32) as u8,
    {
        field(self.0, 24, 32) as u8
    }

    /// STS transmit power
    pub fn set_sts_pwr(&mut self, value: u8)
        ensures
            final(self).0 == spec_with_field(old(self).0, 24, 32, value as u64),
    {
        self.0 = with_field(self.0, 24, 32, value as u64);
    }
}

/// Channel control register
#[derive(Copy, Clone, Debug)]
pub struct ChanCtrl(pub u64);

impl Register for ChanCtrl {
    open spec fn spec_address() -> u16 {
        spec_full_address(0x01, 0x14)
    }

    open spec fn spec_length() -> nat {
        2
    }

    fn address() -> (r: FullAddress) {
        FullAddress::new(FileId::new(0x01), 0x14)
    }

    fn length() -> (r: usize) {
        2
    }
}

impl Read for ChanCtrl {

}

impl Write for ChanCtrl {

}

impl FieldAccess for ChanCtrl {
    type BaseType = u16;
}

impl FromRaw for ChanCtrl {
    /// The value truncated to the register's u16.
    open spec fn spec_from_raw(value: u64) -> ChanCtrl {
        ChanCtrl(value & 0xffff)
    }

    fn from_raw(value: u64) -> (r: ChanCtrl) {
        ChanCtrl(value & 0xffff)
    }
}

impl ToRaw for ChanCtrl {
    open spec fn spec_to_raw(self) -> u64 {
        self.0
    }

    fn to_raw(self) -> (r: u64) {
        self.0
    }
}

impl Default for ChanCtrl {
    /// The value after power-on reset.
    fn default() -> (r: ChanCtrl)
        ensures
            r.0 == 0x6,
    {
        ChanCtrl(0x6)
    }
}

impl ChanCtrl {
    /// Channel for Rx and Tx
    pub fn rf_chan(&self) -> (r: Channel)
        ensures
            r == Channel::spec_from_code(spec_field(self.0, 0, 1)),
    {
        Channel::from_code(field(self.0, 0, 1))
    }

    /// Channel for Rx and Tx
    pub fn set_rf_chan(&mut self, value: Channel)
        ensures
            final(self).0 == spec_with_field(old(self).0, 0, 1, value.spec_code()),
    {
        self.0 = with_field(self.0, 0, 1, value.code());
    }

    /// SFD type
    pub fn sfd_type(&self) -> (r: SfdType)
        ensures
            r == SfdType::spec_from_code(spec_field(self.0, 1, 3)),
    {
        SfdType::from_code(field(self.0, 1, 3))
    }

    /// SFD type
    pub fn set_sfd_type(&mut self, value: SfdType)
        ensures
            final(self).0 == spec_with_field(old(self).0, 1, 3, value.spec_code()),
    {
        self.0 = with_field(self.0, 1, 3, value.code());
    }

    /// Transmit preamble code
    pub fn tx_pcode(&self) -> (r: u8)
        ensures
            r == spec_field(self.0, 3, 7) as u8,
    {
        field(self.0, 3, 7) as u8
    }

    /// Transmit preamble code
    pub fn set_tx_pcode(&mut self, value: u8)
        ensures
            final(self).0 == spec_with_field(old(self).0, 3, 7, value as u64),
    {
        self.0 = with_field(self.0, 3, 7, value as u64);
    }

    /// Receive preamble code
    pub fn rx_pcode(&self) -> (r: u8)
        ensures
            r == spec_field(self.0, 8, 13) as u8,
    {
        field(self.0, 8, 13) as u8
    }

    /// Receive preamble code
    pub fn set_rx_pcode(&mut self, value: u8)
        ensures
            final(self).0 == spec_with_field(old(self).0, 8, 13, value as u64),
    {
        self.0 = with_field(self.0, 8, 13, value as u64);
    }
}

/// The RX tuning configuration register
#[derive(Copy, Clone, Debug)]
pub struct DgcCfg(pub u64);

impl Register for DgcCfg {
    open spec fn spec_address() -> u16 {
        spec_full_address(0x03, 0x18)
    }

    open spec fn spec_length() -> nat {
        2
    }

    fn address() -> (r: FullAddress) {
        FullAddress::new(FileId::new(0x03), 0x18)
    }

    fn length() -> (r: usize) {
        2
    }
}

impl Read for DgcCfg {

}

impl Write for DgcCfg {

}

impl FieldAccess for DgcCfg {
    type BaseType = u16;
}

impl FromRaw for DgcCfg {
    /// The value truncated to the register's u16.
    open spec fn spec_from_raw(value: u64) -> DgcCfg {
        DgcCfg(value & 0xffff)
    }

    fn from_raw(value: u64) -> (r: DgcCfg) {
        DgcCfg(value & 0xffff)
    }
}

impl ToRaw for DgcCfg {
    open spec fn spec_to_raw(self) -> u64 {
        self.0
    }

    fn to_raw(self) -> (r: u64) {
        self.0
    }
}

impl Default for DgcCfg {
    /// The value after power-on reset.
    fn default() -> (r: DgcCfg)
        ensures
            r.0 == 0xf0f5,
    {
        DgcCfg(0xf0f5)
    }
}

impl DgcCfg {
    /// RX tuning enable bit
    pub fn rx_tune_en(&self) -> (r: bool)
        ensures
            r == spec_bit(self.0, 0),
    {
        bit(self.0, 0)
    }

    /// RX tuning enable bit
    pub fn set_rx_tune_en(&mut self, value: bool)
        ensures
            final(self).0 == spec_with_bit(old(self).0, 0, value),
    {
        self.0 = with_bit(self.0, 0, value);
    }

    /// RX tuning threshold configuration for 64 MHz PRF
    pub fn thr_64(&self) -> (r: u8)
        ensures
            r == spec_field(self.0, 9, 14) as u8,
    {
        field(self.0, 9, 14) as u8
    }

    /// RX tuning threshold configuration for 64 MHz PRF
    pub fn set_thr_64(&mut self, value: u8)
        ensures
            final(self).0 == spec_with_field(old(self).0, 9, 14, value as u64),
    {
        self.0 = with_field(self.0, 9, 14, value as u64);
    }
}

/// RX calibration block configuration
#[derive(Copy, Clone, Debug)]
pub struct RxCal(pub u64);

impl Register for RxCal {
    open spec fn spec_address() -> u16 {
        spec_full_address(0x04, 0x0c)
    }

    open spec fn spec_length() -> nat {
        4
    }

    fn address() -> (r: FullAddress) {
        FullAddress::new(FileId::new(0x04), 0x0c)
    }

    fn length() -> (r: usize) {
        4
    }
}

impl Read for RxCal {

}

impl Write for RxCal {

}

impl FieldAccess for RxCal {
    type BaseType = u32;
}

impl FromRaw for RxCal {
    /// The value truncated to the register's u32.
    open spec fn spec_from_raw(value: u64) -> RxCal {
        RxCal(value & 0xffffffff)
    }

    fn from_raw(value: u64) -> (r: RxCal) {
        RxCal(value & 0xffffffff)
    }
}

impl ToRaw for RxCal {
    open spec fn spec_to_raw(self) -> u64 {
        self.0
    }

    fn to_raw(self) -> (r: u64) {
        self.0
    }
}

impl Default for RxCal {
    /// The value after power-on reset.
    fn default() -> (r: RxCal)
        ensures
            r.0 == 0x0,
    {
        RxCal(0x0)
    }
}

impl RxCal {
    /// RX calibration mode
    pub fn cal_mode(&self) -> (r: CalibrationMode)
        ensures
            r == CalibrationMode::spec_from_code(spec_field(self.0, 0, 2)),
    {
        CalibrationMode::from_code(field(self.0, 0, 2))
    }

    /// RX calibration mode
    pub fn set_cal_mode(&mut self, value: CalibrationMode)
        ensures
            final(self).0 == spec_with_field(old(self).0, 0, 2, value.spec_code()),
    {
        self.0 = with_field(self.0, 0, 2, value.code());
    }

    /// RX calibration enable
    pub fn cal_en(&self) -> (r: bool)
        ensures
            r == spec_bit(self.0, 4),
    {
        bit(self.0, 4)
    }

    /// RX calibration enable
    pub fn set_cal_en(&mut self, value: bool)
        ensures
            final(self).0 == spec_with_bit(old(self).0, 4, value),
    {
        self.0 = with_bit(self.0, 4, value);
    }

    /// RX calibration tuning value
    pub fn comp_dly(&self) -> (r: u8)
        ensures
            r == spec_field(self.0, 16, 20) as u8,
    {
        field(self.0, 16, 20) as u8
    }

    /// RX calibration tuning value
    pub fn set_comp_dly(&mut self, value: u8)
        ensures
            final(self).0 == spec_with_field(old(self).0, 16, 20, value as u64),
    {
        self.0 = with_field(self.0, 16, 20, value as u64);
    }
}

/// RX calibration block result I
#[derive(Copy, Clone, Debug)]
pub struct RxCalResi(pub u64);

impl Register for RxCalResi {
    open spec fn spec_address() -> u16 {
        spec_full_address(0x04, 0x14)
    }

    open spec fn spec_length() -> nat {
        4
    }

    fn address() -> (r: FullAddress) {
        FullAddress::new(FileId::new(0x04), 0x14)
    }

    fn length() -> (r: usize) {
        4
    }
}

impl Read for RxCalResi {

}

impl Write for RxCalResi {

}

impl FieldAccess for RxCalResi {
    type BaseType = u32;
}

impl FromRaw for RxCalResi {
    /// The value truncated to the register's u32.
    open spec fn spec_from_raw(value: u64) -> RxCalResi {
        RxCalResi(value & 0xffffffff)
    }

    fn from_raw(value: u64) -> (r: RxCalResi) {
        RxCalResi(value & 0xffffffff)
    }
}

impl ToRaw for RxCalResi {
    open spec fn spec_to_raw(self) -> u64 {
        self.0
    }

    fn to_raw(self) -> (r: u64) {
        self.0
    }
}

impl RxCalResi {
    /// Calibration result I
    pub fn resi(&self) -> (r: u32)
        ensures
            r == spec_field(self.0, 0, 29) as u32,
    {
        field(self.0, 0, 29) as u32
    }

    /// Calibration result I
    pub fn set_resi(&mut self, value: u32)
        ensures
            final(self).0 == spec_with_field(old(self).0, 0, 29, value as u64),
    {
        self.0 = with_field(self.0, 0, 29, value as u64);
    }
}

/// RX calibration block result Q
#[derive(Copy, Clone, Debug)]
pub struct RxCalResq(pub u64);

impl Register for RxCalResq {
    open spec fn spec_address() -> u16 {
        spec_full_address(0x04, 0x1c)
    }

    open spec fn spec_length() -> nat {
        4
    }

    fn address() -> (r: FullAddress) {
        FullAddress::new(FileId::new(0x04), 0x1c)
    }

    fn length() -> (r: usize) {
        4
    }
}

impl Read for RxCalResq {

}

impl Write for RxCalResq {

}

impl FieldAccess for RxCalResq {
    type BaseType = u32;
}

impl FromRaw for RxCalResq {
    /// The value truncated to the register's u32.
    open spec fn spec_from_raw(value: u64) -> RxCalResq {
        RxCalResq(value & 0xffffffff)
    }

    fn from_raw(value: u64) -> (r: RxCalResq) {
        RxCalResq(value & 0xffffffff)
    }
}

impl ToRaw for RxCalResq {
    open spec fn spec_to_raw(self) -> u64 {
        self.0
    }

    fn to_raw(self) -> (r: u64) {
        self.0
    }
}

impl RxCalResq {
    /// Calibration result Q
    pub fn resq(&self) -> (r: u32)
        ensures
            r == spec_field(self.0, 0, 29) as u32,
    {
        field(self.0, 0, 29) as u32
    }

    /// Calibration result Q
    pub fn set_resq(&mut self, value: u32)
        ensures
            final(self).0 == spec_with_field(old(self).0, 0, 29, value as u64),
    {
        self.0 = with_field(self.0, 0, 29, value as u64);
    }
}

/// RX calibration status
#[derive(Copy, Clone, Debug)]
pub struct RxCalSts(pub u64);

impl Register for RxCalSts {
    open spec fn spec_address() -> u16 {
        spec_full_address(0x04, 0x20)
    }

    open spec fn spec_length() -> nat {
        1
    }

    fn address() -> (r: FullAddress) {
        FullAddress::new(FileId::new(0x04), 0x20)
    }

    fn length() -> (r: usize) {
        1
    }
}

impl Read for RxCalSts {

}

impl Clear for RxCalSts {

}

/// Digital tuning register 0
#[derive(Copy, Clone, Debug)]
pub struct Dtune0(pub u64);

impl Register for Dtune0 {
    open spec fn spec_address() -> u16 {
        spec_full_address(0x06, 0x00)
    }

    open spec fn spec_length() -> nat {
        2
    }

    fn address() -> (r: FullAddress) {
        FullAddress::new(FileId::new(0x06), 0x00)
    }

    fn length() -> (r: usize) {
        2
    }
}

impl Read for Dtune0 {

}

impl Write for Dtune0 {

}

impl FieldAccess for Dtune0 {
    type BaseType = u16;
}

impl FromRaw for Dtune0 {
    /// The value truncated to the register's u16.
    open spec fn spec_from_raw(value: u64) -> Dtune0 {
        Dtune0(value & 0xffff)
    }

    fn from_raw(value: u64) -> (r: Dtune0) {
        Dtune0(value & 0xffff)
    }
}

impl ToRaw for Dtune0 {
    open spec fn spec_to_raw(self) -> u64 {
        self.0
    }

    fn to_raw(self) -> (r: u64) {
        self.0
    }
}

impl Default for Dtune0 {
    /// The value after power-on reset.
    fn default() -> (r: Dtune0)
        ensures
            r.0 == 0x101c,
    {
        Dtune0(0x101c)
    }
}

impl Dtune0 {
    /// Preamble acquisition chunk size
    pub fn pac(&self) -> (r: Pac)
        ensures
            r == Pac::spec_from_code(spec_field(self.0, 0, 2)),
    {
        Pac::from_code(field(self.0, 0, 2))
    }

    /// Preamble acquisition chunk size
    pub fn set_pac(&mut self, value: Pac)
        ensures
            final(self).0 == spec_with_field(old(self).0, 0, 2, value.spec_code()),
    {
        self.0 = with_field(self.0, 0, 2, value.code());
    }

    /// Undocumented bit
    pub fn dt0b4(&self) -> (r: bool)
        ensures
            r == spec_bit(self.0, 4),
    {
        bit(self.0, 4)
    }

    /// Undocumented bit
    pub fn set_dt0b4(&mut self, value: bool)
        ensures
            final(self).0 == spec_with_bit(old(self).0, 4, value),
    {
        self.0 = with_bit(self.0, 4, value);
    }
}

/// SFD detection timeout
#[derive(Copy, Clone, Debug)]
pub struct RxSfdToc(pub u64);

impl Register for RxSfdToc {
    open spec fn spec_address() -> u16 {
        spec_full_address(0x06, 0x02)
    }

    open spec fn spec_length() -> nat {
        2
    }

    fn address() -> (r: FullAddress) {
        FullAddress::new(FileId::new(0x06), 0x02)
    }

    fn length() -> (r: usize) {
        2
    }
}

impl Read for RxSfdToc {

}

impl Write for RxSfdToc {

}

/// Preamble detection timeout
#[derive(Copy, Clone, Debug)]
pub struct PreToc(pub u64);

impl Register for PreToc {
    open spec fn spec_address() -> u16 {
        spec_full_address(0x06, 0x04)
    }

    open spec fn spec_length() -> nat {
        2
    }

    fn address() -> (r: FullAddress) {
        FullAddress::new(FileId::new(0x06), 0x04)
    }

    fn length() -> (r: usize) {
        2
    }
}

impl Read for PreToc {

}

impl Write for PreToc {

}

/// Digital tuning register 3
#[derive(Copy, Clone, Debug)]
pub struct Dtune3(pub u64);

impl Register for Dtune3 {
    open spec fn spec_address() -> u16 {
        spec_full_address(0x06, 0x0c)
    }

    open spec fn spec_length() -> nat {
        4
    }

    fn address() -> (r: FullAddress) {
        FullAddress::new(FileId::new(0x06), 0x0c)
    }

    fn length() -> (r: usize) {
        4
    }
}

impl Read for Dtune3 {

}

impl Write for Dtune3 {

}

/// Analog RX control register
#[derive(Copy, Clone, Debug)]
pub struct RfRxCtrlHi(pub u64);

impl Register for RfRxCtrlHi {
    open spec fn spec_address() -> u16 {
        spec_full_address(0x07, 0x10)
    }

    open spec fn spec_length() -> nat {
        4
    }

    fn address() -> (r: FullAddress) {
        FullAddress::new(FileId::new(0x07), 0x10)
    }

    fn length() -> (r: usize) {
        4
    }
}

impl Read for RfRxCtrlHi {

}

impl Write for RfRxCtrlHi {

}

/// Analog TX control register
#[derive(Copy, Clone, Debug)]
pub struct RfTxCtrl1(pub u64);

impl Register for RfTxCtrl1 {
    open spec fn spec_address() -> u16 {
        spec_full_address(0x07, 0x1a)
    }

    open spec fn spec_length() -> nat {
        1
    }

    fn address() -> (r: FullAddress) {
        FullAddress::new(FileId::new(0x07), 0x1a)
    }

    fn length() -> (r: usize) {
        1
    }
}

impl Read for RfTxCtrl1 {

}

impl Write for RfTxCtrl1 {

}

/// Analog TX control register
#[derive(Copy, Clone, Debug)]
pub struct RfTxCtrl2(pub u64);

impl Register for RfTxCtrl2 {
    open spec fn spec_address() -> u16 {
        spec_full_address(0x07, 0x1c)
    }

    open spec fn spec_length() -> nat {
        4
    }

    fn address() -> (r: FullAddress) {
        FullAddress::new(FileId::new(0x07), 0x1c)
    }

    fn length() -> (r: usize) {
        4
    }
}

impl Read for RfTxCtrl2 {

}

impl Write for RfTxCtrl2 {

}

/// Internal LDO control
#[derive(Copy, Clone, Debug)]
pub struct LdoCtrl(pub u64);

impl Register for LdoCtrl {
    open spec fn spec_address() -> u16 {
        spec_full_address(0x07, 0x48)
    }

    open spec fn spec_length() -> nat {
        4
    }

    fn address() -> (r: FullAddress) {
        FullAddress::new(FileId::new(0x07), 0x48)
    }

    fn length() -> (r: usize) {
        4
    }
}

impl Read for LdoCtrl {

}

impl Write for LdoCtrl {

}

impl FieldAccess for LdoCtrl {
    type BaseType = u32;
}

impl FromRaw for LdoCtrl {
    /// The value truncated to the register's u32.
    open spec fn spec_from_raw(value: u64) -> LdoCtrl {
        LdoCtrl(value & 0xffffffff)
    }

    fn from_raw(value: u64) -> (r: LdoCtrl) {
        LdoCtrl(value & 0xffffffff)
    }
}

impl ToRaw for LdoCtrl {
    open spec fn spec_to_raw(self) -> u64 {
        self.0
    }

    fn to_raw(self) -> (r: u64) {
        self.0
    }
}

impl LdoCtrl {
    /// VDDMS1 enable
    pub fn vddms1_en(&self) -> (r: bool)
        ensures
            r == spec_bit(self.0, 0),
    {
        bit(self.0, 0)
    }

    /// VDDMS1 enable
    pub fn set_vddms1_en(&mut self, value: bool)
        ensures
            final(self).0 == spec_with_bit(old(self).0, 0, value),
    {
        self.0 = with_bit(self.0, 0, value);
    }

    /// VDDMS2 enable
    pub fn vddms2_en(&self) -> (r: bool)
        ensures
            r == spec_bit(self.0, 1),
    {
        bit(self.0, 1)
    }

    /// VDDMS2 enable
    pub fn set_vddms2_en(&mut self, value: bool)
        ensures
            final(self).0 == spec_with_bit(old(self).0, 1, value),
    {
        self.0 = with_bit(self.0, 1, value);
    }

    /// VDDMS3 enable
    pub fn vddms3_en(&self) -> (r: bool)
        ensures
            r == spec_bit(self.0, 2),
    {
        bit(self.0, 2)
    }

    /// VDDMS3 enable
    pub fn set_vddms3_en(&mut self, value: bool)
        ensures
            final(self).0 == spec_with_bit(old(self).0, 2, value),
    {
        self.0 = with_bit(self.0, 2, value);
    }

    /// VDDPLL enable
    pub fn vddpll_en(&self) -> (r: bool)
        ensures
            r == spec_bit(self.0, 4),
    {
        bit(self.0, 4)
    }

    /// VDDPLL enable
    pub fn set_vddpll_en(&mut self, value: bool)
        ensures
            final(self).0 == spec_with_bit(old(self).0, 4, value),
    {
        self.0 = with_bit(self.0, 4, value);
    }

    /// VDDTX1 enable
    pub fn vddtx1_en(&self) -> (r: bool)
        ensures
            r == spec_bit(self.0, 5),
    {
        bit(self.0, 5)
    }

    /// VDDTX1 enable
    pub fn set_vddtx1_en(&mut self, value: bool)
        ensures
            final(self).0 == spec_with_bit(old(self).0, 5, value),
    {
        self.0 = with_bit(self.0, 5, value);
    }

    /// VDDTX2 enable
    pub fn vddtx2_en(&self) -> (r: bool)
        ensures
            r == spec_bit(self.0, 6),
    {
        bit(self.0, 6)
    }

    /// VDDTX2 enable
    pub fn set_vddtx2_en(&mut self, value: bool)
        ensures
            final(self).0 == spec_with_bit(old(self).0, 6, value),
    {
        self.0 = with_bit(self.0, 6, value);
    }

    /// VDDIF2 enable
    pub fn vddif2_en(&self) -> (r: bool)
        ensures
            r == spec_bit(self.0, 8),
    {
        bit(self.0, 8)
    }

    /// VDDIF2 enable
    pub fn set_vddif2_en(&mut self, value: bool)
        ensures
            final(self).0 == spec_with_bit(old(self).0, 8, value),
    {
        self.0 = with_bit(self.0, 8, value);
    }

    /// VDDHVTX enable
    pub fn vddhvtx_en(&self) -> (r: bool)
        ensures
            r == spec_bit(self.0, 11),
    {
        bit(self.0, 11)
    }

    /// VDDHVTX enable
    pub fn set_vddhvtx_en(&mut self, value: bool)
        ensures
            final(self).0 == spec_with_bit(old(self).0, 11, value),
    {
        self.0 = with_bit(self.0, 11, value);
    }

    /// VDDTX1 VREF
    pub fn vddtx1_vref(&self) -> (r: bool)
        ensures
            r == spec_bit(self.0, 21),
    {
        bit(self.0, 21)
    }

    /// VDDTX1 VREF
    pub fn set_vddtx1_vref(&mut self, value: bool)
        ensures
            final(self).0 == spec_with_bit(old(self).0, 21, value),
    {
        self.0 = with_bit(self.0, 21, value);
    }

    /// VDDTX2 VREF
    pub fn vddtx2_vref(&self) -> (r: bool)
        ensures
            r == spec_bit(self.0, 22),
    {
        bit(self.0, 22)
    }

    /// VDDTX2 VREF
    pub fn set_vddtx2_vref(&mut self, value: bool)
        ensures
            final(self).0 == spec_with_bit(old(self).0, 22, value),
    {
        self.0 = with_bit(self.0, 22, value);
    }

    /// VDDHVTX VREF
    pub fn vddhvtx_vref(&self) -> (r: bool)
        ensures
            r == spec_bit(self.0, 27),
    {
        bit(self.0, 27)
    }

    /// VDDHVTX VREF
    pub fn set_vddhvtx_vref(&mut self, value: bool)
        ensures
            final(self).0 == spec_with_bit(old(self).0, 27, value),
    {
        self.0 = with_bit(self.0, 27, value);
    }
}

/// LDO tuning register
#[derive(Copy, Clone, Debug)]
pub struct LdoRload(pub u64);

impl Register for LdoRload {
    open spec fn spec_address() -> u16 {
        spec_full_address(0x07, 0x51)
    }

    open spec fn spec_length() -> nat {
        1
    }

    fn address() -> (r: FullAddress) {
        FullAddress::new(FileId::new(0x07), 0x51)
    }

    fn length() -> (r: usize) {
        1
    }
}

impl Read for LdoRload {

}

impl Write for LdoRload {

}

/// PLL configuration
#[derive(Copy, Clone, Debug)]
pub struct PllCfg(pub u64);

impl Register for PllCfg {
    open spec fn spec_address() -> u16 {
        spec_full_address(0x09, 0x00)
    }

    open spec fn spec_length() -> nat {
        2
    }

    fn address() -> (r: FullAddress) {
        FullAddress::new(FileId::new(0x09), 0x00)
    }

    fn length() -> (r: usize) {
        2
    }
}

impl Read for PllCfg {

}

impl Write for PllCfg {

}

/// PLL coarse code
#[derive(Copy, Clone, Debug)]
pub struct PllCc(pub u64);

impl Register for PllCc {
    open spec fn spec_address() -> u16 {
        spec_full_address(0x09, 0x04)
    }

    open spec fn spec_length() -> nat {
        4
    }

    fn address() -> (r: FullAddress) {
        FullAddress::new(FileId::new(0x09), 0x04)
    }

    fn length() -> (r: usize) {
        4
    }
}

impl Read for PllCc {

}

impl Write for PllCc {

}

impl FieldAccess for PllCc {
    type BaseType = u32;
}

impl FromRaw for PllCc {
    /// The value truncated to the register's u32.
    open spec fn spec_from_raw(value: u64) -> PllCc {
        PllCc(value & 0xffffffff)
    }

    fn from_raw(value: u64) -> (r: PllCc) {
        PllCc(value & 0xffffffff)
    }
}

impl ToRaw for PllCc {
    open spec fn spec_to_raw(self) -> u64 {
        self.0
    }

    fn to_raw(self) -> (r: u64) {
        self.0
    }
}

impl PllCc {
    /// PLL calibration coarse code for both channels
    pub fn code(&self) -> (r: u32)
        ensures
            r == spec_field(self.0, 0, 22) as u32,
    {
        field(self.0, 0, 22) as u32
    }

    /// PLL calibration coarse code for both channels
    pub fn set_code(&mut self, value: u32)
        ensures
            final(self).0 == spec_with_field(old(self).0, 0, 22, value as u64),
    {
        self.0 = with_field(self.0, 0, 22, value as u64);
    }
}

/// PLL calibration configuration
#[derive(Copy, Clone, Debug)]
pub struct PllCal(pub u64);

impl Register for PllCal {
    open spec fn spec_address() -> u16 {
        spec_full_address(0x09, 0x08)
    }

    open spec fn spec_length() -> nat {
        2
    }

    fn address() -> (r: FullAddress) {
        FullAddress::new(FileId::new(0x09), 0x08)
    }

    fn length() -> (r: usize) {
        2
    }
}

impl Read for PllCal {

}

impl Write for PllCal {

}

impl FieldAccess for PllCal {
    type BaseType = u16;
}

impl FromRaw for PllCal {
    /// The value truncated to the register's u16.
    open spec fn spec_from_raw(value: u64) -> PllCal {
        PllCal(value & 0xffff)
    }

    fn from_raw(value: u64) -> (r: PllCal) {
        PllCal(value & 0xffff)
    }
}

impl ToRaw for PllCal {
    open spec fn spec_to_raw(self) -> u64 {
        self.0
    }

    fn to_raw(self) -> (r: u64) {
        self.0
    }
}

impl Default for PllCal {
    /// The value after power-on reset.
    fn default() -> (r: PllCal)
        ensures
            r.0 == 0x31,
    {
        PllCal(0x31)
    }
}

impl PllCal {
    /// use the coarse code value as set in PLL_CC
    pub fn use_old(&self) -> (r: bool)
        ensures
            r == spec_bit(self.0, 1),
    {
        bit(self.0, 1)
    }

    /// use the coarse code value as set in PLL_CC
    pub fn set_use_old(&mut self, value: bool)
        ensures
            final(self).0 == spec_with_bit(old(self).0, 1, value),
    {
        self.0 = with_bit(self.0, 1, value);
    }

    /// PLL calibration configuration value
    pub fn pll_cfg_ld(&self) -> (r: u8)
        ensures
            r == spec_field(self.0, 4, 8) as u8,
    {
        field(self.0, 4, 8) as u8
    }

    /// PLL calibration configuration value
    pub fn set_pll_cfg_ld(&mut self, value: u8)
        ensures
            final(self).0 == spec_with_field(old(self).0, 4, 8, value as u64),
    {
        self.0 = with_field(self.0, 4, 8, value as u64);
    }

    /// Force recalibration, self clear
    pub fn cal_en(&self) -> (r: bool)
        ensures
            r == spec_bit(self.0, 8),
    {
        bit(self.0, 8)
    }

    /// Force recalibration, self clear
    pub fn set_cal_en(&mut self, value: bool)
        ensures
            final(self).0 == spec_with_bit(old(self).0, 8, value),
    {
        self.0 = with_bit(self.0, 8, value);
    }
}

/// Frequency synthesizer, crystal trim
#[derive(Copy, Clone, Debug)]
pub struct Xtal(pub u64);

impl Register for Xtal {
    open spec fn spec_address() -> u16 {
        spec_full_address(0x09, 0x14)
    }

    open spec fn spec_length() -> nat {
        1
    }

    fn address() -> (r: FullAddress) {
        FullAddress::new(FileId::new(0x09), 0x14)
    }

    fn length() -> (r: usize) {
        1
    }
}

impl Read for Xtal {

}

impl Write for Xtal {

}

impl FieldAccess for Xtal {
    type BaseType = u8;
}

impl FromRaw for Xtal {
    /// The value truncated to the register's u8.
    open spec fn spec_from_raw(value: u64) -> Xtal {
        Xtal(value & 0xff)
    }

    fn from_raw(value: u64) -> (r: Xtal) {
        Xtal(value & 0xff)
    }
}

impl ToRaw for Xtal {
    open spec fn spec_to_raw(self) -> u64 {
        self.0
    }

    fn to_raw(self) -> (r: u64) {
        self.0
    }
}

impl Default for Xtal {
    /// The value after power-on reset.
    fn default() -> (r: Xtal)
        ensures
            r.0 == 0x0,
    {
        Xtal(0x0)
    }
}

impl Xtal {
    /// Crystal trim
    pub fn xtal_trim(&self) -> (r: u8)
        ensures
            r == spec_field(self.0, 0, 6) as u8,
    {
        field(self.0, 0, 6) as u8
    }

    /// Crystal trim
    pub fn set_xtal_trim(&mut self, value: u8)
        ensures
            final(self).0 == spec_with_field(old(self).0, 0, 6, value as u64),
    {
        self.0 = with_field(self.0, 0, 6, value as u64);
    }
}

/// OTP address to which to program the data
#[derive(Copy, Clone, Debug)]
pub struct OtpAddr(pub u64);

impl Register for OtpAddr {
    open spec fn spec_address() -> u16 {
        spec_full_address(0x0b, 0x04)
    }

    open spec fn spec_length() -> nat {
        2
    }

    fn address() -> (r: FullAddress) {
        FullAddress::new(FileId::new(0x0b), 0x04)
    }

    fn length() -> (r: usize) {
        2
    }
}

impl Read for OtpAddr {

}

impl Write for OtpAddr {

}

impl FieldAccess for OtpAddr {
    type BaseType = u16;
}

impl FromRaw for OtpAddr {
    /// The value truncated to the register's u16.
    open spec fn spec_from_raw(value: u64) -> OtpAddr {
        OtpAddr(value & 0xffff)
    }

    fn from_raw(value: u64) -> (r: OtpAddr) {
        OtpAddr(value & 0xffff)
    }
}

impl ToRaw for OtpAddr {
    open spec fn spec_to_raw(self) -> u64 {
        self.0
    }

    fn to_raw(self) -> (r: u64) {
        self.0
    }
}

impl Default for OtpAddr {
    /// The value after power-on reset.
    fn default() -> (r: OtpAddr)
        ensures
            r.0 == 0x0,
    {
        OtpAddr(0x0)
    }
}

impl OtpAddr {
    /// Otp access address
    pub fn otp_addr(&self) -> (r: u16)
        ensures
            r == spec_field(self.0, 0, 11) as u16,
    {
        field(self.0, 0, 11) as u16
    }

    /// Otp access address
    pub fn set_otp_addr(&mut self, value: u16)
        ensures
            final(self).0 == spec_with_field(old(self).0, 0, 11, value as u64),
    {
        self.0 = with_field(self.0, 0, 11, value as u64);
    }
}

/// OTP configuration register
#[derive(Copy, Clone, Debug)]
pub struct OtpCfg(pub u64);

impl Register for OtpCfg {
    open spec fn spec_address() -> u16 {
        spec_full_address(0x0b, 0x08)
    }

    open spec fn spec_length() -> nat {
        2
    }

    fn address() -> (r: FullAddress) {
        FullAddress::new(FileId::new(0x0b), 0x08)
    }

    fn length() -> (r: usize) {
        2
    }
}

impl Read for OtpCfg {

}

impl Write for OtpCfg {

}

impl FieldAccess for OtpCfg {
    type BaseType = u16;
}

impl FromRaw for OtpCfg {
    /// The value truncated to the register's u16.
    open spec fn spec_from_raw(value: u64) -> OtpCfg {
        OtpCfg(value & 0xffff)
    }

    fn from_raw(value: u64) -> (r: OtpCfg) {
        OtpCfg(value & 0xffff)
    }
}

impl ToRaw for OtpCfg {
    open spec fn spec_to_raw(self) -> u64 {
        self.0
    }

    fn to_raw(self) -> (r: u64) {
        self.0
    }
}

impl Default for OtpCfg {
    /// The value after power-on reset.
    fn default() -> (r: OtpCfg)
        ensures
            r.0 == 0x0,
    {
        OtpCfg(0x0)
    }
}

impl OtpCfg {
    /// Enable manual control over OTP interface
    pub fn otp_man(&self) -> (r: bool)
        ensures
            r == spec_bit(self.0, 0),
    {
        bit(self.0, 0)
    }

    /// Enable manual control over OTP interface
    pub fn set_otp_man(&mut self, value: bool)
        ensures
            final(self).0 == spec_with_bit(old(self).0, 0, value),
    {
        self.0 = with_bit(self.0, 0, value);
    }

    /// OTP read enable
    pub fn otp_read(&self) -> (r: bool)
        ensures
            r == spec_bit(self.0, 1),
    {
        bit(self.0, 1)
    }

    /// OTP read enable
    pub fn set_otp_read(&mut self, value: bool)
        ensures
            final(self).0 == spec_with_bit(old(self).0, 1, value),
    {
        self.0 = with_bit(self.0, 1, value);
    }

    /// OTP write enable
    pub fn otp_write(&self) -> (r: bool)
        ensures
            r == spec_bit(self.0, 2),
    {
        bit(self.0, 2)
    }

    /// OTP write enable
    pub fn set_otp_write(&mut self, value: bool)
        ensures
            final(self).0 == spec_with_bit(old(self).0, 2, value),
    {
        self.0 = with_bit(self.0, 2, value);
    }

    /// OTP write mode
    pub fn otp_write_mr(&self) -> (r: bool)
        ensures
            r == spec_bit(self.0, 3),
    {
        bit(self.0, 3)
    }

    /// OTP write mode
    pub fn set_otp_write_mr(&mut self, value: bool)
        ensures
            final(self).0 == spec_with_bit(old(self).0, 3, value),
    {
        self.0 = with_bit(self.0, 3, value);
    }

    /// Load and set RX_TUNE_CAL
    pub fn dgc_kick(&self) -> (r: bool)
        ensures
            r == spec_bit(self.0, 6),
    {
        bit(self.0, 6)
    }

    /// Load and set RX_TUNE_CAL
    pub fn set_dgc_kick(&mut self, value: bool)
        ensures
            final(self).0 == spec_with_bit(old(self).0, 6, value),
    {
        self.0 = with_bit(self.0, 6, value);
    }

    /// Load and set LDOTUNE_CAL
    pub fn ldo_kick(&self) -> (r: bool)
        ensures
            r == spec_bit(self.0, 7),
    {
        bit(self.0, 7)
    }

    /// Load and set LDOTUNE_CAL
    pub fn set_ldo_kick(&mut self, value: bool)
        ensures
            final(self).0 == spec_with_bit(old(self).0, 7, value),
    {
        self.0 = with_bit(self.0, 7, value);
    }

    /// Load and set BIASTUNE_CAL
    pub fn bias_kick(&self) -> (r: bool)
        ensures
            r == spec_bit(self.0, 8),
    {
        bit(self.0, 8)
    }

    /// Load and set BIASTUNE_CAL
    pub fn set_bias_kick(&mut self, value: bool)
        ensures
            final(self).0 == spec_with_bit(old(self).0, 8, value),
    {
        self.0 = with_bit(self.0, 8, value);
    }

    /// Load and set operating parameter
    pub fn ops_kick(&self) -> (r: bool)
        ensures
            r == spec_bit(self.0, 10),
    {
        bit(self.0, 10)
    }

    /// Load and set operating parameter
    pub fn set_ops_kick(&mut self, value: bool)
        ensures
            final(self).0 == spec_with_bit(old(self).0, 10, value),
    {
        self.0 = with_bit(self.0, 10, value);
    }

    /// Operating parameter set selection
    pub fn ops_sel(&self) -> (r: ReceiverParameterSet)
        ensures
            r == ReceiverParameterSet::spec_from_code(spec_field(self.0, 11, 13)),
    {
        ReceiverParameterSet::from_code(field(self.0, 11, 13))
    }

    /// Operating parameter set selection
    pub fn set_ops_sel(&mut self, value: ReceiverParameterSet)
        ensures
            final(self).0 == spec_with_field(old(self).0, 11, 13, value.spec_code()),
    {
        self.0 = with_field(self.0, 11, 13, value.code());
    }

    /// RX_TUNE parameter set selection
    pub fn dgc_sel(&self) -> (r: Channel)
        ensures
            r == Channel::spec_from_code(spec_field(self.0, 13, 14)),
    {
        Channel::from_code(field(self.0, 13, 14))
    }

    /// RX_TUNE parameter set selection
    pub fn set_dgc_sel(&mut self, value: Channel)
        ensures
            final(self).0 == spec_with_field(old(self).0, 13, 14, value.spec_code()),
    {
        self.0 = with_field(self.0, 13, 14, value.code());
    }
}

/// OTP data read from given address
#[derive(Copy, Clone, Debug)]
pub struct OtpRdata(pub u64);

impl Register for OtpRdata {
    open spec fn spec_address() -> u16 {
        spec_full_address(0x0b, 0x10)
    }

    open spec fn spec_length() -> nat {
        4
    }

    fn address() -> (r: FullAddress) {
        FullAddress::new(FileId::new(0x0b), 0x10)
    }

    fn length() -> (r: usize) {
        4
    }
}

impl Read for OtpRdata {

}

/// CIA general configuration, byte 2
#[derive(Copy, Clone, Debug)]
pub struct CiaConfByte2(pub u64);

impl Register for CiaConfByte2 {
    open spec fn spec_address() -> u16 {
        spec_full_address(0x0e, 0x02)
    }

    open spec fn spec_length() -> nat {
        1
    }

    fn address() -> (r: FullAddress) {
        FullAddress::new(FileId::new(0x0e), 0x02)
    }

    fn length() -> (r: usize) {
        1
    }
}

impl Read for CiaConfByte2 {

}

impl Write for CiaConfByte2 {

}

impl FieldAccess for CiaConfByte2 {
    type BaseType = u8;
}

impl FromRaw for CiaConfByte2 {
    /// The value truncated to the register's u8.
    open spec fn spec_from_raw(value: u64) -> CiaConfByte2 {
        CiaConfByte2(value & 0xff)
    }

    fn from_raw(value: u64) -> (r: CiaConfByte2) {
        CiaConfByte2(value & 0xff)
    }
}

impl ToRaw for CiaConfByte2 {
    open spec fn spec_to_raw(self) -> u64 {
        self.0
    }

    fn to_raw(self) -> (r: u64) {
        self.0
    }
}

impl Default for CiaConfByte2 {
    /// The value after power-on reset.
    fn default() -> (r: CiaConfByte2)
        ensures
            r.0 == 0x0,
    {
        CiaConfByte2(0x0)
    }
}

impl CiaConfByte2 {
    /// Minimum diagnostics
    pub fn mindiag(&self) -> (r: bool)
        ensures
            r == spec_bit(self.0, 4),
    {
        bit(self.0, 4)
    }

    /// Minimum diagnostics
    pub fn set_mindiag(&mut self, value: bool)
        ensures
            final(self).0 == spec_with_bit(old(self).0, 4, value),
    {
        self.0 = with_bit(self.0, 4, value);
    }
}

/// System states
#[derive(Copy, Clone, Debug)]
pub struct SysState(pub u64);

impl Register for SysState {
    open spec fn spec_address() -> u16 {
        spec_full_address(0x0f, 0x30)
    }

    open spec fn spec_length() -> nat {
        4
    }

    fn address() -> (r: FullAddress) {
        FullAddress::new(FileId::new(0x0f), 0x30)
    }

    fn length() -> (r: usize) {
        4
    }
}

impl Read for SysState {

}

impl FieldAccess for SysState {
    type BaseType = u32;
}

impl FromRaw for SysState {
    /// The value truncated to the register's u32.
    open spec fn spec_from_raw(value: u64) -> SysState {
        SysState(value & 0xffffffff)
    }

    fn from_raw(value: u64) -> (r: SysState) {
        SysState(value & 0xffffffff)
    }
}

impl ToRaw for SysState {
    open spec fn spec_to_raw(self) -> u64 {
        self.0
    }

    fn to_raw(self) -> (r: u64) {
        self.0
    }
}

impl SysState {
    /// Transmit SM state
    pub fn tx_state(&self) -> (r: u8)
        ensures
            r == spec_field(self.0, 0, 4) as u8,
    {
        field(self.0, 0, 4) as u8
    }

    /// Transmit SM state
    pub fn set_tx_state(&mut self, value: u8)
        ensures
            final(self).0 == spec_with_field(old(self).0, 0, 4, value as u64),
    {
        self.0 = with_field(self.0, 0, 4, value as u64);
    }

    /// Receive SM state
    pub fn rx_state(&self) -> (r: u8)
        ensures
            r == spec_field(self.0, 8, 14) as u8,
    {
        field(self.0, 8, 14) as u8
    }

    /// Receive SM state
    pub fn set_rx_state(&mut self, value: u8)
        ensures
            final(self).0 == spec_with_field(old(self).0, 8, 14, value as u64),
    {
        self.0 = with_field(self.0, 8, 14, value as u64);
    }

    /// PMSC SM state
    pub fn pmsc_state(&self) -> (r: u8)
        ensures
            r == spec_field(self.0, 16, 21) as u8,
    {
        field(self.0, 16, 21) as u8
    }

    /// PMSC SM state
    pub fn set_pmsc_state(&mut self, value: u8)
        ensures
            final(self).0 == spec_with_field(old(self).0, 16, 21, value as u64),
    {
        self.0 = with_field(self.0, 16, 21, value as u64);
    }
}

/// PMSC sequencing control register
#[derive(Copy, Clone, Debug)]
pub struct SeqCtrl(pub u64);

impl Register for SeqCtrl {
    open spec fn spec_address() -> u16 {
        spec_full_address(0x11, 0x08)
    }

    open spec fn spec_length() -> nat {
        4
    }

    fn address() -> (r: FullAddress) {
        FullAddress::new(FileId::new(0x11), 0x08)
    }

    fn length() -> (r: usize) {
        4
    }
}

impl Read for SeqCtrl {

}

impl Write for SeqCtrl {

}

impl FieldAccess for SeqCtrl {
    type BaseType = u32;
}

impl FromRaw for SeqCtrl {
    /// The value truncated to the register's u32.
    open spec fn spec_from_raw(value: u64) -> SeqCtrl {
        SeqCtrl(value & 0xffffffff)
    }

    fn from_raw(value: u64) -> (r: SeqCtrl) {
        SeqCtrl(value & 0xffffffff)
    }
}

impl ToRaw for SeqCtrl {
    open spec fn spec_to_raw(self) -> u64 {
        self.0
    }

    fn to_raw(self) -> (r: u64) {
        self.0
    }
}

impl Default for SeqCtrl {
    /// The value after power-on reset.
    fn default() -> (r: SeqCtrl)
        ensures
            r.0 == 0x80030638,
    {
        SeqCtrl(0x80030638)
    }
}

impl SeqCtrl {
    /// Automatic IDLE_RC to IDLE_PLL
    pub fn ainit2idle(&self) -> (r: bool)
        ensures
            r == spec_bit(self.0, 8),
    {
        bit(self.0, 8)
    }

    /// Automatic IDLE_RC to IDLE_PLL
    pub fn set_ainit2idle(&mut self, value: bool)
        ensures
            final(self).0 == spec_with_bit(old(self).0, 8, value),
    {
        self.0 = with_bit(self.0, 8, value);
    }

    /// After TX automatically Sleep
    pub fn atx2slp(&self) -> (r: bool)
        ensures
            r == spec_bit(self.0, 11),
    {
        bit(self.0, 11)
    }

    /// After TX automatically Sleep
    pub fn set_atx2slp(&mut self, value: bool)
        ensures
            final(self).0 == spec_with_bit(old(self).0, 11, value),
    {
        self.0 = with_bit(self.0, 11, value);
    }

    /// After RX automatically Sleep
    pub fn arx2slp(&self) -> (r: bool)
        ensures
            r == spec_bit(self.0, 12),
    {
        bit(self.0, 12)
    }

    /// After RX automatically Sleep
    pub fn set_arx2slp(&mut self, value: bool)
        ensures
            final(self).0 == spec_with_bit(old(self).0, 12, value),
    {
        self.0 = with_bit(self.0, 12, value);
    }

    /// Enable a 1GHz clock used for some external SYNC modes
    pub fn pll_sync(&self) -> (r: bool)
        ensures
            r == spec_bit(self.0, 15),
    {
        bit(self.0, 15)
    }

    /// Enable a 1GHz clock used for some external SYNC modes
    pub fn set_pll_sync(&mut self, value: bool)
        ensures
            final(self).0 == spec_with_bit(old(self).0, 15, value),
    {
        self.0 = with_bit(self.0, 15, value);
    }

    /// CIA run enable
    pub fn ciarune(&self) -> (r: bool)
        ensures
            r == spec_bit(self.0, 17),
    {
        bit(self.0, 17)
    }

    /// CIA run enable
    pub fn set_ciarune(&mut self, value: bool)
        ensures
            final(self).0 == spec_with_bit(old(self).0, 17, value),
    {
        self.0 = with_bit(self.0, 17, value);
    }

    /// Force to IDLE_RC state
    pub fn force2init(&self) -> (r: bool)
        ensures
            r == spec_bit(self.0, 23),
    {
        bit(self.0, 23)
    }

    /// Force to IDLE_RC state
    pub fn set_force2init(&mut self, value: bool)
        ensures
            final(self).0 == spec_with_bit(old(self).0, 23, value),
    {
        self.0 = with_bit(self.0, 23, value);
    }

    /// Kilohertz clock divisor
    pub fn lp_clk_div(&self) -> (r: u8)
        ensures
            r == spec_field(self.0, 26, 32) as u8,
    {
        field(self.0, 26, 32) as u8
    }

    /// Kilohertz clock divisor
    pub fn set_lp_clk_div(&mut self, value: u8)
        ensures
            final(self).0 == spec_with_field(old(self).0, 26, 32, value as u64),
    {
        self.0 = with_field(self.0, 26, 32, value as u64);
    }
}

/// Analog blocks calibration values
#[derive(Copy, Clone, Debug)]
pub struct BiasCtrl(pub u64);

impl Register for BiasCtrl {
    open spec fn spec_address() -> u16 {
        spec_full_address(0x11, 0x1f)
    }

    open spec fn spec_length() -> nat {
        2
    }

    fn address() -> (r: FullAddress) {
        FullAddress::new(FileId::new(0x11), 0x1f)
    }

    fn length() -> (r: usize) {
        2
    }
}

impl Read for BiasCtrl {

}

impl Write for BiasCtrl {

}

impl FieldAccess for BiasCtrl {
    type BaseType = u16;
}

impl FromRaw for BiasCtrl {
    /// The value truncated to the register's u16.
    open spec fn spec_from_raw(value: u64) -> BiasCtrl {
        BiasCtrl(value & 0xffff)
    }

    fn from_raw(value: u64) -> (r: BiasCtrl) {
        BiasCtrl(value & 0xffff)
    }
}

impl ToRaw for BiasCtrl {
    open spec fn spec_to_raw(self) -> u64 {
        self.0
    }

    fn to_raw(self) -> (r: u64) {
        self.0
    }
}

impl Default for BiasCtrl {
    /// The value after power-on reset.
    fn default() -> (r: BiasCtrl)
        ensures
            r.0 == 0x1070,
    {
        BiasCtrl(0x1070)
    }
}

impl BiasCtrl {
    /// Analog blocks calibration value
    pub fn bias_ctrl(&self) -> (r: u16)
        ensures
            r == spec_field(self.0, 0, 14) as u16,
    {
        field(self.0, 0, 14) as u16
    }

    /// Analog blocks calibration value
    pub fn set_bias_ctrl(&mut self, value: u16)
        ensures
            final(self).0 == spec_with_field(old(self).0, 0, 14, value as u64),
    {
        self.0 = with_field(self.0, 0, 14, value as u64);
    }

    /// Bits that are not automatically copied from OTP
    pub fn manual_bits(&self) -> (r: u8)
        ensures
            r == spec_field(self.0, 0, 5) as u8,
    {
        field(self.0, 0, 5) as u8
    }

    /// Bits that are not automatically copied from OTP
    pub fn set_manual_bits(&mut self, value: u8)
        ensures
            final(self).0 == spec_with_field(old(self).0, 0, 5, value as u64),
    {
        self.0 = with_field(self.0, 0, 5, value as u64);
    }
}

/// Receiver tuning parameters
pub struct DgcCfgLut;

impl File for DgcCfgLut {
    open spec fn spec_file_id() -> u8 {
        0x03
    }

    open spec fn spec_offset() -> u8 {
        0x1c
    }

    open spec fn spec_length() -> nat {
        28
    }

    fn file_id() -> (r: FileId) {
        FileId::new(0x03)
    }

    fn offset() -> (r: u8) {
        0x1c
    }

    fn length() -> (r: usize) {
        28
    }
}

impl Read for DgcCfgLut {

}

impl Write for DgcCfgLut {

}

/// Receiver tuning parameters
pub struct DgcLut;

impl File for DgcLut {
    open spec fn spec_file_id() -> u8 {
        0x03
    }

    open spec fn spec_offset() -> u8 {
        0x38
    }

    open spec fn spec_length() -> nat {
        28
    }

    fn file_id() -> (r: FileId) {
        FileId::new(0x03)
    }

    fn offset() -> (r: u8) {
        0x38
    }

    fn length() -> (r: usize) {
        28
    }
}

impl Read for DgcLut {

}

impl Write for DgcLut {

}

/// Rx frame data buffer 0
pub struct RxBuffer0;

impl File for RxBuffer0 {
    open spec fn spec_file_id() -> u8 {
        0x12
    }

    open spec fn spec_offset() -> u8 {
        0x00
    }

    open spec fn spec_length() -> nat {
        1024
    }

    fn file_id() -> (r: FileId) {
        FileId::new(0x12)
    }

    fn offset() -> (r: u8) {
        0x00
    }

    fn length() -> (r: usize) {
        1024
    }
}

impl ZeroOffsetFile for RxBuffer0 {

}

impl Read for RxBuffer0 {

}

/// Rx frame data buffer 1
pub struct RxBuffer1;

impl File for RxBuffer1 {
    open spec fn spec_file_id() -> u8 {
        0x13
    }

    open spec fn spec_offset() -> u8 {
        0x00
    }

    open spec fn spec_length() -> nat {
        1024
    }

    fn file_id() -> (r: FileId) {
        FileId::new(0x13)
    }

    fn offset() -> (r: u8) {
        0x00
    }

    fn length() -> (r: usize) {
        1024
    }
}

impl ZeroOffsetFile for RxBuffer1 {

}

impl Read for RxBuffer1 {

}

/// Tx frame data buffer
pub struct TxBuffer;

impl File for TxBuffer {
    open spec fn spec_file_id() -> u8 {
        0x14
    }

    open spec fn spec_offset() -> u8 {
        0x00
    }

    open spec fn spec_length() -> nat {
        1024
    }

    fn file_id() -> (r: FileId) {
        FileId::new(0x14)
    }

    fn offset() -> (r: u8) {
        0x00
    }

    fn length() -> (r: usize) {
        1024
    }
}

impl ZeroOffsetFile for TxBuffer {

}

impl Write for TxBuffer {

}

/// Scratch RAM buffer
pub struct ScratchMem;

impl File for ScratchMem {
    open spec fn spec_file_id() -> u8 {
        0x17
    }

    open spec fn spec_offset() -> u8 {
        0x00
    }

    open spec fn spec_length() -> nat {
        127
    }

    fn file_id() -> (r: FileId) {
        FileId::new(0x17)
    }

    fn offset() -> (r: u8) {
        0x00
    }

    fn length() -> (r: usize) {
        127
    }
}

impl ZeroOffsetFile for ScratchMem {

}

impl Read for ScratchMem {

}

impl Write for ScratchMem {

}

/// The event bits of the low four octets of the system status.
pub const EVENTS_LOW_ALL_BITS: u32 = 0x3fbfffff;

/// Set of system events, one per bit of the low four status octets.
#[derive(Clone, Copy, PartialEq, Eq, Structural, Debug)]
pub struct EventsLow(u32);

impl View for EventsLow {
    type V = u32;

    closed spec fn view(&self) -> u32 {
        self.0
    }
}

impl EventsLow {
    /// Aggregate IRQ status, read-only
    pub const IRQS: u32 = 1 << 0;
    /// Clock PLL lock
    pub const CPLOCK: u32 = 1 << 1;
    /// SPI CRC error
    pub const SPICRCE: u32 = 1 << 2;
    /// Automatic acknowledge trigger
    pub const ATT: u32 = 1 << 3;
    /// Transmit frame begins
    pub const TXFRB: u32 = 1 << 4;
    /// Transmit preamble sent
    pub const TXPRS: u32 = 1 << 5;
    /// Transmit PHY header sent
    pub const TXPHS: u32 = 1 << 6;
    /// Transmit frame sent
    pub const TXFRS: u32 = 1 << 7;
    /// Receiver preamble detected
    pub const RXPRD: u32 = 1 << 8;
    /// Receiver SFD detected
    pub const RXSFDD: u32 = 1 << 9;
    /// CIA processing done
    pub const CIADONE: u32 = 1 << 10;
    /// Receiver PHY header detected
    pub const RXPHD: u32 = 1 << 11;
    /// Receiver PHY header error
    pub const RXPHE: u32 = 1 << 12;
    /// Receiver frame ready
    pub const RXFR: u32 = 1 << 13;
    /// Receiver FCS good
    pub const RXFCG: u32 = 1 << 14;
    /// Receiver FCS error
    pub const RXFCE: u32 = 1 << 15;
    /// Receiver Reed-Solomon frame sync loss
    pub const RXFSL: u32 = 1 << 16;
    /// Receiver frame wait timeout
    pub const RXFTO: u32 = 1 << 17;
    /// CIA processing error
    pub const CIAERR: u32 = 1 << 18;
    /// Low voltage warning
    pub const VWARN: u32 = 1 << 19;
    /// Receiver overrun
    pub const RXOVRR: u32 = 1 << 20;
    /// Preamble detection timeout
    pub const RXPTO: u32 = 1 << 21;
    /// SPI ready for host access
    pub const SPIRDY: u32 = 1 << 23;
    /// Switch to RC_INIT state
    pub const RCINIT: u32 = 1 << 24;
    /// Clock PLL losing lock
    pub const PLL_HILO: u32 = 1 << 25;
    /// Receiver SFD timeout
    pub const RXSTO: u32 = 1 << 26;
    /// Half period delay warning
    pub const HPDWARN: u32 = 1 << 27;
    /// STS error
    pub const CPERR: u32 = 1 << 28;
    /// Automatic frame filtering rejection
    pub const ARFE: u32 = 1 << 29;

    /// The set with the bits of `bits` that name an event.
    pub fn from_bits_truncate(bits: u32) -> (r: Self)
        ensures
            r@ == bits & EVENTS_LOW_ALL_BITS,
    {
        Self(bits & EVENTS_LOW_ALL_BITS)
    }

    pub fn bits(self) -> (r: u32)
        ensures
            r == self@,
    {
        self.0
    }

    pub fn empty() -> (r: Self)
        ensures
            r@ == 0,
    {
        Self(0)
    }

    pub fn union(self, other: Self) -> (r: Self)
        ensures
            r@ == self@ | other@,
    {
        Self(self.0 | other.0)
    }

    /// Whether every event of `other` is in `self`.
    pub fn contains(self, other: Self) -> (r: bool)
        ensures
            r == (self@ & other@ == other@),
    {
        self.0 & other.0 == other.0
    }
}

/// Receiver calibration status.
#[derive(Clone, Copy, PartialEq, Eq, Structural, Debug)]
pub struct CalStatus(u8);

impl View for CalStatus {
    type V = u8;

    closed spec fn view(&self) -> u8 {
        self.0
    }
}

impl CalStatus {
    /// Calibration finished.
    pub const CAL_DONE: u8 = 1;

    pub fn from_bits_truncate(bits: u8) -> (r: Self)
        ensures
            r@ == bits & 1,
    {
        Self(bits & 1)
    }

    pub fn bits(self) -> (r: u8)
        ensures
            r == self@,
    {
        self.0
    }

    pub fn contains(self, other: Self) -> (r: bool)
        ensures
            r == (self@ & other@ == other@),
    {
        self.0 & other.0 == other.0
    }
}


/// Digital gain control diagnostics
#[derive(Copy, Clone, Debug)]
pub struct DgcDbg(pub u64);

impl Register for DgcDbg {
    open spec fn spec_address() -> u16 {
        spec_full_address(0x03, 0x60)
    }

    open spec fn spec_length() -> nat {
        4
    }

    fn address() -> (r: FullAddress) {
        FullAddress::new(FileId::new(0x03), 0x60)
    }

    fn length() -> (r: usize) {
        4
    }
}

impl Read for DgcDbg {

}

impl FieldAccess for DgcDbg {
    type BaseType = u32;
}

impl FromRaw for DgcDbg {
    /// The value truncated to the register's u32.
    open spec fn spec_from_raw(value: u64) -> DgcDbg {
        DgcDbg(value & 0xffffffff)
    }

    fn from_raw(value: u64) -> (r: DgcDbg) {
        DgcDbg(value & 0xffffffff)
    }
}

impl DgcDbg {
    /// Gain step the receiver applied
    pub fn dgc_decision(&self) -> (r: u8)
        ensures
            r == spec_field(self.0, 28, 31) as u8,
            r < 0x8,
    {
        proof { lemma_diagnostic_field_bounds(self.0); }
        field(self.0, 28, 31) as u8
    }
}

/// Preamble accumulator: channel area
#[derive(Copy, Clone, Debug)]
pub struct IpDiag1(pub u64);

impl Register for IpDiag1 {
    open spec fn spec_address() -> u16 {
        spec_full_address(0x0c, 0x2c)
    }

    open spec fn spec_length() -> nat {
        4
    }

    fn address() -> (r: FullAddress) {
        FullAddress::new(FileId::new(0x0c), 0x2c)
    }

    fn length() -> (r: usize) {
        4
    }
}

impl Read for IpDiag1 {

}

impl FieldAccess for IpDiag1 {
    type BaseType = u32;
}

impl FromRaw for IpDiag1 {
    /// The value truncated to the register's u32.
    open spec fn spec_from_raw(value: u64) -> IpDiag1 {
        IpDiag1(value & 0xffffffff)
    }

    fn from_raw(value: u64) -> (r: IpDiag1) {
        IpDiag1(value & 0xffffffff)
    }
}

impl IpDiag1 {
    /// Area under the channel impulse response
    pub fn ip_crea(&self) -> (r: u32)
        ensures
            r == spec_field(self.0, 0, 17) as u32,
            r < 0x20000,
    {
        proof { lemma_diagnostic_field_bounds(self.0); }
        field(self.0, 0, 17) as u32
    }
}

/// Preamble accumulator: first path amplitude point 1
#[derive(Copy, Clone, Debug)]
pub struct IpDiag2(pub u64);

impl Register for IpDiag2 {
    open spec fn spec_address() -> u16 {
        spec_full_address(0x0c, 0x30)
    }

    open spec fn spec_length() -> nat {
        4
    }

    fn address() -> (r: FullAddress) {
        FullAddress::new(FileId::new(0x0c), 0x30)
    }

    fn length() -> (r: usize) {
        4
    }
}

impl Read for IpDiag2 {

}

impl FieldAccess for IpDiag2 {
    type BaseType = u32;
}

impl FromRaw for IpDiag2 {
    /// The value truncated to the register's u32.
    open spec fn spec_from_raw(value: u64) -> IpDiag2 {
        IpDiag2(value & 0xffffffff)
    }

    fn from_raw(value: u64) -> (r: IpDiag2) {
        IpDiag2(value & 0xffffffff)
    }
}

impl IpDiag2 {
    /// Magnitude of the first path at its first point
    pub fn ip_fp1m(&self) -> (r: u32)
        ensures
            r == spec_field(self.0, 0, 22) as u32,
            r < 0x400000,
    {
        proof { lemma_diagnostic_field_bounds(self.0); }
        field(self.0, 0, 22) as u32
    }
}

/// Preamble accumulator: first path amplitude point 2
#[derive(Copy, Clone, Debug)]
pub struct IpDiag3(pub u64);

impl Register for IpDiag3 {
    open spec fn spec_address() -> u16 {
        spec_full_address(0x0c, 0x34)
    }

    open spec fn spec_length() -> nat {
        4
    }

    fn address() -> (r: FullAddress) {
        FullAddress::new(FileId::new(0x0c), 0x34)
    }

    fn length() -> (r: usize) {
        4
    }
}

impl Read for IpDiag3 {

}

impl FieldAccess for IpDiag3 {
    type BaseType = u32;
}

impl FromRaw for IpDiag3 {
    /// The value truncated to the register's u32.
    open spec fn spec_from_raw(value: u64) -> IpDiag3 {
        IpDiag3(value & 0xffffffff)
    }

    fn from_raw(value: u64) -> (r: IpDiag3) {
        IpDiag3(value & 0xffffffff)
    }
}

impl IpDiag3 {
    /// Magnitude of the first path at its second point
    pub fn ip_fp2m(&self) -> (r: u32)
        ensures
            r == spec_field(self.0, 0, 22) as u32,
            r < 0x400000,
    {
        proof { lemma_diagnostic_field_bounds(self.0); }
        field(self.0, 0, 22) as u32
    }
}

/// Preamble accumulator: first path amplitude point 3
#[derive(Copy, Clone, Debug)]
pub struct IpDiag4(pub u64);

impl Register for IpDiag4 {
    open spec fn spec_address() -> u16 {
        spec_full_address(0x0c, 0x38)
    }

    open spec fn spec_length() -> nat {
        4
    }

    fn address() -> (r: FullAddress) {
        FullAddress::new(FileId::new(0x0c), 0x38)
    }

    fn length() -> (r: usize) {
        4
    }
}

impl Read for IpDiag4 {

}

impl FieldAccess for IpDiag4 {
    type BaseType = u32;
}

impl FromRaw for IpDiag4 {
    /// The value truncated to the register's u32.
    open spec fn spec_from_raw(value: u64) -> IpDiag4 {
        IpDiag4(value & 0xffffffff)
    }

    fn from_raw(value: u64) -> (r: IpDiag4) {
        IpDiag4(value & 0xffffffff)
    }
}

impl IpDiag4 {
    /// Magnitude of the first path at its third point
    pub fn ip_fp3m(&self) -> (r: u32)
        ensures
            r == spec_field(self.0, 0, 22) as u32,
            r < 0x400000,
    {
        proof { lemma_diagnostic_field_bounds(self.0); }
        field(self.0, 0, 22) as u32
    }
}

/// Preamble accumulator: symbols accumulated
#[derive(Copy, Clone, Debug)]
pub struct IpDiag12(pub u64);

impl Register for IpDiag12 {
    open spec fn spec_address() -> u16 {
        spec_full_address(0x0c, 0x58)
    }

    open spec fn spec_length() -> nat {
        4
    }

    fn address() -> (r: FullAddress) {
        FullAddress::new(FileId::new(0x0c), 0x58)
    }

    fn length() -> (r: usize) {
        4
    }
}

impl Read for IpDiag12 {

}

impl FieldAccess for IpDiag12 {
    type BaseType = u32;
}

impl FromRaw for IpDiag12 {
    /// The value truncated to the register's u32.
    open spec fn spec_from_raw(value: u64) -> IpDiag12 {
        IpDiag12(value & 0xffffffff)
    }

    fn from_raw(value: u64) -> (r: IpDiag12) {
        IpDiag12(value & 0xffffffff)
    }
}

impl IpDiag12 {
    /// Number of preamble symbols accumulated
    pub fn ip_nacc(&self) -> (r: u16)
        ensures
            r == spec_field(self.0, 0, 12) as u16,
            r < 0x1000,
    {
        proof { lemma_diagnostic_field_bounds(self.0); }
        field(self.0, 0, 12) as u16
    }
}

/// The diagnostic fields fit their widths.
pub proof fn lemma_diagnostic_field_bounds(raw: u64)
    by (bit_vector)
    ensures
        spec_field(raw, 28, 31) < 0x8,
        spec_field(raw, 0, 17) < 0x2_0000,
        spec_field(raw, 0, 22) < 0x40_0000,
        spec_field(raw, 0, 12) < 0x1000,
{
}

} // verus!

//! The DW3000 as a PHY: run state, configuration checks and the decisions
//! of each PHY operation. An operation that waits for the device is split
//! at the wait: `begin_` does what comes before and gives how long to wait
//! for the interrupt, `finish_` takes whether it came.
use vstd::prelude::*;
use crate::dw3000::device::{
    self, BitRate as DevBitRate, Device, DeviceError, Events, FastCommand, Instant, MeanPrf as DevMeanPrf, PacSize,
    SYSTEM_TIME_PERIOD_TICKS, SYSTEM_TIME_UNIT_TICKS, TxPowerConfig, lemma_cut_short, spec_cut_short, spec_read_at,
};
use crate::dw3000::ral::{spec_field, spec_last_read, spec_with_field};
use crate::dw3000::interface::{BusOp, BusRequest, Interface};
use crate::dw3000::ral::regs::{self, EventsLow};
use crate::phy::{self, Capabilities, Error, OpError, RunConfig, State};
use crate::phy::time::{Duration, spec_cyclic_add, spec_cyclic_sub, spec_div_ceil};

verus! {

/// What the DW3000 supports: channels 5 and 9, mean PRF 16 and 62 MHz,
/// preambles of 32 to 4096 symbols, SFDs 0 and 2, the 850 kb/s and
/// 6.8 Mb/s rates, long frames and TX FCS correction.
pub const DW3000_CAPABILITIES: u64 = Capabilities::CH_5 | Capabilities::CH_9 | Capabilities::PRF_16
    | Capabilities::PRF_62 | Capabilities::PSR_32 | Capabilities::PSR_64 | Capabilities::PSR_128
    | Capabilities::PSR_256 | Capabilities::PSR_512 | Capabilities::PSR_1024 | Capabilities::PSR_1536
    | Capabilities::PSR_2048 | Capabilities::PSR_4096 | Capabilities::SFD_0 | Capabilities::SFD_2
    | Capabilities::BIT_RATE_850 | Capabilities::BIT_RATE_6810 | Capabilities::BIT_RATE_6810_ONLY
    | Capabilities::LONG_FRAME_FORMAT | Capabilities::CORRECT_TX_FCS;

/// Ticks of the shortest microsecond of the host relative to the device
/// clock: one microsecond of the device, 63897.6 ticks, over a host clock
/// up to 5% fast, rounded down.
pub const HOST_MICROSECOND_MIN_TICKS: u64 = 60854;

/// Events that end a reception; RXSTO does not stop it.
pub const TERMINATION_EVENTS: u32 = EventsLow::RXPHE | EventsLow::RXFR | EventsLow::RXFSL | EventsLow::RXFTO
    | EventsLow::RXPTO | EventsLow::ARFE;

/// The longest PSDU of a frame format.
pub open spec fn spec_max_psdu_length(long_frame_format: bool) -> u16 {
    if long_frame_format {
        phy::MAX_LONG_PSDU_LENGTH
    } else {
        phy::MAX_PSDU_LENGTH
    }
}

pub fn max_psdu_length(long_frame_format: bool) -> (r: u16)
    ensures
        r == spec_max_psdu_length(long_frame_format),
{
    if long_frame_format {
        phy::MAX_LONG_PSDU_LENGTH
    } else {
        phy::MAX_PSDU_LENGTH
    }
}

/// An operation may start only on a tick of the scheduling step: the
/// offset from the step below is an error.
pub fn check_start_instant_alignment(start_at: Instant) -> (r: Result<(), OpError>)
    ensures
        r is Ok <==> start_at@ % SYSTEM_TIME_UNIT_TICKS == 0,
        r is Err ==> (r matches Err(OpError::StartInstantNotAligned(d)) && d@ == start_at@ % SYSTEM_TIME_UNIT_TICKS),
{
    let offset = start_at.as_ticks() % SYSTEM_TIME_UNIT_TICKS;
    if offset == 0 {
        Ok(())
    } else {
        Err(OpError::StartInstantNotAligned(Duration::from_ticks(offset)))
    }
}

/// Device settings that the run configuration does not cover.
#[derive(Clone, Copy, PartialEq, Eq, Debug)]
pub struct DeviceConfig {
    pub tx_power: TxPowerConfig,
}

impl Default for DeviceConfig {
    fn default() -> (r: Self)
        ensures
            r.tx_power.shr.0 == 0x82,
            r.tx_power.phr.0 == 0x82,
            r.tx_power.data.0 == 0x82,
            r.tx_power.sts.0 == 0x82,
    {
        DeviceConfig { tx_power: TxPowerConfig::default() }
    }
}

/// What a running PHY was started with.
#[derive(Clone, Copy, Debug)]
pub struct RunData {
    pub config: RunConfig,
    pub bit_rate: DevBitRate,
    pub pac_size: PacSize,
}

/// The device's bit rate of a PHY bit rate it supports.
pub open spec fn spec_dev_bit_rate(b: phy::BitRate) -> DevBitRate {
    match b {
        phy::BitRate::Kbs6810 => DevBitRate::Kbs6810,
        phy::BitRate::Kbs6810Only => DevBitRate::Kbs6810Only,
        _ => DevBitRate::Kbs850,
    }
}

/// The device configuration of a run configuration the DW3000 supports.
pub open spec fn spec_device_config(run_config: RunConfig, dev_config: DeviceConfig) -> device::Config {
    device::Config {
        channel: if run_config.channel@ == 5 {
            device::Channel::Channel5
        } else {
            device::Channel::Channel9
        },
        prf: if run_config.prf == phy::MeanPrf::Mhz16 {
            DevMeanPrf::Mhz16
        } else {
            DevMeanPrf::Mhz62
        },
        rx_code: run_config.rx_preamble_code,
        tx_code: run_config.tx_preamble_code,
        rx_psr: run_config.psr,
        pac_size: device::spec_recommended_pac_size(run_config.psr),
        sfd_type: if run_config.sfd_type == phy::SfdType::Sfd0 {
            device::SfdType::IeeeSfd0
        } else {
            device::SfdType::IeeeSfd2
        },
        cia_enable: run_config.ranging,
        bit_rate: spec_dev_bit_rate(run_config.bit_rate),
        frame_format: if run_config.long_frame_format {
            regs::PhrMode::LongFrame
        } else {
            regs::PhrMode::StandardFrame
        },
        correct_tx_fcs: run_config.correct_tx_fcs,
        tx_power: dev_config.tx_power,
    }
}

proof fn lemma_capabilities(i: u64)
    requires
        i < 64,
    ensures
        DW3000_CAPABILITIES & phy::CAPABILITIES_ALL_BITS == DW3000_CAPABILITIES,
        phy::has_bit(DW3000_CAPABILITIES, i) <==> (i == 5 || i == 9 || i == 17 || i == 18 || (21 <= i <= 29) || i
            == 30 || i == 32 || i == 36 || i == 37 || i == 38 || i == 40 || i == 41),
{
    assert(DW3000_CAPABILITIES == 0x3717fe60220u64 && DW3000_CAPABILITIES & phy::CAPABILITIES_ALL_BITS
        == DW3000_CAPABILITIES && (i < 64 ==> ((0x3717fe60220u64 & (1u64 << i) != 0) <==> (i == 5 || i == 9 || i
        == 17 || i == 18 || (21 <= i <= 29) || i == 30 || i == 32 || i == 36 || i == 37 || i == 38 || i == 40 || i
        == 41)))) by (bit_vector);
}

/// The DW3000 driver.
pub struct Dw3000Phy<IF> {
    device: Device<IF>,
    dev_config: DeviceConfig,
    state: Option<RunData>,
}

impl<IF: Interface> Dw3000Phy<IF> {
    /// What the PHY was started with, when it runs.
    pub closed spec fn spec_run(&self) -> Option<RunData> {
        self.state
    }

    pub closed spec fn spec_device(&self) -> Device<IF> {
        self.device
    }

    pub closed spec fn spec_dev_config(&self) -> DeviceConfig {
        self.dev_config
    }

    /// The operations made on the device so far.
    pub open spec fn spec_log(&self) -> Seq<BusOp> {
        self.spec_device().spec_log()
    }

    /// The operations handed to the interface so far, failed ones too.
    pub open spec fn spec_requests(&self) -> Seq<BusRequest> {
        self.spec_device().spec_requests()
    }

    pub open spec fn spec_state(&self) -> State {
        if self.spec_run() is Some {
            State::Running
        } else {
            State::Stopped
        }
    }

    /// A stopped PHY over a device that was opened and reset.
    pub fn new(device: Device<IF>, dev_config: DeviceConfig) -> (r: Self)
        ensures
            r.spec_device() == device,
            r.spec_dev_config() == dev_config,
            r.spec_run() is None,
    {
        Dw3000Phy { device, dev_config, state: None }
    }

    /// The device, for the configuration steps that wait on it.
    pub fn device_mut(&mut self) -> (r: &mut Device<IF>)
        ensures
            *r == old(self).spec_device(),
            final(self).spec_device() == *final(r),
            final(self).spec_run() == old(self).spec_run(),
            final(self).spec_dev_config() == old(self).spec_dev_config(),
    {
        &mut self.device
    }

    pub fn state(&self) -> (r: State)
        ensures
            r == self.spec_state(),
    {
        match self.state {
            Some(_) => State::Running,
            None => State::Stopped,
        }
    }

    pub fn capabilities(&self) -> (r: Capabilities)
        ensures
            r@ == DW3000_CAPABILITIES,
    {
        proof {
            lemma_capabilities(0);
        }
        Capabilities::from_bits_truncate(DW3000_CAPABILITIES)
    }

    pub fn max_rx_timeout(&self) -> (r: Duration)
        ensures
            r@ == device::MAX_FRAME_TIMEOUT_TICKS,
    {
        device::max_frame_timeout()
    }

    /// Stops the PHY by holding the device in reset (a sleep state would
    /// keep the configuration).
    pub fn stop(&mut self) -> (r: Result<(), Error<IF::Error, DeviceError>>)
        ensures
            final(self).spec_dev_config() == old(self).spec_dev_config(),
            final(self).spec_device().spec_otp() == old(self).spec_device().spec_otp(),
            r is Ok ==> final(self).spec_run() is None && final(self).spec_log() == old(self).spec_log().push(
                BusOp::Reset(true),
            ),
            r is Err ==> final(self).spec_run() == old(self).spec_run() && final(self).spec_log() == old(self).spec_log(),
            r matches Err(e) ==> e is Interface,
    {
        match self.device.shutdown() {
            Ok(()) => {},
            Err(e) => return Err(phy_error(e)),
        }
        self.state = None;
        Ok(())
    }

    /// First part of a start: checks the run configuration against the
    /// capabilities and gives the device configuration that `configure`
    /// applies, before `finish_start`.
    pub fn begin_start(&self, run_config: RunConfig) -> (r: Result<device::Config, Error<IF::Error, DeviceError>>)
        ensures
            r matches Ok(c) ==> c == spec_device_config(run_config, self.spec_dev_config()),
            r is Ok <==> phy::spec_check_capabilities(run_config, DW3000_CAPABILITIES) is Ok,
            r matches Err(e) ==> e == Error::<IF::Error, DeviceError>::Operation(
                OpError::UnsupportedConfig(phy::spec_check_capabilities(run_config, DW3000_CAPABILITIES)->Err_0),
            ),
    {
        match run_config.check_capabilities(self.capabilities()) {
            Ok(()) => {},
            Err(e) => return Err(Error::Operation(OpError::UnsupportedConfig(e))),
        }
        let channel_number = run_config.channel.as_number();
        proof {
            lemma_capabilities(channel_number as u64);
            lemma_capabilities(phy::spec_prf_bit(run_config.prf));
            lemma_capabilities(phy::spec_sfd_bit(run_config.sfd_type));
            lemma_capabilities(phy::spec_bit_rate_bit(run_config.bit_rate));
        }
        let pac_size = device::recommended_pac_size(run_config.psr);
        let bit_rate = match run_config.bit_rate {
            phy::BitRate::Kbs6810 => DevBitRate::Kbs6810,
            phy::BitRate::Kbs6810Only => DevBitRate::Kbs6810Only,
            _ => DevBitRate::Kbs850,
        };
        let channel = if channel_number == 5 {
            device::Channel::Channel5
        } else {
            device::Channel::Channel9
        };
        let prf = match run_config.prf {
            phy::MeanPrf::Mhz16 => DevMeanPrf::Mhz16,
            _ => DevMeanPrf::Mhz62,
        };
        let sfd_type = match run_config.sfd_type {
            phy::SfdType::Sfd0 => device::SfdType::IeeeSfd0,
            _ => device::SfdType::IeeeSfd2,
        };
        Ok(device::Config {
            channel,
            prf,
            rx_code: run_config.rx_preamble_code,
            tx_code: run_config.tx_preamble_code,
            rx_psr: run_config.psr,
            pac_size,
            sfd_type,
            cia_enable: run_config.ranging,
            bit_rate,
            frame_format: if run_config.long_frame_format {
                regs::PhrMode::LongFrame
            } else {
                regs::PhrMode::StandardFrame
            },
            correct_tx_fcs: run_config.correct_tx_fcs,
            tx_power: self.dev_config.tx_power,
        })
    }

    /// Last part of a start, once the device is configured: clears the
    /// events and runs with `run_config`.
    pub fn finish_start(&mut self, run_config: RunConfig) -> (r: Result<(), Error<IF::Error, DeviceError>>)
        ensures
            final(self).spec_dev_config() == old(self).spec_dev_config(),
            final(self).spec_device().spec_otp() == old(self).spec_device().spec_otp(),
            r is Ok ==> {
                &&& final(self).spec_log() == old(self).spec_log().push(BusOp::Command(FastCommand::ClrIrqs.spec_code()))
                &&& final(self).spec_run() == Some(
                    RunData {
                        config: run_config,
                        bit_rate: spec_dev_bit_rate(run_config.bit_rate),
                        pac_size: device::spec_recommended_pac_size(run_config.psr),
                    },
                )
            },
            r is Err ==> final(self).spec_run() == old(self).spec_run() && final(self).spec_log() == old(self).spec_log(),
            r matches Err(e) ==> e is Interface,
    {
        match self.device.clear_all_events() {
            Ok(()) => {},
            Err(e) => return Err(phy_error(e)),
        }
        let bit_rate = match run_config.bit_rate {
            phy::BitRate::Kbs6810 => DevBitRate::Kbs6810,
            phy::BitRate::Kbs6810Only => DevBitRate::Kbs6810Only,
            _ => DevBitRate::Kbs850,
        };
        self.state = Some(RunData { config: run_config, bit_rate, pac_size: device::recommended_pac_size(run_config.psr) });
        Ok(())
    }

    pub fn get_timestamp(&mut self) -> (r: Result<Instant, Error<IF::Error, DeviceError>>)
        ensures
            final(self).spec_run() == old(self).spec_run(),
            final(self).spec_dev_config() == old(self).spec_dev_config(),
            final(self).spec_device().spec_otp() == old(self).spec_device().spec_otp(),
            old(self).spec_run() is None ==> r == Err::<Instant, Error<IF::Error, DeviceError>>(
                Error::Operation(OpError::ProhibitedInCurrentState(State::Stopped)),
            ) && final(self).spec_log() == old(self).spec_log() && final(self).spec_requests() == old(self).spec_requests(),
            old(self).spec_run() is Some && r is Ok ==> {
                let raw = device::spec_read_at(final(self).spec_log(), old(self).spec_log().len() as int + 1);
                &&& final(self).spec_log() == old(self).spec_log() + seq![
                    BusOp::WriteFast { file_id: 0x17, data: Seq::empty() },
                    device::spec_read::<regs::SysTime>(raw),
                ]
                &&& r->Ok_0@ == SYSTEM_TIME_UNIT_TICKS * (raw / 2)
            },
            old(self).spec_run() is Some && r is Err ==> spec_cut_short(
                old(self).spec_log(),
                final(self).spec_log(),
                seq![
                    BusOp::WriteFast { file_id: 0x17, data: Seq::empty() },
                    device::spec_read::<regs::SysTime>(
                        device::spec_read_at(final(self).spec_log(), old(self).spec_log().len() as int + 1),
                    ),
                ],
            ),
            r matches Err(e) ==> e is Interface || old(self).spec_run() is None,
    {
        if self.state.is_none() {
            return Err(Error::Operation(OpError::ProhibitedInCurrentState(self.state())));
        }
        let ghost log0 = self.device.spec_log();
        match self.device.get_sys_timestamp() {
            Ok(t) => {
                proof {
                    let log = self.device.spec_log();
                    assert(log[log0.len() as int + 1] == device::spec_read::<regs::SysTime>(
                        crate::dw3000::ral::spec_last_read(log),
                    ));
                }
                Ok(t)
            },
            Err(e) => {
                proof {
                    let log = self.device.spec_log();
                    let rec = seq![
                        BusOp::WriteFast { file_id: 0x17, data: Seq::empty() },
                        device::spec_read::<regs::SysTime>(device::spec_read_at(log, log0.len() as int + 1)),
                    ];
                    if log == log0 {
                        assert(log =~= log0 + rec.subrange(0, 0));
                    } else {
                        assert(log =~= log0 + rec.subrange(0, 1));
                    }
                }
                Err(phy_error(e))
            },
        }
    }

    /// Writes the frame to transmit, no longer than the frame format allows.
    pub fn write_tx_buffer(&mut self, psdu: &[u8]) -> (r: Result<(), Error<IF::Error, DeviceError>>)
        ensures
            final(self).spec_run() == old(self).spec_run(),
            final(self).spec_dev_config() == old(self).spec_dev_config(),
            final(self).spec_device().spec_otp() == old(self).spec_device().spec_otp(),
            match old(self).spec_run() {
                None => r == Err::<(), Error<IF::Error, DeviceError>>(
                    Error::Operation(OpError::ProhibitedInCurrentState(State::Stopped)),
                ) && final(self).spec_log() == old(self).spec_log() && final(self).spec_requests() == old(self).spec_requests(),
                Some(rd) => if psdu@.len() > spec_max_psdu_length(rd.config.long_frame_format) {
                    r == Err::<(), Error<IF::Error, DeviceError>>(
                        Error::Operation(
                            OpError::BufferAccessBeyondFrameFormat(
                                psdu@.len() as usize,
                                spec_max_psdu_length(rd.config.long_frame_format),
                            ),
                        ),
                    ) && final(self).spec_log() == old(self).spec_log() && final(self).spec_requests() == old(self).spec_requests()
                } else {
                    (r is Ok ==> final(self).spec_log() == old(self).spec_log().push(
                        BusOp::WriteFast { file_id: 0x14, data: psdu@ },
                    )) && (r matches Err(e) ==> e is Interface && final(self).spec_log() == old(self).spec_log())
                },
            },
    {
        let run = match self.state {
            Some(run) => run,
            None => return Err(Error::Operation(OpError::ProhibitedInCurrentState(self.state()))),
        };
        let max_psdu_length = max_psdu_length(run.config.long_frame_format);
        if psdu.len() > max_psdu_length as usize {
            return Err(Error::Operation(OpError::BufferAccessBeyondFrameFormat(psdu.len(), max_psdu_length)));
        }
        match self.device.write_tx_buffer(psdu) {
            Ok(()) => Ok(()),
            Err(e) => Err(phy_error(e)),
        }
    }

    /// Reads the received frame into `psdu`, no longer than the frame format
    /// allows.
    pub fn read_rx_buffer(&mut self, psdu: &mut [u8]) -> (r: Result<(), Error<IF::Error, DeviceError>>)
        ensures
            final(self).spec_run() == old(self).spec_run(),
            final(self).spec_dev_config() == old(self).spec_dev_config(),
            final(self).spec_device().spec_otp() == old(self).spec_device().spec_otp(),
            final(psdu)@.len() == old(psdu)@.len(),
            match old(self).spec_run() {
                None => r == Err::<(), Error<IF::Error, DeviceError>>(
                    Error::Operation(OpError::ProhibitedInCurrentState(State::Stopped)),
                ) && final(self).spec_log() == old(self).spec_log() && final(self).spec_requests() == old(self).spec_requests(),
                Some(rd) => if old(psdu)@.len() > spec_max_psdu_length(rd.config.long_frame_format) {
                    r == Err::<(), Error<IF::Error, DeviceError>>(
                        Error::Operation(
                            OpError::BufferAccessBeyondFrameFormat(
                                old(psdu)@.len() as usize,
                                spec_max_psdu_length(rd.config.long_frame_format),
                            ),
                        ),
                    ) && final(self).spec_log() == old(self).spec_log() && final(self).spec_requests() == old(self).spec_requests()
                } else {
                    (r is Ok ==> final(self).spec_log() == old(self).spec_log().push(
                        BusOp::ReadFast { file_id: 0x12, data: final(psdu)@ },
                    )) && (r matches Err(e) ==> e is Interface && final(self).spec_log() == old(self).spec_log())
                },
            },
    {
        let run = match self.state {
            Some(run) => run,
            None => return Err(Error::Operation(OpError::ProhibitedInCurrentState(self.state()))),
        };
        let max_psdu_length = max_psdu_length(run.config.long_frame_format);
        if psdu.len() > max_psdu_length as usize {
            return Err(Error::Operation(OpError::BufferAccessBeyondFrameFormat(psdu.len(), max_psdu_length)));
        }
        match self.device.read_rx_buffer(psdu) {
            Ok(()) => Ok(()),
            Err(e) => Err(phy_error(e)),
        }
    }

    /// Stops the transceiver and clears the events after a failed start.
    fn abort(&mut self) -> (r: Result<(), Error<IF::Error, DeviceError>>)
        ensures
            final(self).spec_run() == old(self).spec_run(),
            final(self).spec_dev_config() == old(self).spec_dev_config(),
            final(self).spec_device().spec_otp() == old(self).spec_device().spec_otp(),
            r is Ok ==> final(self).spec_log() == old(self).spec_log() + spec_abort_ops(),
            r is Err ==> spec_cut_short(old(self).spec_log(), final(self).spec_log(), spec_abort_ops()),
            r matches Err(e) ==> e is Interface,
    {
        let ghost log0 = self.device.spec_log();
        proof {
            assert(log0 =~= log0 + spec_abort_ops().subrange(0, 0));
            assert(log0.push(BusOp::Command(FastCommand::Txrxoff.spec_code())) =~= log0 + spec_abort_ops().subrange(
                0,
                1,
            ));
        }
        match self.device.send_command(FastCommand::Txrxoff) {
            Ok(()) => {},
            Err(e) => return Err(phy_error(e)),
        }
        match self.device.clear_all_events() {
            Ok(()) => {},
            Err(e) => return Err(phy_error(e)),
        }
        proof {
            assert(self.device.spec_log() =~= log0 + spec_abort_ops());
        }
        Ok(())
    }

    /// Programs a delayed transmission whose RMARKER is at `rmarker_at` and
    /// reads the time it was programmed at.
    fn program_tx(&mut self, rd: RunData, rmarker_at: Instant, length: u16) -> (r: Result<Instant, Error<IF::Error, DeviceError>>)
        requires
            length <= 1023,
        ensures
            final(self).spec_run() == old(self).spec_run(),
            final(self).spec_dev_config() == old(self).spec_dev_config(),
            final(self).spec_device().spec_otp() == old(self).spec_device().spec_otp(),
            r matches Ok(t) ==> {
                let n = old(self).spec_log().len() as int;
                let log = final(self).spec_log();
                let ts = spec_read_at(log, n + 4);
                &&& log == old(self).spec_log() + seq![
                    device::spec_write::<regs::TxFctrlShort>(
                        device::spec_tx_fctrl(rd.config.psr, rd.bit_rate, rd.config.ranging, length),
                    ),
                    device::spec_write::<regs::DxTime>((rmarker_at@ / SYSTEM_TIME_UNIT_TICKS * 2) as u64),
                    BusOp::Command(FastCommand::Dtx.spec_code()),
                    BusOp::WriteFast { file_id: 0x17, data: Seq::empty() },
                    device::spec_read::<regs::SysTime>(ts),
                ]
                &&& t@ == SYSTEM_TIME_UNIT_TICKS * (ts / 2)
            },
            r is Err ==> spec_cut_short(
                old(self).spec_log(),
                final(self).spec_log(),
                spec_tx_program_ops(rd, rmarker_at@, length, 0),
            ),
            r matches Err(e) ==> e is Interface,
    {
        let ghost log0 = self.device.spec_log();
        let ghost ops = spec_tx_program_ops(rd, rmarker_at@, length, 0);
        match self.device.set_tx_config(rd.config.psr, rd.bit_rate, rd.config.ranging, length) {
            Ok(()) => {},
            Err(e) => {
                assert(self.device.spec_log() =~= log0 + ops.subrange(0, 0));
                return Err(phy_error(e));
            },
        }
        match self.device.set_dx_time(rmarker_at) {
            Ok(()) => {},
            Err(e) => {
                assert(self.device.spec_log() =~= log0 + ops.subrange(0, 1));
                return Err(phy_error(e));
            },
        }
        match self.device.send_command(FastCommand::Dtx) {
            Ok(()) => {},
            Err(e) => {
                assert(self.device.spec_log() =~= log0 + ops.subrange(0, 2));
                return Err(phy_error(e));
            },
        }
        let ghost log3 = self.device.spec_log();
        let t = match self.device.get_sys_timestamp() {
            Ok(t) => t,
            Err(e) => {
                assert(log3 =~= log0 + ops.subrange(0, 3));
                assert(log3.push(BusOp::WriteFast { file_id: 0x17, data: Seq::empty() }) =~= log0 + ops.subrange(0, 4));
                return Err(phy_error(e));
            },
        };
        proof {
            let log = self.device.spec_log();
            let ts = spec_last_read(log);
            assert(log =~= log0 + seq![
                device::spec_write::<regs::TxFctrlShort>(
                    device::spec_tx_fctrl(rd.config.psr, rd.bit_rate, rd.config.ranging, length),
                ),
                device::spec_write::<regs::DxTime>((rmarker_at@ / SYSTEM_TIME_UNIT_TICKS * 2) as u64),
                BusOp::Command(FastCommand::Dtx.spec_code()),
                BusOp::WriteFast { file_id: 0x17, data: Seq::empty() },
                device::spec_read::<regs::SysTime>(ts),
            ]);
            assert(spec_read_at(log, log0.len() as int + 4) == ts);
        }
        Ok(t)
    }

    /// First part of a transmission of the `length` octets in the buffer at
    /// `start_at`: checks, programs a delayed transmission and arms the
    /// TXFRS interrupt. Gives the microseconds to wait for it at most; the
    /// outcome goes to `finish_transmit`.
    pub fn begin_transmit(&mut self, start_at: Instant, length: u16) -> (r: Result<u32, Error<IF::Error, DeviceError>>)
        ensures
            final(self).spec_run() == old(self).spec_run(),
            final(self).spec_dev_config() == old(self).spec_dev_config(),
            final(self).spec_device().spec_otp() == old(self).spec_device().spec_otp(),
            match old(self).spec_run() {
                None => r == Err::<u32, Error<IF::Error, DeviceError>>(
                    Error::Operation(OpError::ProhibitedInCurrentState(State::Stopped)),
                ) && final(self).spec_log() == old(self).spec_log() && final(self).spec_requests() == old(
                    self,
                ).spec_requests(),
                Some(rd) => if start_at@ % SYSTEM_TIME_UNIT_TICKS != 0 {
                    (r matches Err(Error::Operation(OpError::StartInstantNotAligned(d))) && d@ == start_at@
                        % SYSTEM_TIME_UNIT_TICKS) && final(self).spec_log() == old(self).spec_log()
                        && final(self).spec_requests() == old(self).spec_requests()
                } else if length > spec_max_psdu_length(rd.config.long_frame_format) {
                    r == Err::<u32, Error<IF::Error, DeviceError>>(
                        Error::Operation(
                            OpError::TxLengthAboveFrameFormat(length, spec_max_psdu_length(rd.config.long_frame_format)),
                        ),
                    ) && final(self).spec_log() == old(self).spec_log() && final(self).spec_requests() == old(
                        self,
                    ).spec_requests()
                } else if rd.config.correct_tx_fcs && length < phy::FCS_LENGTH {
                    r == Err::<u32, Error<IF::Error, DeviceError>>(
                        Error::Operation(OpError::TxLengthLessThanFcs(length)),
                    ) && final(self).spec_log() == old(self).spec_log() && final(self).spec_requests() == old(
                        self,
                    ).spec_requests()
                } else {
                    let n = old(self).spec_log().len() as int;
                    let log = final(self).spec_log();
                    let ts = spec_read_at(log, n + 4);
                    let ev = spec_read_at(log, n + 5);
                    let st = spec_read_at(log, n + 6);
                    &&& r matches Ok(t) ==> {
                        &&& log == old(self).spec_log() + spec_tx_begin_ops(rd, start_at@, length, ts, ev) + seq![
                            device::spec_read::<regs::SysState>(st),
                            device::spec_write::<regs::SysEnableLow>(EventsLow::TXFRS as u64),
                        ]
                        &&& !spec_has_event(ev, EventsLow::HPDWARN) && !spec_tx_missed_deadline(st)
                        &&& t == spec_event_timeout(spec_start_delay(start_at@, ts) + spec_frame_ticks(rd.config, length))
                    }
                    &&& r matches Err(Error::Operation(OpError::StartInstantPassed(d))) ==> {
                        &&& d@ == spec_overtime(start_at@, ts)
                        &&& if spec_has_event(ev, EventsLow::HPDWARN) {
                            log == old(self).spec_log() + spec_tx_begin_ops(rd, start_at@, length, ts, ev)
                                + spec_abort_ops()
                        } else {
                            &&& spec_tx_missed_deadline(st)
                            &&& log == old(self).spec_log() + spec_tx_begin_ops(rd, start_at@, length, ts, ev)
                                + seq![device::spec_read::<regs::SysState>(st)] + spec_abort_ops()
                        }
                    }
                    &&& r matches Err(e) ==> e is Interface || e is Operation
                    &&& r matches Err(Error::Operation(op)) ==> op is StartInstantPassed
                    &&& r is Err && r->Err_0 is Interface ==> spec_cut_short(
                        old(self).spec_log(),
                        log,
                        spec_tx_record(rd, start_at@, length, ts, ev, spec_read_at(log, n + 6)),
                    )
                },
            },
    {
        let rd = match self.state {
            Some(rd) => rd,
            None => return Err(Error::Operation(OpError::ProhibitedInCurrentState(self.state()))),
        };
        let run_config = rd.config;
        match check_start_instant_alignment(start_at) {
            Ok(()) => {},
            Err(e) => return Err(Error::Operation(e)),
        }
        let max_psdu_length = max_psdu_length(run_config.long_frame_format);
        if length > max_psdu_length {
            return Err(Error::Operation(OpError::TxLengthAboveFrameFormat(length, max_psdu_length)));
        }
        if run_config.correct_tx_fcs && length < phy::FCS_LENGTH {
            return Err(Error::Operation(OpError::TxLengthLessThanFcs(length)));
        }
        let ghost log0 = self.device.spec_log();
        let ghost n = log0.len() as int;
        let shr_duration = phy::shr_duration(run_config.prf, run_config.sfd_type, run_config.psr);
        let rmarker_at = start_at.add(shr_duration);
        let start_instant = match self.program_tx(rd, rmarker_at, length) {
            Ok(t) => t,
            Err(e) => {
                proof {
                    let log = self.device.spec_log();
                    let k = log.len() - n;
                    let p0 = spec_tx_program_ops(rd, rmarker_at@, length, 0);
                    let b = spec_tx_begin_ops(rd, start_at@, length, spec_read_at(log, n + 4), spec_read_at(log, n + 5));
                    let rec = spec_tx_record(
                        rd,
                        start_at@,
                        length,
                        spec_read_at(log, n + 4),
                        spec_read_at(log, n + 5),
                        spec_read_at(log, n + 6),
                    );
                    lemma_tx_record_head(
                        rd,
                        start_at@,
                        length,
                        spec_read_at(log, n + 4),
                        spec_read_at(log, n + 5),
                        spec_read_at(log, n + 6),
                    );
                    let head = b.subrange(0, 4);
                    assert(head =~= p0.subrange(0, 4));
                    assert(rec.subrange(0, 4) =~= head);
                    assert(head.subrange(0, k) =~= p0.subrange(0, k));
                    lemma_cut_short(log0, log, rec, head, k);
                }
                return Err(e);
            },
        };
        let ghost ts = spec_read_at(self.device.spec_log(), n + 4);
        let ghost log1 = self.device.spec_log();
        let overtime = start_instant.sub_instant(start_at);
        let imm_events = match self.device.get_events() {
            Ok(e) => e,
            Err(e) => {
                proof {
                    let log = self.device.spec_log();
                    let ev0 = spec_read_at(log, n + 5);
                    let b = spec_tx_begin_ops(rd, start_at@, length, ts, ev0);
                    lemma_tx_record_head(rd, start_at@, length, ts, ev0, spec_read_at(log, n + 6));
                    assert(log =~= log0 + b.subrange(0, 5));
                    lemma_cut_short(
                        log0,
                        log,
                        spec_tx_record(rd, start_at@, length, ts, ev0, spec_read_at(log, n + 6)),
                        b,
                        5,
                    );
                }
                return Err(phy_error(e));
            },
        };
        let ghost ev = spec_last_read(self.device.spec_log());
        let ghost log2 = self.device.spec_log();
        proof {
            assert(log2 =~= log0 + spec_tx_begin_ops(rd, start_at@, length, ts, ev));
        }
        let hpdwarn = Events::from_bits_truncate(EventsLow::HPDWARN);
        proof {
            lemma_event_bit(ev, EventsLow::HPDWARN);
        }
        if imm_events.contains(hpdwarn) {
            match self.abort() {
                Ok(()) => {},
                Err(e) => {
                    proof {
                        let log = self.device.spec_log();
                        let b = spec_tx_begin_ops(rd, start_at@, length, ts, ev);
                        let rec = b + spec_abort_ops();
                        assert(spec_read_at(log, n + 4) == ts);
                        assert(spec_read_at(log, n + 5) == ev);
                        assert(rec == spec_tx_record(rd, start_at@, length, ts, ev, spec_read_at(log, n + 6)));
                        assert(log =~= log0 + rec.subrange(0, log.len() - n));
                        assert(rec.subrange(0, rec.len() as int) =~= rec);
                        lemma_cut_short(log0, log, rec, rec, log.len() - n);
                    }
                    return Err(e);
                },
            }
            proof {
                assert(self.device.spec_log() =~= log0 + spec_tx_begin_ops(rd, start_at@, length, ts, ev) + spec_abort_ops());
            }
            return Err(Error::Operation(OpError::StartInstantPassed(overtime)));
        }
        let bug_state = match self.device.is_tx_missed_deadline_state() {
            Ok(b) => b,
            Err(e) => {
                proof {
                    let log = self.device.spec_log();
                    let b = spec_tx_begin_ops(rd, start_at@, length, ts, ev);
                    lemma_tx_record_head(rd, start_at@, length, ts, ev, spec_read_at(log, n + 6));
                    assert(log =~= log0 + b.subrange(0, 6));
                    lemma_cut_short(
                        log0,
                        log,
                        spec_tx_record(rd, start_at@, length, ts, ev, spec_read_at(log, n + 6)),
                        b,
                        6,
                    );
                }
                return Err(phy_error(e));
            },
        };
        let ghost st = spec_last_read(self.device.spec_log());
        let ghost log3 = self.device.spec_log();
        if bug_state {
            match self.abort() {
                Ok(()) => {},
                Err(e) => {
                    proof {
                        let log = self.device.spec_log();
                        let b = spec_tx_begin_ops(rd, start_at@, length, ts, ev);
                        let rec = b + seq![device::spec_read::<regs::SysState>(st)] + spec_abort_ops();
                        assert(log3 =~= log0 + b + seq![device::spec_read::<regs::SysState>(st)]);
                        assert(spec_read_at(log, n + 4) == ts);
                        assert(spec_read_at(log, n + 5) == ev);
                        assert(spec_read_at(log, n + 6) == st);
                        assert(rec == spec_tx_record(rd, start_at@, length, ts, ev, st));
                        assert(log =~= log0 + rec.subrange(0, log.len() - n));
                        assert(rec.subrange(0, rec.len() as int) =~= rec);
                        lemma_cut_short(log0, log, rec, rec, log.len() - n);
                    }
                    return Err(e);
                },
            }
            proof {
                assert(self.device.spec_log() =~= log0 + spec_tx_begin_ops(rd, start_at@, length, ts, ev) + seq![
                    device::spec_read::<regs::SysState>(st),
                ] + spec_abort_ops());
                assert(spec_read_at(self.device.spec_log(), n + 6) == st);
            }
            return Err(Error::Operation(OpError::StartInstantPassed(overtime)));
        }
        let start_delay = start_at.sub_instant(start_instant);
        let frame_duration = frame_duration(run_config, length);
        proof {
            lemma_timeout_fits(start_delay@ + frame_duration@);
        }
        let event_timeout_us = start_delay.add(frame_duration).div_ceil(Duration::from_ticks(HOST_MICROSECOND_MIN_TICKS));
        let txfrs = Events::from_bits_truncate(EventsLow::TXFRS);
        proof {
            device::lemma_event_constants();
        }
        match self.device.set_event_mask(txfrs) {
            Ok(()) => {},
            Err(e) => {
                proof {
                    let log = self.device.spec_log();
                    let b = spec_tx_begin_ops(rd, start_at@, length, ts, ev);
                    let rec = b + seq![
                        device::spec_read::<regs::SysState>(st),
                        device::spec_write::<regs::SysEnableLow>(EventsLow::TXFRS as u64),
                    ];
                    assert(log =~= log0 + b + seq![device::spec_read::<regs::SysState>(st)]);
                    assert(spec_read_at(log, n + 4) == ts);
                    assert(spec_read_at(log, n + 5) == ev);
                    assert(spec_read_at(log, n + 6) == st);
                    assert(rec == spec_tx_record(rd, start_at@, length, ts, ev, st));
                    assert(log =~= log0 + rec.subrange(0, 7));
                    assert(rec.subrange(0, rec.len() as int) =~= rec);
                    lemma_cut_short(log0, log, rec, rec, 7);
                }
                return Err(phy_error(e));
            },
        }
        proof {
            let log = self.device.spec_log();
            assert(log =~= log0 + spec_tx_begin_ops(rd, start_at@, length, ts, ev) + seq![
                device::spec_read::<regs::SysState>(st),
                device::spec_write::<regs::SysEnableLow>(EventsLow::TXFRS as u64),
            ]);
            assert(spec_read_at(log, n + 4) == ts);
            assert(spec_read_at(log, n + 5) == ev);
            assert(spec_read_at(log, n + 6) == st);
        }
        Ok(event_timeout_us as u32)
    }

    /// Last part of a transmission: without the TXFRS interrupt within the
    /// `timeout_us` given, the transceiver is stopped and the transmission
    /// failed; otherwise the events are cleared.
    pub fn finish_transmit(&mut self, fired: bool, timeout_us: u32) -> (r: Result<(), Error<IF::Error, DeviceError>>)
        ensures
            final(self).spec_run() == old(self).spec_run(),
            final(self).spec_dev_config() == old(self).spec_dev_config(),
            final(self).spec_device().spec_otp() == old(self).spec_device().spec_otp(),
            !fired ==> (r matches Err(e) && (e is Interface || e == Error::<IF::Error, DeviceError>::Device(
                DeviceError::TxStateTimeout { timeout_us },
            ))),
            !fired && r == Err::<(), Error<IF::Error, DeviceError>>(Error::Device(DeviceError::TxStateTimeout { timeout_us }))
                ==> final(self).spec_log() == old(self).spec_log() + spec_abort_ops(),
            !fired && (r matches Err(e) && e is Interface) ==> spec_cut_short(
                old(self).spec_log(),
                final(self).spec_log(),
                spec_abort_ops(),
            ),
            fired ==> (r is Ok ==> final(self).spec_log() == old(self).spec_log().push(
                BusOp::Command(FastCommand::ClrIrqs.spec_code()),
            )) && (r matches Err(e) ==> e is Interface && final(self).spec_log() == old(self).spec_log()),
    {
        if !fired {
            self.abort()?;
            return Err(Error::Device(DeviceError::TxStateTimeout { timeout_us }));
        }
        match self.device.clear_all_events() {
            Ok(()) => Ok(()),
            Err(e) => Err(phy_error(e)),
        }
    }

    /// First part of a reception from `start_at`: checks, programs the
    /// preamble hunt, a delayed reception and its frame timeout, and arms
    /// the interrupt on the events that end a reception. Gives the
    /// microseconds to wait for it at most; the outcome goes to
    /// `finish_receive`.
    pub fn begin_receive(&mut self, start_at: Instant, max_preamble_hunt: Option<u16>, frame_timeout: Duration) -> (r: Result<u32, Error<IF::Error, DeviceError>>)
        ensures
            final(self).spec_run() == old(self).spec_run(),
            final(self).spec_dev_config() == old(self).spec_dev_config(),
            final(self).spec_device().spec_otp() == old(self).spec_device().spec_otp(),
            match old(self).spec_run() {
                None => r == Err::<u32, Error<IF::Error, DeviceError>>(
                    Error::Operation(OpError::ProhibitedInCurrentState(State::Stopped)),
                ) && final(self).spec_log() == old(self).spec_log() && final(self).spec_requests() == old(self).spec_requests(),
                Some(rd) => if start_at@ % SYSTEM_TIME_UNIT_TICKS != 0 {
                    (r matches Err(Error::Operation(OpError::StartInstantNotAligned(d))) && d@ == start_at@
                        % SYSTEM_TIME_UNIT_TICKS) && final(self).spec_log() == old(self).spec_log() && final(self).spec_requests() == old(self).spec_requests()
                } else if frame_timeout@ > device::MAX_FRAME_TIMEOUT_TICKS {
                    r == Err::<u32, Error<IF::Error, DeviceError>>(
                        Error::Operation(OpError::ExcessiveRxTimeout(frame_timeout)),
                    ) && final(self).spec_log() == old(self).spec_log() && final(self).spec_requests() == old(self).spec_requests()
                } else {
                    let n = old(self).spec_log().len() as int;
                    let log = final(self).spec_log();
                    let ts = spec_read_at(log, n + 5);
                    let ev = spec_read_at(log, n + 6);
                    let ops = spec_rx_begin_ops(rd, start_at@, max_preamble_hunt, frame_timeout@, ts, ev);
                    &&& r matches Ok(t) ==> {
                        &&& log == old(self).spec_log() + ops + seq![
                            device::spec_write::<regs::SysEnableLow>(TERMINATION_EVENTS as u64),
                        ]
                        &&& !spec_has_event(ev, EventsLow::HPDWARN)
                        &&& t == spec_event_timeout(spec_start_delay(start_at@, ts) + frame_timeout@)
                    }
                    &&& r matches Err(Error::Operation(OpError::StartInstantPassed(d))) ==> {
                        &&& d@ == spec_overtime(start_at@, ts)
                        &&& spec_has_event(ev, EventsLow::HPDWARN)
                        &&& log == old(self).spec_log() + ops + spec_abort_ops()
                    }
                    &&& r matches Err(e) ==> e is Interface || e is Operation
                    &&& r matches Err(Error::Operation(op)) ==> op is StartInstantPassed
                    &&& r is Err && r->Err_0 is Interface ==> spec_cut_short(
                        old(self).spec_log(),
                        log,
                        spec_rx_record(rd, start_at@, max_preamble_hunt, frame_timeout@, ts, ev),
                    )
                },
            },
    {
        let rd = match self.state {
            Some(rd) => rd,
            None => return Err(Error::Operation(OpError::ProhibitedInCurrentState(self.state()))),
        };
        match check_start_instant_alignment(start_at) {
            Ok(()) => {},
            Err(e) => return Err(Error::Operation(e)),
        }
        if frame_timeout.as_ticks() > device::MAX_FRAME_TIMEOUT_TICKS {
            return Err(Error::Operation(OpError::ExcessiveRxTimeout(frame_timeout)));
        }
        let ghost log0 = self.device.spec_log();
        let ghost n = log0.len() as int;
        let start_instant = match self.program_rx(rd, start_at, max_preamble_hunt, frame_timeout) {
            Ok(t) => t,
            Err(e) => {
                proof {
                    let log = self.device.spec_log();
                    let k = log.len() - n;
                    let ts0 = spec_read_at(log, n + 5);
                    let ev0 = spec_read_at(log, n + 6);
                    let p0 = spec_rx_program_ops(rd, start_at@, max_preamble_hunt, frame_timeout@, 0);
                    let b = spec_rx_begin_ops(rd, start_at@, max_preamble_hunt, frame_timeout@, ts0, ev0);
                    let rec = spec_rx_record(rd, start_at@, max_preamble_hunt, frame_timeout@, ts0, ev0);
                    let head = b.subrange(0, 5);
                    assert(head =~= p0.subrange(0, 5));
                    assert(rec.subrange(0, 5) =~= head);
                    assert(head.subrange(0, k) =~= p0.subrange(0, k));
                    lemma_cut_short(log0, log, rec, head, k);
                }
                return Err(e);
            },
        };
        let ghost ts = spec_read_at(self.device.spec_log(), n + 5);
        let overtime = start_instant.sub_instant(start_at);
        let imm_events = match self.device.get_events() {
            Ok(e) => e,
            Err(e) => {
                proof {
                    let log = self.device.spec_log();
                    let ev0 = spec_read_at(log, n + 6);
                    let b = spec_rx_begin_ops(rd, start_at@, max_preamble_hunt, frame_timeout@, ts, ev0);
                    let rec = spec_rx_record(rd, start_at@, max_preamble_hunt, frame_timeout@, ts, ev0);
                    assert(rec.subrange(0, 7) =~= b);
                    assert(log =~= log0 + b.subrange(0, 6));
                    lemma_cut_short(log0, log, rec, b, 6);
                }
                return Err(phy_error(e));
            },
        };
        let ghost ev = spec_last_read(self.device.spec_log());
        let ghost ops = spec_rx_begin_ops(rd, start_at@, max_preamble_hunt, frame_timeout@, ts, ev);
        proof {
            assert(self.device.spec_log() =~= log0 + ops);
        }
        let hpdwarn = Events::from_bits_truncate(EventsLow::HPDWARN);
        if imm_events.contains(hpdwarn) {
            match self.abort() {
                Ok(()) => {},
                Err(e) => {
                    proof {
                        let log = self.device.spec_log();
                        let rec = ops + spec_abort_ops();
                        assert(spec_read_at(log, n + 5) == ts);
                        assert(spec_read_at(log, n + 6) == ev);
                        assert(rec == spec_rx_record(rd, start_at@, max_preamble_hunt, frame_timeout@, ts, ev));
                        assert(log =~= log0 + rec.subrange(0, log.len() - n));
                        assert(rec.subrange(0, rec.len() as int) =~= rec);
                        lemma_cut_short(log0, log, rec, rec, log.len() - n);
                    }
                    return Err(e);
                },
            }
            proof {
                let log = self.device.spec_log();
                assert(log =~= log0 + ops + spec_abort_ops());
                assert(spec_read_at(log, n + 5) == ts);
                assert(spec_read_at(log, n + 6) == ev);
            }
            return Err(Error::Operation(OpError::StartInstantPassed(overtime)));
        }
        let start_delay = start_at.sub_instant(start_instant);
        proof {
            lemma_timeout_fits(start_delay@ + frame_timeout@);
        }
        let event_timeout_us = start_delay.add(frame_timeout).div_ceil(Duration::from_ticks(HOST_MICROSECOND_MIN_TICKS));
        let mask = Events::from_bits_truncate(TERMINATION_EVENTS);
        proof {
            device::lemma_event_constants();
        }
        match self.device.set_event_mask(mask) {
            Ok(()) => {},
            Err(e) => {
                proof {
                    let log = self.device.spec_log();
                    let rec = ops + seq![device::spec_write::<regs::SysEnableLow>(TERMINATION_EVENTS as u64)];
                    assert(spec_read_at(log, n + 5) == ts);
                    assert(spec_read_at(log, n + 6) == ev);
                    assert(rec == spec_rx_record(rd, start_at@, max_preamble_hunt, frame_timeout@, ts, ev));
                    assert(log =~= log0 + rec.subrange(0, 7));
                    assert(rec.subrange(0, rec.len() as int) =~= rec);
                    lemma_cut_short(log0, log, rec, rec, 7);
                }
                return Err(phy_error(e));
            },
        }
        proof {
            let log = self.device.spec_log();
            assert(log =~= log0 + ops + seq![device::spec_write::<regs::SysEnableLow>(TERMINATION_EVENTS as u64)]);
            assert(spec_read_at(log, n + 5) == ts);
            assert(spec_read_at(log, n + 6) == ev);
        }
        Ok(event_timeout_us as u32)
    }

    /// Programs the preamble hunt, a delayed reception from `start_at` and
    /// its frame timeout, and reads the time it was programmed at.
    fn program_rx(&mut self, rd: RunData, start_at: Instant, max_preamble_hunt: Option<u16>, frame_timeout: Duration) -> (r: Result<Instant, Error<IF::Error, DeviceError>>)
        requires
            frame_timeout@ <= device::MAX_FRAME_TIMEOUT_TICKS,
        ensures
            final(self).spec_run() == old(self).spec_run(),
            final(self).spec_dev_config() == old(self).spec_dev_config(),
            final(self).spec_device().spec_otp() == old(self).spec_device().spec_otp(),
            r matches Ok(t) ==> {
                let n = old(self).spec_log().len() as int;
                let log = final(self).spec_log();
                let ts = spec_read_at(log, n + 5);
                &&& log == old(self).spec_log() + spec_rx_program_ops(rd, start_at@, max_preamble_hunt, frame_timeout@, ts)
                &&& t@ == SYSTEM_TIME_UNIT_TICKS * (ts / 2)
            },
            r is Err ==> spec_cut_short(
                old(self).spec_log(),
                final(self).spec_log(),
                spec_rx_program_ops(rd, start_at@, max_preamble_hunt, frame_timeout@, 0),
            ),
            r matches Err(e) ==> e is Interface,
    {
        let ghost log0 = self.device.spec_log();
        let ghost ops = spec_rx_program_ops(rd, start_at@, max_preamble_hunt, frame_timeout@, 0);
        match self.device.set_preamble_timeout(rd.pac_size, max_preamble_hunt) {
            Ok(()) => {},
            Err(e) => {
                assert(self.device.spec_log() =~= log0 + ops.subrange(0, 0));
                return Err(phy_error(e));
            },
        }
        match self.device.set_dx_time(start_at) {
            Ok(()) => {},
            Err(e) => {
                assert(self.device.spec_log() =~= log0 + ops.subrange(0, 1));
                return Err(phy_error(e));
            },
        }
        match self.device.set_rx_frame_timeout(frame_timeout) {
            Ok(()) => {},
            Err(e) => {
                assert(self.device.spec_log() =~= log0 + ops.subrange(0, 2));
                return Err(phy_error(e));
            },
        }
        match self.device.send_command(FastCommand::Drx) {
            Ok(()) => {},
            Err(e) => {
                assert(self.device.spec_log() =~= log0 + ops.subrange(0, 3));
                return Err(phy_error(e));
            },
        }
        let ghost log4 = self.device.spec_log();
        let t = match self.device.get_sys_timestamp() {
            Ok(t) => t,
            Err(e) => {
                assert(log4 =~= log0 + ops.subrange(0, 4));
                assert(log4.push(BusOp::WriteFast { file_id: 0x17, data: Seq::empty() }) =~= log0 + ops.subrange(0, 5));
                return Err(phy_error(e));
            },
        };
        proof {
            let log = self.device.spec_log();
            let ts = spec_last_read(log);
            assert(log =~= log0 + spec_rx_program_ops(rd, start_at@, max_preamble_hunt, frame_timeout@, ts));
            assert(spec_read_at(log, log0.len() as int + 5) == ts);
        }
        Ok(t)
    }

    /// Last part of a reception: without the interrupt within the
    /// `timeout_us` given, the receiver is stopped and the reception failed;
    /// otherwise the events say how it ended, and for a frame its length,
    /// FCS check, arrival time and, when ranging, the CIA arrival time.
    pub fn finish_receive(&mut self, fired: bool, timeout_us: u32) -> (r: Result<RxOutcome, Error<IF::Error, DeviceError>>)
        ensures
            final(self).spec_run() == old(self).spec_run(),
            final(self).spec_dev_config() == old(self).spec_dev_config(),
            final(self).spec_device().spec_otp() == old(self).spec_device().spec_otp(),
            match old(self).spec_run() {
                None => r == Err::<RxOutcome, Error<IF::Error, DeviceError>>(
                    Error::Operation(OpError::ProhibitedInCurrentState(State::Stopped)),
                ) && final(self).spec_log() == old(self).spec_log() && final(self).spec_requests() == old(self).spec_requests(),
                Some(rd) => if !fired {
                    (r matches Err(e) && (e is Interface || e == Error::<IF::Error, DeviceError>::Device(
                        DeviceError::RxStateTimeout { timeout_us },
                    ))) && (r == Err::<RxOutcome, Error<IF::Error, DeviceError>>(
                        Error::Device(DeviceError::RxStateTimeout { timeout_us }),
                    ) ==> final(self).spec_log() == old(self).spec_log() + spec_abort_ops()) && ((r matches Err(e)
                        && e is Interface) ==> spec_cut_short(old(self).spec_log(), final(self).spec_log(), spec_abort_ops()))
                } else {
                    let n = old(self).spec_log().len() as int;
                    let log = final(self).spec_log();
                    let ev = spec_read_at(log, n);
                    let head = seq![
                        device::spec_read::<regs::SysStatusLow>(ev),
                        BusOp::Command(FastCommand::ClrIrqs.spec_code()),
                    ];
                    &&& r matches Err(e) ==> e is Interface || e is Device
                    &&& (r matches Err(e) && e is Interface) ==> spec_cut_short(
                        old(self).spec_log(),
                        log,
                        spec_rx_frame_ops(log, n, rd.config.ranging),
                    )
                    &&& r matches Ok(RxOutcome::Failed(f)) ==> spec_rx_failure(ev) == Some(f) && log == old(
                        self,
                    ).spec_log() + head
                    &&& r matches Err(Error::Device(d)) ==> {
                        &&& spec_rx_failure(ev) is None && !spec_has_event(ev, EventsLow::RXFR)
                        &&& d matches DeviceError::UnmaskedEvent { mask, events } && mask@ == TERMINATION_EVENTS
                            && events@ == (ev as u32) & regs::EVENTS_LOW_ALL_BITS
                        &&& log == old(self).spec_log() + head
                    }
                    &&& r matches Ok(RxOutcome::Frame { report, cia_timestamp }) ==> {
                        let len_raw = spec_read_at(log, n + 2);
                        let ts_raw = spec_read_at(log, n + 3);
                        let fine_raw = spec_read_at(log, n + 4);
                        &&& spec_rx_failure(ev) is None && spec_has_event(ev, EventsLow::RXFR)
                        &&& log == old(self).spec_log() + head + seq![
                            device::spec_read::<regs::RxFinfoShort>(len_raw),
                            device::spec_read::<regs::RxRawst>(ts_raw),
                        ] + if rd.config.ranging {
                            seq![device::spec_read::<regs::RxTime>(fine_raw)]
                        } else {
                            Seq::empty()
                        }
                        &&& report.length == spec_field(len_raw & 0xffff, 0, 10) as u16
                        &&& report.fcs_good == spec_has_event(ev, EventsLow::RXFCG)
                        &&& report.timestamp@ == SYSTEM_TIME_UNIT_TICKS * (ts_raw / 2)
                        &&& (cia_timestamp is Some <==> rd.config.ranging && spec_has_event(ev, EventsLow::CIADONE))
                        &&& cia_timestamp matches Some(c) ==> c@ == fine_raw % SYSTEM_TIME_PERIOD_TICKS
                    }
                },
            },
    {
        let rd = match self.state {
            Some(rd) => rd,
            None => return Err(Error::Operation(OpError::ProhibitedInCurrentState(self.state()))),
        };
        if !fired {
            self.abort()?;
            return Err(Error::Device(DeviceError::RxStateTimeout { timeout_us }));
        }
        let ghost log0 = self.device.spec_log();
        let ghost n = log0.len() as int;
        let events = match self.device.get_events() {
            Ok(e) => e,
            Err(e) => {
                proof {
                    let l = self.device.spec_log();
                    assert(l =~= log0 + spec_rx_frame_ops(l, n, rd.config.ranging).subrange(0, 0));
                }
                return Err(phy_error(e));
            },
        };
        let ghost ev = spec_last_read(self.device.spec_log());
        match self.device.clear_all_events() {
            Ok(()) => {},
            Err(e) => {
                proof {
                    let l = self.device.spec_log();
                    assert(spec_read_at(l, n) == ev);
                    assert(l =~= log0 + spec_rx_frame_ops(l, n, rd.config.ranging).subrange(0, 1));
                }
                return Err(phy_error(e));
            },
        }
        let ghost log1 = self.device.spec_log();
        proof {
            assert(log1 =~= log0 + seq![
                device::spec_read::<regs::SysStatusLow>(ev),
                BusOp::Command(FastCommand::ClrIrqs.spec_code()),
            ]);
            assert(spec_read_at(log1, n) == ev);
        }
        let failure = rx_failure(events);
        proof {
            assert(failure == spec_rx_failure(ev));
            device::lemma_event_constants();
        }
        match failure {
            Some(f) => return Ok(RxOutcome::Failed(f)),
            None => {},
        }
        let rxfr = Events::from_bits_truncate(EventsLow::RXFR);
        if !events.contains(rxfr) {
            return Err(
                Error::Device(
                    DeviceError::UnmaskedEvent {
                        mask: Events::from_bits_truncate(TERMINATION_EVENTS),
                        events,
                    },
                ),
            );
        }
        let cia_is_valid = events.contains(Events::from_bits_truncate(EventsLow::CIADONE));
        let fcs_good = events.contains(Events::from_bits_truncate(EventsLow::RXFCG));
        let frame_length = match self.device.get_rx_frame_length() {
            Ok(v) => v,
            Err(e) => {
                proof {
                    let l = self.device.spec_log();
                    assert(spec_read_at(l, n) == ev);
                    assert(l =~= log0 + spec_rx_frame_ops(l, n, rd.config.ranging).subrange(0, 2));
                }
                return Err(phy_error(e));
            },
        };
        let ghost len_raw = spec_last_read(self.device.spec_log());
        let coarse_timestamp = match self.device.get_coarse_rx_timestamp() {
            Ok(v) => v,
            Err(e) => {
                proof {
                    let l = self.device.spec_log();
                    assert(spec_read_at(l, n) == ev);
                    assert(spec_read_at(l, n + 2) == len_raw);
                    assert(l =~= log0 + spec_rx_frame_ops(l, n, rd.config.ranging).subrange(0, 3));
                }
                return Err(phy_error(e));
            },
        };
        let ghost ts_raw = spec_last_read(self.device.spec_log());
        let ghost log2 = self.device.spec_log();
        // load cia anyway to keep stable timings
        let cia = if rd.config.ranging {
            match self.device.get_fine_rx_timestamp() {
                Ok(t) => Some(t),
                Err(e) => {
                    proof {
                        let l = self.device.spec_log();
                        assert(spec_read_at(l, n) == ev);
                        assert(spec_read_at(l, n + 2) == len_raw);
                        assert(spec_read_at(l, n + 3) == ts_raw);
                        assert(l =~= log0 + spec_rx_frame_ops(l, n, rd.config.ranging).subrange(0, 4));
                    }
                    return Err(phy_error(e));
                },
            }
        } else {
            None
        };
        proof {
            device::lemma_event_constants();
            let log = self.device.spec_log();
            let fine_raw = spec_read_at(log, n + 4);
            assert(log2 =~= log1 + seq![
                device::spec_read::<regs::RxFinfoShort>(len_raw),
                device::spec_read::<regs::RxRawst>(ts_raw),
            ]);
            if rd.config.ranging {
                assert(log =~= log2 + seq![device::spec_read::<regs::RxTime>(fine_raw)]);
            } else {
                assert(log =~= log2 + Seq::<BusOp>::empty());
            }
            assert(spec_read_at(log, n) == ev);
            assert(spec_read_at(log, n + 2) == len_raw);
            assert(spec_read_at(log, n + 3) == ts_raw);
        }
        Ok(
            RxOutcome::Frame {
                report: phy::RxReport { length: frame_length, fcs_good, timestamp: coarse_timestamp },
                cia_timestamp: if cia_is_valid {
                    cia
                } else {
                    None
                },
            },
        )
    }
}



/// How a reception failed.
#[derive(Clone, Copy, PartialEq, Eq, Structural, Debug)]
pub enum RxFailure {
    PreambleTimeout,
    PhrError,
    PayloadError,
    FrameTimeout,
    Rejected,
}

/// How a reception ended.
#[derive(Clone, Copy, Debug)]
pub enum RxOutcome {
    /// A frame, with the arrival time the CIA estimated when it is valid.
    Frame { report: phy::RxReport<Instant>, cia_timestamp: Option<Instant> },
    Failed(RxFailure),
}

/// The failure the status value `ev` read reports, checked in the order
/// preamble timeout, PHR error, frame sync loss, frame timeout, rejection.
pub open spec fn spec_rx_failure(ev: u64) -> Option<RxFailure> {
    if spec_has_event(ev, EventsLow::RXPTO) {
        Some(RxFailure::PreambleTimeout)
    } else if spec_has_event(ev, EventsLow::RXPHE) {
        Some(RxFailure::PhrError)
    } else if spec_has_event(ev, EventsLow::RXFSL) {
        Some(RxFailure::PayloadError)
    } else if spec_has_event(ev, EventsLow::RXFTO) {
        Some(RxFailure::FrameTimeout)
    } else if spec_has_event(ev, EventsLow::ARFE) {
        Some(RxFailure::Rejected)
    } else {
        None
    }
}

/// The failure that `events` reports, if any.
pub fn rx_failure(events: Events) -> (r: Option<RxFailure>)
    ensures
        forall|ev: u64| events@ == (ev as u32) & regs::EVENTS_LOW_ALL_BITS ==> r == spec_rx_failure(ev),
{
    if events.contains(Events::from_bits_truncate(EventsLow::RXPTO)) {
        Some(RxFailure::PreambleTimeout)
    } else if events.contains(Events::from_bits_truncate(EventsLow::RXPHE)) {
        Some(RxFailure::PhrError)
    } else if events.contains(Events::from_bits_truncate(EventsLow::RXFSL)) {
        Some(RxFailure::PayloadError)
    } else if events.contains(Events::from_bits_truncate(EventsLow::RXFTO)) {
        Some(RxFailure::FrameTimeout)
    } else if events.contains(Events::from_bits_truncate(EventsLow::ARFE)) {
        Some(RxFailure::Rejected)
    } else {
        None
    }
}

/// The operations that program a reception: the preamble detection
/// timeout, DX_TIME at `start_at`, the frame wait timeout, the
/// delayed-receive command, and the time read `ts`.
pub open spec fn spec_rx_program_ops(rd: RunData, start_at: u64, max_preamble_hunt: Option<u16>, frame_timeout: u64, ts: u64) -> Seq<BusOp> {
    seq![
        device::spec_write::<regs::PreToc>(device::spec_preamble_toc(rd.pac_size, max_preamble_hunt) as u64),
        device::spec_write::<regs::DxTime>((start_at / SYSTEM_TIME_UNIT_TICKS * 2) as u64),
        device::spec_write::<regs::RxFwto>(
            spec_with_field(0, 0, 20, spec_div_ceil(frame_timeout as int, device::RX_FRAME_TIMEOUT_UNIT_TICKS as int) as u64),
        ),
        BusOp::Command(FastCommand::Drx.spec_code()),
        BusOp::WriteFast { file_id: 0x17, data: Seq::empty() },
        device::spec_read::<regs::SysTime>(ts),
    ]
}

/// The operations of a reception start up to the events read `ev`.
pub open spec fn spec_rx_begin_ops(rd: RunData, start_at: u64, max_preamble_hunt: Option<u16>, frame_timeout: u64, ts: u64, ev: u64) -> Seq<BusOp> {
    spec_rx_program_ops(rd, start_at, max_preamble_hunt, frame_timeout, ts) + seq![
        device::spec_read::<regs::SysStatusLow>(ev),
    ]
}

/// The operations of a transmission start from `start_at`, up to the end
/// of its path: armed for TXFRS, or aborted because the start instant had
/// passed (HPDWARN) or the device missed the deadline (`st` read).
pub open spec fn spec_tx_record(rd: RunData, start_at: u64, length: u16, ts: u64, ev: u64, st: u64) -> Seq<BusOp> {
    let begin = spec_tx_begin_ops(rd, start_at, length, ts, ev);
    if spec_has_event(ev, EventsLow::HPDWARN) {
        begin + spec_abort_ops()
    } else if spec_tx_missed_deadline(st) {
        begin + seq![device::spec_read::<regs::SysState>(st)] + spec_abort_ops()
    } else {
        begin + seq![
            device::spec_read::<regs::SysState>(st),
            device::spec_write::<regs::SysEnableLow>(EventsLow::TXFRS as u64),
        ]
    }
}

proof fn lemma_tx_record_head(rd: RunData, start_at: u64, length: u16, ts: u64, ev: u64, st: u64)
    ensures
        spec_tx_record(rd, start_at, length, ts, ev, st).len() >= 8,
        spec_tx_record(rd, start_at, length, ts, ev, st).subrange(0, 6) == spec_tx_begin_ops(
            rd,
            start_at,
            length,
            ts,
            ev,
        ),
{
    let rec = spec_tx_record(rd, start_at, length, ts, ev, st);
    assert(rec.subrange(0, 6) =~= spec_tx_begin_ops(rd, start_at, length, ts, ev));
}

/// The operations of a reception start from `start_at`, up to the end of
/// its path: armed on the events that end a reception, or aborted because
/// the start instant had passed (HPDWARN).
pub open spec fn spec_rx_record(rd: RunData, start_at: u64, max_preamble_hunt: Option<u16>, frame_timeout: u64, ts: u64, ev: u64) -> Seq<BusOp> {
    let begin = spec_rx_begin_ops(rd, start_at, max_preamble_hunt, frame_timeout, ts, ev);
    if spec_has_event(ev, EventsLow::HPDWARN) {
        begin + spec_abort_ops()
    } else {
        begin + seq![device::spec_write::<regs::SysEnableLow>(TERMINATION_EVENTS as u64)]
    }
}

/// The operations that program a delayed transmission with its RMARKER at
/// `rmarker`, and read the time `ts` it was programmed at.
pub open spec fn spec_tx_program_ops(rd: RunData, rmarker: u64, length: u16, ts: u64) -> Seq<BusOp> {
    seq![
        device::spec_write::<regs::TxFctrlShort>(
            device::spec_tx_fctrl(rd.config.psr, rd.bit_rate, rd.config.ranging, length),
        ),
        device::spec_write::<regs::DxTime>((rmarker / SYSTEM_TIME_UNIT_TICKS * 2) as u64),
        BusOp::Command(FastCommand::Dtx.spec_code()),
        BusOp::WriteFast { file_id: 0x17, data: Seq::empty() },
        device::spec_read::<regs::SysTime>(ts),
    ]
}

/// Stopping the transceiver, then clearing the events.
/// The operations `finish_receive` makes after the interrupt when a frame
/// came, the values read being those `log` holds from position `n` on.
pub open spec fn spec_rx_frame_ops(log: Seq<BusOp>, n: int, ranging: bool) -> Seq<BusOp> {
    seq![
        device::spec_read::<regs::SysStatusLow>(spec_read_at(log, n)),
        BusOp::Command(FastCommand::ClrIrqs.spec_code()),
        device::spec_read::<regs::RxFinfoShort>(spec_read_at(log, n + 2)),
        device::spec_read::<regs::RxRawst>(spec_read_at(log, n + 3)),
    ] + if ranging {
        seq![device::spec_read::<regs::RxTime>(spec_read_at(log, n + 4))]
    } else {
        Seq::empty()
    }
}

pub open spec fn spec_abort_ops() -> Seq<BusOp> {
    seq![BusOp::Command(FastCommand::Txrxoff.spec_code()), BusOp::Command(FastCommand::ClrIrqs.spec_code())]
}

/// Whether the status value `raw` read holds event `bit`.
pub open spec fn spec_has_event(raw: u64, bit: u32) -> bool {
    ((raw as u32) & regs::EVENTS_LOW_ALL_BITS) & (bit & regs::EVENTS_LOW_ALL_BITS) == (bit & regs::EVENTS_LOW_ALL_BITS)
}

proof fn lemma_event_bit(raw: u64, bit: u32)
    ensures
        spec_has_event(raw, bit) == (((raw as u32) & regs::EVENTS_LOW_ALL_BITS) & (bit & regs::EVENTS_LOW_ALL_BITS)
            == (bit & regs::EVENTS_LOW_ALL_BITS)),
{
}

/// Whether the SYS_STATE value `raw` read is the state a missed delayed
/// transmission leaves.
pub open spec fn spec_tx_missed_deadline(raw: u64) -> bool {
    spec_field(raw & 0xffff_ffff, 16, 21) as u8 == 0xd && spec_field(raw & 0xffff_ffff, 0, 4) as u8 == 0
}

/// The instant of a system time read as `ts`.
pub open spec fn spec_read_instant(ts: u64) -> int {
    SYSTEM_TIME_UNIT_TICKS * (ts / 2)
}

/// How late the operation was programmed: from `start_at` to the time read.
pub open spec fn spec_overtime(start_at: u64, ts: u64) -> int {
    spec_cyclic_sub(SYSTEM_TIME_PERIOD_TICKS as int, spec_read_instant(ts), start_at as int)
}

/// How long until the operation starts: from the time read to `start_at`.
pub open spec fn spec_start_delay(start_at: u64, ts: u64) -> int {
    spec_cyclic_sub(SYSTEM_TIME_PERIOD_TICKS as int, start_at as int, spec_read_instant(ts))
}

/// Ticks a frame of `length` octets lasts: SHR, PHR and PSDU.
pub open spec fn spec_frame_ticks(config: RunConfig, length: u16) -> int {
    128 * phy::spec_preamble_symbol_chips(config.prf) * (phy::spec_psr_symbols(config.psr) + phy::spec_sfd_symbols(
        config.sfd_type,
    )) + 128 * phy::spec_phr_bit_chips(config.bit_rate) * 18 + 128 * phy::spec_psdu_bit_chips(config.bit_rate)
        * phy::spec_psdu_coded_bits(length as int)
}

/// Host microseconds to wait for `ticks`, counted with the shortest host
/// microsecond.
pub open spec fn spec_event_timeout(ticks: int) -> int {
    spec_div_ceil(ticks, HOST_MICROSECOND_MIN_TICKS as int)
}

/// The operations of a transmission start up to the events read: TX_FCTRL,
/// DX_TIME at the RMARKER, the delayed-transmit command, the time read
/// `ts` and the events read `ev`.
pub open spec fn spec_tx_begin_ops(rd: RunData, start_at: u64, length: u16, ts: u64, ev: u64) -> Seq<BusOp> {
    let shr = 128 * phy::spec_preamble_symbol_chips(rd.config.prf) * (phy::spec_psr_symbols(rd.config.psr)
        + phy::spec_sfd_symbols(rd.config.sfd_type));
    let rmarker = spec_cyclic_add(SYSTEM_TIME_PERIOD_TICKS as int, start_at as int, shr);
    seq![
        device::spec_write::<regs::TxFctrlShort>(
            device::spec_tx_fctrl(rd.config.psr, rd.bit_rate, rd.config.ranging, length),
        ),
        device::spec_write::<regs::DxTime>((rmarker / SYSTEM_TIME_UNIT_TICKS as int * 2) as u64),
        BusOp::Command(FastCommand::Dtx.spec_code()),
        BusOp::WriteFast { file_id: 0x17, data: Seq::empty() },
        device::spec_read::<regs::SysTime>(ts),
        device::spec_read::<regs::SysStatusLow>(ev),
    ]
}

/// The duration of a frame of `length` octets.
fn frame_duration(config: RunConfig, length: u16) -> (r: Duration)
    requires
        length <= 1023,
    ensures
        r@ == spec_frame_ticks(config, length),
        r@ <= 6_000_000_000,
{
    let shr = phy::shr_duration(config.prf, config.sfd_type, config.psr);
    let phr = phy::phr_duration(config.bit_rate);
    let psdu = phy::psdu_duration(config.bit_rate, length);
    proof {
        let coded = phy::spec_psdu_coded_bits(length as int);
        assert(coded <= 9384) by {
            assert(spec_div_ceil(8 * length as int, 330) <= 25) by (nonlinear_arith)
                requires
                    length <= 1023,
                    spec_div_ceil(8 * length as int, 330) == if (8 * length as int) % 330 == 0 {
                        (8 * length as int) / 330
                    } else {
                        (8 * length as int) / 330 + 1
                    },
            ;
        }
        assert(psdu@ <= 128 * 4096 * 9384) by (nonlinear_arith)
            requires
                psdu@ == 128 * phy::spec_psdu_bit_chips(config.bit_rate) * coded,
                phy::spec_psdu_bit_chips(config.bit_rate) <= 4096,
                0 <= coded <= 9384,
        ;
        assert(shr@ <= 128 * 1984 * 4128) by (nonlinear_arith)
            requires
                shr@ == 128 * phy::spec_preamble_symbol_chips(config.prf) * (phy::spec_psr_symbols(config.psr)
                    + phy::spec_sfd_symbols(config.sfd_type)),
                phy::spec_preamble_symbol_chips(config.prf) <= 1984,
                phy::spec_psr_symbols(config.psr) + phy::spec_sfd_symbols(config.sfd_type) <= 4128,
        ;
    }
    shr.add(phr).add(psdu)
}

proof fn lemma_timeout_fits(ticks: int)
    requires
        0 <= ticks <= 2_000_000_000_000,
    ensures
        0 <= spec_event_timeout(ticks) < 0x1_0000_0000,
{
    vstd::arithmetic::div_mod::lemma_fundamental_div_mod(ticks, 60854);
    vstd::arithmetic::div_mod::lemma_mod_pos_bound(ticks, 60854);
    let q = ticks / 60854;
    let m = ticks % 60854;
    assert(0 <= q < 0x1_0000_0000 - 1) by (nonlinear_arith)
        requires
            ticks == 60854 * q + m,
            0 <= m < 60854,
            0 <= ticks <= 2_000_000_000_000,
    ;
}

impl<IF: Interface> phy::Phy for Dw3000Phy<IF> {
    type Instant = Instant;

    type IoError = IF::Error;

    type DevError = DeviceError;

    fn state(&self) -> (r: State) {
        Dw3000Phy::state(self)
    }

    fn capabilities(&self) -> (r: Capabilities) {
        Dw3000Phy::capabilities(self)
    }

    fn max_rx_timeout(&self) -> (r: Duration) {
        Dw3000Phy::max_rx_timeout(self)
    }
}

/// The PHY error of a device error.
pub fn phy_error<IF: Interface>(e: device::Error<IF>) -> (r: Error<IF::Error, DeviceError>)
    ensures
        e is Interface <==> r is Interface,
        e matches device::Error::Device(d) ==> r == Error::<IF::Error, DeviceError>::Device(d),
{
    match e {
        device::Error::Interface(err) => Error::Interface(err),
        device::Error::Device(err) => Error::Device(err),
    }
}

} // verus!

use std::cell::RefCell;
use std::collections::VecDeque;
use std::rc::Rc;

use uwb_network::dw3000::device::{
    self, begin_reset, check_dev_id, check_spi_ready, release_reset, pac_symbols, recommended_pac_size, recommended_rx_tune_en,
    rx_calibration_next, rx_calibration_poll_delay, BitRate, Device, DeviceError, Events, MeanPrf, PacSize,
};
use uwb_network::dw3000::driver::{
    check_start_instant_alignment, max_psdu_length, rx_failure, DeviceConfig, Dw3000Phy, RxFailure, RxOutcome,
    TERMINATION_EVENTS,
};
use uwb_network::dw3000::interface::{Bus, FileId, FullAddress, Interface};
use uwb_network::dw3000::ral::regs::{CalStatus, EventsLow, TxFctrlShort};
use uwb_network::dw3000::ral::Accessor;
use uwb_network::phy::time::Duration;
use uwb_network::phy::{self, ConfigError, OpError, Psr, RunConfig, State};

#[derive(Debug, Clone, PartialEq)]
enum Op {
    Reset(bool),
    Irq,
    WakeUp,
    Command(u8),
    ReadFast(u8, usize),
    WriteFast(u8, Vec<u8>),
    Read(u16, usize),
    Write(u16, Vec<u8>),
    ReadRegister(u16, usize),
    WriteRegister(u16, u64, usize),
    Modify(u16, usize, u32, u32),
}

/// A device that records what is done to it and answers register reads
/// from a queue (zero once the queue is empty). The record and the queue
/// are shared with the test.
#[derive(Clone, Default)]
struct Mock {
    ops: Rc<RefCell<Vec<Op>>>,
    reads: Rc<RefCell<VecDeque<u64>>>,
}

impl Mock {
    fn new(reads: &[u64]) -> Self {
        let m = Mock::default();
        m.queue(reads);
        m
    }

    fn queue(&self, reads: &[u64]) {
        self.reads.borrow_mut().extend(reads.iter().copied());
    }

    fn push(&self, op: Op) {
        self.ops.borrow_mut().push(op);
    }

    fn ops(&self) -> Vec<Op> {
        self.ops.borrow().clone()
    }

    /// The operations from position `from` on.
    fn ops_from(&self, from: usize) -> Vec<Op> {
        self.ops.borrow()[from..].to_vec()
    }
}

impl Interface for Mock {
    type Error = ();

    fn set_reset(&mut self) -> Result<(), ()> {
        self.push(Op::Reset(true));
        Ok(())
    }

    fn clear_reset(&mut self) -> Result<(), ()> {
        self.push(Op::Reset(false));
        Ok(())
    }

    fn is_irq(&mut self) -> Result<bool, ()> {
        self.push(Op::Irq);
        Ok(true)
    }

    fn wake_up(&mut self) -> Result<(), ()> {
        self.push(Op::WakeUp);
        Ok(())
    }

    fn send_command(&mut self, command: u8) -> Result<(), ()> {
        self.push(Op::Command(command));
        Ok(())
    }

    fn read_fast(&mut self, file_id: FileId, data: &mut [u8]) -> Result<(), ()> {
        self.push(Op::ReadFast(file_id.as_u8(), data.len()));
        for (i, b) in data.iter_mut().enumerate() {
            *b = i as u8;
        }
        Ok(())
    }

    fn write_fast(&mut self, file_id: FileId, data: &[u8]) -> Result<(), ()> {
        self.push(Op::WriteFast(file_id.as_u8(), data.to_vec()));
        Ok(())
    }

    fn read(&mut self, addr: FullAddress, data: &mut [u8]) -> Result<(), ()> {
        self.push(Op::Read(addr.as_u16(), data.len()));
        Ok(())
    }

    fn write(&mut self, addr: FullAddress, data: &[u8]) -> Result<(), ()> {
        self.push(Op::Write(addr.as_u16(), data.to_vec()));
        Ok(())
    }

    fn read_register(&mut self, addr: FullAddress, length: usize) -> Result<u64, ()> {
        self.push(Op::ReadRegister(addr.as_u16(), length));
        Ok(self.reads.borrow_mut().pop_front().unwrap_or(0))
    }

    fn write_register(&mut self, addr: FullAddress, value: u64, length: usize) -> Result<(), ()> {
        self.push(Op::WriteRegister(addr.as_u16(), value, length));
        Ok(())
    }

    fn modify_1(&mut self, addr: FullAddress, and_mask: u8, or_mask: u8) -> Result<(), ()> {
        self.push(Op::Modify(addr.as_u16(), 1, and_mask as u32, or_mask as u32));
        Ok(())
    }

    fn modify_2(&mut self, addr: FullAddress, and_mask: u16, or_mask: u16) -> Result<(), ()> {
        self.push(Op::Modify(addr.as_u16(), 2, and_mask as u32, or_mask as u32));
        Ok(())
    }

    fn modify_4(&mut self, addr: FullAddress, and_mask: u32, or_mask: u32) -> Result<(), ()> {
        self.push(Op::Modify(addr.as_u16(), 4, and_mask, or_mask));
        Ok(())
    }
}

const DEV_ID_DW3000: u64 = 0xdeca_0302;
const DEV_ID_ADDR: u16 = 0x000;
const SYS_TIME_ADDR: u16 = 0x070;
const TX_FCTRL_ADDR: u16 = 0x090;
const DX_TIME_ADDR: u16 = 0x0b0;
const SYS_ENABLE_ADDR: u16 = 0x0f0;
const SYS_STATUS_ADDR: u16 = 0x110;
const RX_FINFO_ADDR: u16 = 0x130;
const RX_RAWST_ADDR: u16 = 0x1c0;
const RX_TIME_ADDR: u16 = 0x190;
const SYS_STATE_ADDR: u16 = 0x1ec0;
const PRE_TOC_ADDR: u16 = 0xc10;
const RX_FWTO_ADDR: u16 = 0x0d0;

/// Operations of `Device::open`: the identity, six OTP words of four
/// operations each, and the reset.
const OPEN_OPS: usize = 26;

fn opened() -> (Device<Mock>, Mock) {
    let m = Mock::new(&[DEV_ID_DW3000]);
    match Device::open(Bus::new(m.clone())) {
        Ok(d) => (d, m),
        Err(_) => panic!("open failed"),
    }
}

fn instant(ticks: u64) -> device::Instant {
    device::Instant::try_from_ticks(ticks).unwrap()
}

#[test]
fn dev_id_of_a_dw3000_is_accepted() {
    let m = Mock::new(&[DEV_ID_DW3000]);
    assert!(check_dev_id(&mut Bus::new(m.clone())).is_ok());
    assert_eq!(m.ops(), vec![Op::ReadRegister(DEV_ID_ADDR, 4)]);
}

#[test]
fn other_dev_id_is_rejected() {
    for id in [0u64, 0xdeca_0312, 0xdeca_0402, 0xdecb_0302, 0xdeca_0303] {
        let mut bus = Bus::new(Mock::new(&[id]));
        assert!(matches!(check_dev_id(&mut bus), Err(device::Error::Device(DeviceError::WrongDevice))));
    }
}

#[test]
fn spi_ready_needs_the_interrupt_and_the_status_bit() {
    let m = Mock::new(&[]);
    let mut bus = Bus::new(m.clone());
    assert!(matches!(check_spi_ready(&mut bus, false), Err(device::Error::Device(DeviceError::ResetTimeout))));
    assert!(m.ops().is_empty());

    m.queue(&[EventsLow::SPIRDY as u64]);
    assert!(check_spi_ready(&mut bus, true).is_ok());
    assert_eq!(m.ops(), vec![Op::ReadRegister(SYS_STATUS_ADDR, 4)]);

    m.queue(&[EventsLow::RCINIT as u64]);
    assert!(matches!(check_spi_ready(&mut bus, true), Err(device::Error::Device(DeviceError::SpiNotReady))));
}

#[test]
fn reset_sequence() {
    let m = Mock::new(&[EventsLow::SPIRDY as u64]);
    let mut bus = Bus::new(m.clone());
    assert!(begin_reset(&mut bus).is_ok());
    assert!(release_reset(&mut bus).is_ok());
    assert!(check_spi_ready(&mut bus, true).is_ok());
    assert_eq!(m.ops(), vec![Op::Reset(true), Op::Reset(false), Op::ReadRegister(SYS_STATUS_ADDR, 4)]);
}

#[test]
fn register_reads_keep_the_register_width() {
    let m = Mock::new(&[0x1_2345, 0xffff_ffff_ffff_ffff, 0xff, 0x1_2345_6789, 0x12_3456_789a_bcde]);
    let mut bus = Bus::new(m.clone());
    let addr = FullAddress::new(FileId::new(0), 0x24);
    assert_eq!(bus.read_register(addr, 2).ok(), Some(0x2345));
    assert_eq!(bus.read_register(addr, 8).ok(), Some(0xffff_ffff_ffff_ffff));
    assert_eq!(bus.read_register(addr, 0).ok(), Some(0));
    // three octets are held in four, five in eight
    assert_eq!(bus.read_register(addr, 3).ok(), Some(0x2345_6789));
    assert_eq!(bus.read_register(addr, 5).ok(), Some(0x12_3456_789a_bcde));
    assert_eq!(m.ops().len(), 5);
}

#[test]
fn register_write_and_modify_with_closures() {
    let m = Mock::new(&[0x1c7f]);
    let mut bus = Bus::new(m.clone());
    let acc = Accessor::<TxFctrlShort>::new();
    assert!(acc
        .write(&mut bus, |mut w| {
            w.set_txflen(20);
            w
        })
        .is_ok());
    assert!(acc
        .modify(&mut bus, |mut w| {
            w.set_tr(false);
            w
        })
        .is_ok());
    assert_eq!(
        m.ops(),
        vec![
            Op::WriteRegister(TX_FCTRL_ADDR, 0x1c14, 2),
            Op::ReadRegister(TX_FCTRL_ADDR, 2),
            Op::WriteRegister(TX_FCTRL_ADDR, 0x147f, 2),
        ]
    );
}

#[test]
fn open_checks_id_loads_otp_and_holds_reset() {
    let (dev, m) = opened();
    let ops = m.ops();
    assert_eq!(ops.len(), OPEN_OPS);
    assert_eq!(ops[0], Op::ReadRegister(DEV_ID_ADDR, 4));
    assert_eq!(ops[OPEN_OPS - 1], Op::Reset(true));
    assert_eq!(dev.into_interface().into_inner().ops().len(), OPEN_OPS);

    let m = Mock::new(&[0x1234_5678]);
    assert!(matches!(Device::open(Bus::new(m.clone())), Err(device::Error::Device(DeviceError::WrongDevice))));
    assert_eq!(m.ops().len(), 1);
}

#[test]
fn tx_config_register_value() {
    let (mut dev, m) = opened();
    assert!(dev.set_tx_config(Psr::Symbols128, BitRate::Kbs850, false, 20).is_ok());
    assert_eq!(m.ops_from(OPEN_OPS), vec![Op::WriteRegister(TX_FCTRL_ADDR, 0x5014, 2)]);
}

#[test]
fn preamble_timeout_rounds_up_to_whole_chunks() {
    let (mut dev, m) = opened();
    assert!(dev.set_preamble_timeout(PacSize::Symbols8, Some(20)).is_ok());
    assert!(dev.set_preamble_timeout(PacSize::Symbols8, Some(16)).is_ok());
    assert!(dev.set_preamble_timeout(PacSize::Symbols8, None).is_ok());
    assert_eq!(
        m.ops_from(OPEN_OPS),
        vec![
            Op::WriteRegister(PRE_TOC_ADDR, 3, 2),
            Op::WriteRegister(PRE_TOC_ADDR, 2, 2),
            Op::WriteRegister(PRE_TOC_ADDR, 0, 2),
        ]
    );
}

#[test]
fn system_timestamp_is_in_units_of_512_ticks() {
    let (mut dev, m) = opened();
    m.queue(&[0x1235]);
    let t = match dev.get_sys_timestamp() {
        Ok(t) => t,
        Err(_) => panic!("read failed"),
    };
    assert_eq!(t.as_ticks(), 512 * (0x1235 / 2));
    assert_eq!(m.ops_from(OPEN_OPS), vec![Op::WriteFast(0x17, vec![]), Op::ReadRegister(SYS_TIME_ADDR, 4)]);
}

#[test]
fn delayed_time_is_written_in_half_units() {
    let (mut dev, m) = opened();
    assert!(dev.set_dx_time(instant(512 * 1000 + 7)).is_ok());
    assert_eq!(m.ops_from(OPEN_OPS), vec![Op::WriteRegister(DX_TIME_ADDR, 2000, 4)]);
}

#[test]
fn events_are_truncated_to_the_known_bits() {
    let (mut dev, m) = opened();
    m.queue(&[0xffff_ffff]);
    let e = match dev.get_events() {
        Ok(e) => e,
        Err(_) => panic!("read failed"),
    };
    assert_eq!(e.bits(), 0x3fbf_ffff);
    assert!(dev.clear_events(e).is_ok());
    assert!(dev.set_event_mask(Events::from_bits_truncate(EventsLow::TXFRS)).is_ok());
    assert_eq!(
        m.ops_from(OPEN_OPS),
        vec![
            Op::ReadRegister(SYS_STATUS_ADDR, 4),
            Op::WriteRegister(SYS_STATUS_ADDR, 0x3fbf_ffff, 4),
            Op::WriteRegister(SYS_ENABLE_ADDR, 0x80, 4),
        ]
    );
}

#[test]
fn receive_buffer_and_frame_length() {
    let (mut dev, m) = opened();
    let mut buf = [0xffu8; 4];
    assert!(dev.read_rx_buffer(&mut buf).is_ok());
    assert_eq!(buf, [0, 1, 2, 3]);
    m.queue(&[0xfc14]);
    assert_eq!(dev.get_rx_frame_length().ok(), Some(0x14));
    assert!(dev.write_tx_buffer(&[1, 2, 3]).is_ok());
    assert_eq!(
        m.ops_from(OPEN_OPS),
        vec![Op::ReadFast(0x12, 4), Op::ReadRegister(RX_FINFO_ADDR, 2), Op::WriteFast(0x14, vec![1, 2, 3])]
    );
}

#[test]
fn calibration_polling() {
    assert_eq!(rx_calibration_poll_delay(60_000), 20_000);
    assert_eq!(rx_calibration_poll_delay(20_000), 20_000);
    assert_eq!(rx_calibration_poll_delay(5_000), 5_000);
    let done = CalStatus::from_bits_truncate(CalStatus::CAL_DONE);
    let busy = CalStatus::from_bits_truncate(0);
    assert_eq!(rx_calibration_next(done, 60_000, 20_000), None);
    assert_eq!(rx_calibration_next(busy, 60_000, 20_000), Some(40_000));
    assert_eq!(rx_calibration_next(busy, 20_000, 20_000), None);
    // polling always ends within three polls
    let mut left = device::RX_CALIBRATION_TIMEOUT_US;
    let mut polls = 0;
    loop {
        let delay = rx_calibration_poll_delay(left);
        polls += 1;
        match rx_calibration_next(busy, left, delay) {
            Some(next) => left = next,
            None => break,
        }
    }
    assert_eq!(polls, 3);
}

#[test]
fn recommended_settings() {
    assert!(matches!(recommended_pac_size(Psr::Symbols32), PacSize::Symbols4));
    assert!(matches!(recommended_pac_size(Psr::Symbols64), PacSize::Symbols8));
    assert!(matches!(recommended_pac_size(Psr::Symbols1024), PacSize::Symbols16));
    assert_eq!(pac_symbols(PacSize::Symbols32), 32);
    assert!(!recommended_rx_tune_en(device::MeanPrf::Mhz16));
    assert!(recommended_rx_tune_en(device::MeanPrf::Mhz62));
}

#[test]
fn start_instants_must_be_aligned() {
    assert!(check_start_instant_alignment(instant(512 * 3)).is_ok());
    assert_eq!(
        check_start_instant_alignment(instant(512 * 3 + 5)),
        Err(OpError::StartInstantNotAligned(Duration::from_ticks(5)))
    );
    assert_eq!(max_psdu_length(false), 127);
    assert_eq!(max_psdu_length(true), 1023);
}

#[test]
fn rx_failures_are_checked_in_order() {
    let ev = |bits: u32| Events::from_bits_truncate(bits);
    assert_eq!(rx_failure(ev(EventsLow::RXPTO | EventsLow::RXPHE)), Some(RxFailure::PreambleTimeout));
    assert_eq!(rx_failure(ev(EventsLow::RXPHE | EventsLow::RXFSL)), Some(RxFailure::PhrError));
    assert_eq!(rx_failure(ev(EventsLow::RXFSL)), Some(RxFailure::PayloadError));
    assert_eq!(rx_failure(ev(EventsLow::RXFTO)), Some(RxFailure::FrameTimeout));
    assert_eq!(rx_failure(ev(EventsLow::ARFE)), Some(RxFailure::Rejected));
    assert_eq!(rx_failure(ev(EventsLow::RXFR | EventsLow::RXFCG)), None);
}

/// A PHY started with the default run configuration, and the number of
/// operations made so far.
fn running_phy() -> (Dw3000Phy<Mock>, Mock, usize) {
    running_phy_with(RunConfig::default())
}

fn running_phy_with(cfg: RunConfig) -> (Dw3000Phy<Mock>, Mock, usize) {
    let (dev, m) = opened();
    let mut phy = Dw3000Phy::new(dev, DeviceConfig::default());
    assert!(phy.begin_start(cfg).is_ok());
    assert!(phy.finish_start(cfg).is_ok());
    assert!(matches!(phy.state(), State::Running));
    assert_eq!(m.ops_from(OPEN_OPS), vec![Op::Command(CLR_IRQS)]);
    (phy, m, OPEN_OPS + 1)
}

const TXRXOFF: u8 = 0x00;
const DTX: u8 = 0x03;
const DRX: u8 = 0x04;
const CLR_IRQS: u8 = 0x12;

#[test]
fn a_stopped_phy_refuses_operations() {
    let (dev, m) = opened();
    let mut phy = Dw3000Phy::new(dev, DeviceConfig::default());
    assert!(matches!(phy.state(), State::Stopped));
    assert!(matches!(
        phy.begin_transmit(instant(0), 20),
        Err(phy::Error::Operation(OpError::ProhibitedInCurrentState(State::Stopped)))
    ));
    assert!(matches!(
        phy.begin_receive(instant(0), None, Duration::from_ticks(1000)),
        Err(phy::Error::Operation(OpError::ProhibitedInCurrentState(State::Stopped)))
    ));
    assert!(matches!(
        phy.finish_receive(true, 10),
        Err(phy::Error::Operation(OpError::ProhibitedInCurrentState(State::Stopped)))
    ));
    assert_eq!(m.ops().len(), OPEN_OPS);
}

#[test]
fn start_rejects_unsupported_configurations() {
    let (dev, _m) = opened();
    let phy = Dw3000Phy::new(dev, DeviceConfig::default());
    let mut cfg = RunConfig::default();
    cfg.psr = Psr::Symbols16;
    assert!(matches!(
        phy.begin_start(cfg),
        Err(phy::Error::Operation(OpError::UnsupportedConfig(ConfigError::UnsupportedPsr(Psr::Symbols16))))
    ));
    let mut cfg = RunConfig::default();
    cfg.rx_preamble_code = 3;
    assert!(matches!(
        phy.begin_start(cfg),
        Err(phy::Error::Operation(OpError::UnsupportedConfig(ConfigError::InvalidRxPreambleCode(3, _))))
    ));
    let dev_cfg = match phy.begin_start(RunConfig::default()) {
        Ok(c) => c,
        Err(_) => panic!("default configuration refused"),
    };
    assert!(matches!(dev_cfg.channel, device::Channel::Channel9));
    assert!(matches!(dev_cfg.pac_size, PacSize::Symbols8));
    assert_eq!(dev_cfg.rx_code, 9);
    assert_eq!(dev_cfg.tx_code, 9);
    assert!(!dev_cfg.cia_enable);
}

#[test]
fn operation_checks_come_before_any_device_access() {
    let (mut phy, m, n) = running_phy();
    assert!(matches!(
        phy.begin_transmit(instant(512 * 10 + 1), 20),
        Err(phy::Error::Operation(OpError::StartInstantNotAligned(d))) if d == Duration::from_ticks(1)
    ));
    assert!(matches!(
        phy.begin_transmit(instant(512 * 10), 128),
        Err(phy::Error::Operation(OpError::TxLengthAboveFrameFormat(128, 127)))
    ));
    assert!(matches!(
        phy.begin_receive(instant(512 * 10), None, Duration::from_ticks(device::MAX_FRAME_TIMEOUT_TICKS + 1)),
        Err(phy::Error::Operation(OpError::ExcessiveRxTimeout(_)))
    ));
    assert_eq!(m.ops().len(), n);
}

#[test]
fn transmit_programs_a_delayed_transmission() {
    let (mut phy, m, n) = running_phy();
    // the system time (2 x 900 units), the events (none), the state (idle)
    m.queue(&[1800, 0, 0]);
    let timeout = match phy.begin_transmit(instant(512 * 1000), 20) {
        Ok(us) => us,
        Err(_) => panic!("transmit refused"),
    };
    assert!(timeout > 0);
    let ops = m.ops_from(n);
    assert_eq!(ops.len(), 8);
    assert!(matches!(ops[0], Op::WriteRegister(TX_FCTRL_ADDR, _, 2)));
    assert!(matches!(ops[1], Op::WriteRegister(DX_TIME_ADDR, _, 4)));
    assert_eq!(ops[2], Op::Command(DTX));
    assert_eq!(ops[3], Op::WriteFast(0x17, vec![]));
    assert_eq!(ops[4], Op::ReadRegister(SYS_TIME_ADDR, 4));
    assert_eq!(ops[5], Op::ReadRegister(SYS_STATUS_ADDR, 4));
    assert_eq!(ops[6], Op::ReadRegister(SYS_STATE_ADDR, 4));
    assert_eq!(ops[7], Op::WriteRegister(SYS_ENABLE_ADDR, EventsLow::TXFRS as u64, 4));
    assert!(phy.finish_transmit(true, timeout).is_ok());
    assert_eq!(m.ops_from(n + 8), vec![Op::Command(CLR_IRQS)]);
}

#[test]
fn transmit_past_the_start_instant_is_aborted() {
    let (mut phy, m, n) = running_phy();
    m.queue(&[1800, EventsLow::HPDWARN as u64]);
    assert!(matches!(
        phy.begin_transmit(instant(512 * 1000), 20),
        Err(phy::Error::Operation(OpError::StartInstantPassed(_)))
    ));
    let ops = m.ops_from(n);
    assert_eq!(ops[ops.len() - 2..], [Op::Command(TXRXOFF), Op::Command(CLR_IRQS)]);
}

#[test]
fn transmit_without_interrupt_times_out() {
    let (mut phy, m, n) = running_phy();
    assert!(matches!(
        phy.finish_transmit(false, 123),
        Err(phy::Error::Device(DeviceError::TxStateTimeout { timeout_us: 123 }))
    ));
    assert_eq!(m.ops_from(n), vec![Op::Command(TXRXOFF), Op::Command(CLR_IRQS)]);
}

#[test]
fn receive_reports_the_frame() {
    let (mut phy, m, n) = running_phy();
    m.queue(&[(EventsLow::RXFR | EventsLow::RXFCG) as u64, 20, 2 * 1234]);
    match phy.finish_receive(true, 100) {
        Ok(RxOutcome::Frame { report, cia_timestamp }) => {
            assert_eq!(report.length, 20);
            assert!(report.fcs_good);
            assert_eq!(report.timestamp.as_ticks(), 512 * 1234);
            assert!(cia_timestamp.is_none());
        },
        _ => panic!("no frame"),
    }
    assert_eq!(
        m.ops_from(n),
        vec![
            Op::ReadRegister(SYS_STATUS_ADDR, 4),
            Op::Command(CLR_IRQS),
            Op::ReadRegister(RX_FINFO_ADDR, 2),
            Op::ReadRegister(RX_RAWST_ADDR, 4),
        ]
    );
}

#[test]
fn ranging_receive_reads_the_cia_timestamp() {
    let mut cfg = RunConfig::default();
    cfg.ranging = true;
    let (mut phy, m, n) = running_phy_with(cfg);
    let ev = (EventsLow::RXFR | EventsLow::CIADONE) as u64;
    m.queue(&[ev, 20, 2 * 1234, 0x12_3456_789a]);
    match phy.finish_receive(true, 100) {
        Ok(RxOutcome::Frame { report, cia_timestamp }) => {
            assert!(!report.fcs_good);
            assert_eq!(cia_timestamp.map(|t| t.as_ticks()), Some(0x12_3456_789a));
        },
        _ => panic!("no frame"),
    }
    assert_eq!(m.ops_from(n)[4], Op::ReadRegister(RX_TIME_ADDR, 5));

    // without CIADONE the CIA time is read but not reported
    m.queue(&[EventsLow::RXFR as u64, 20, 2 * 1234, 0x12_3456_789a]);
    match phy.finish_receive(true, 100) {
        Ok(RxOutcome::Frame { cia_timestamp, .. }) => assert!(cia_timestamp.is_none()),
        _ => panic!("no frame"),
    }
    assert_eq!(m.ops_from(n).len(), 10);
}

#[test]
fn receive_reports_failures_and_unexpected_events() {
    let (mut phy, m, _) = running_phy();
    m.queue(&[EventsLow::RXPTO as u64]);
    assert!(matches!(phy.finish_receive(true, 100), Ok(RxOutcome::Failed(RxFailure::PreambleTimeout))));

    m.queue(&[EventsLow::TXFRS as u64]);
    match phy.finish_receive(true, 100) {
        Err(phy::Error::Device(DeviceError::UnmaskedEvent { mask, events })) => {
            assert_eq!(mask.bits(), TERMINATION_EVENTS);
            assert_eq!(events.bits(), EventsLow::TXFRS);
        },
        _ => panic!("unexpected outcome"),
    }

    assert!(matches!(
        phy.finish_receive(false, 55),
        Err(phy::Error::Device(DeviceError::RxStateTimeout { timeout_us: 55 }))
    ));
}

#[test]
fn receive_is_programmed_with_its_timeouts() {
    let (mut phy, m, n) = running_phy();
    m.queue(&[1800, 0]);
    let timeout = match phy.begin_receive(instant(512 * 1000), Some(64), Duration::from_ticks(65536 * 3 + 1)) {
        Ok(us) => us,
        Err(_) => panic!("receive refused"),
    };
    assert!(timeout > 0);
    let ops = m.ops_from(n);
    assert_eq!(ops[0], Op::WriteRegister(PRE_TOC_ADDR, 8, 2));
    assert_eq!(ops[1], Op::WriteRegister(DX_TIME_ADDR, 2000, 4));
    assert_eq!(ops[2], Op::WriteRegister(RX_FWTO_ADDR, 4, 3));
    assert_eq!(ops[3], Op::Command(DRX));
    assert_eq!(ops[ops.len() - 1], Op::WriteRegister(SYS_ENABLE_ADDR, TERMINATION_EVENTS as u64, 4));
}

#[test]
fn stop_holds_the_device_in_reset() {
    let (mut phy, m, n) = running_phy();
    assert!(phy.stop().is_ok());
    assert!(matches!(phy.state(), State::Stopped));
    assert_eq!(m.ops_from(n), vec![Op::Reset(true)]);
}

#[test]
fn buffers_are_limited_by_the_frame_format() {
    let (mut phy, m, n) = running_phy();
    let long = [0u8; 128];
    assert!(matches!(
        phy.write_tx_buffer(&long),
        Err(phy::Error::Operation(OpError::BufferAccessBeyondFrameFormat(128, 127)))
    ));
    let mut long = [0u8; 128];
    assert!(matches!(
        phy.read_rx_buffer(&mut long),
        Err(phy::Error::Operation(OpError::BufferAccessBeyondFrameFormat(128, 127)))
    ));
    assert_eq!(m.ops().len(), n);
    assert!(phy.write_tx_buffer(&[9, 8, 7]).is_ok());
    let mut buf = [0u8; 2];
    assert!(phy.read_rx_buffer(&mut buf).is_ok());
    assert_eq!(m.ops_from(n), vec![Op::WriteFast(0x14, vec![9, 8, 7]), Op::ReadFast(0x12, 2)]);
}

#[test]
fn timestamp_needs_a_running_phy() {
    let (dev, _m) = opened();
    let mut phy = Dw3000Phy::new(dev, DeviceConfig::default());
    assert!(matches!(
        phy.get_timestamp(),
        Err(phy::Error::Operation(OpError::ProhibitedInCurrentState(State::Stopped)))
    ));
    let (mut phy, m, _) = running_phy();
    m.queue(&[2 * 77]);
    assert_eq!(phy.get_timestamp().ok().map(|t| t.as_ticks()), Some(512 * 77));
}

const DGC_DBG_ADDR: u16 = 0x780;
const IP_DIAG1_ADDR: u16 = 0x18b0;
const IP_DIAG2_ADDR: u16 = 0x18c0;
const IP_DIAG3_ADDR: u16 = 0x18d0;
const IP_DIAG4_ADDR: u16 = 0x18e0;
const IP_DIAG12_ADDR: u16 = 0x1960;

#[test]
fn first_path_cia_is_scaled_by_the_gain_step_at_62_mhz() {
    let (mut d, m) = opened();
    m.queue(&[3 << 28, 0x10, 0x20, 0x7f_ffff, 0x1100]);
    let cia = d.get_first_path_cia(MeanPrf::Mhz62).ok().unwrap();
    assert_eq!((cia.fp1, cia.fp2, cia.fp3, cia.count), (0x80, 0x100, 0x1ff_fff8, 0x400));
    assert_eq!(
        m.ops_from(OPEN_OPS),
        vec![
            Op::ReadRegister(DGC_DBG_ADDR, 4),
            Op::ReadRegister(IP_DIAG2_ADDR, 4),
            Op::ReadRegister(IP_DIAG3_ADDR, 4),
            Op::ReadRegister(IP_DIAG4_ADDR, 4),
            Op::ReadRegister(IP_DIAG12_ADDR, 4),
        ]
    );
}

#[test]
fn first_path_cia_ignores_the_gain_step_at_16_mhz() {
    let (mut d, m) = opened();
    m.queue(&[3 << 28, 0x10, 0x20, 0x30, 0x40]);
    let cia = d.get_first_path_cia(MeanPrf::Mhz16).ok().unwrap();
    assert_eq!((cia.fp1, cia.fp2, cia.fp3, cia.count), (0x10, 0x20, 0x30, 0x100));
}

#[test]
fn cia_without_accumulated_preambles_is_refused() {
    let (mut d, m) = opened();
    m.queue(&[0, 0x10, 0x20, 0x30, 0x1000]);
    assert!(matches!(
        d.get_first_path_cia(MeanPrf::Mhz62),
        Err(device::Error::Device(DeviceError::NoAccumulatedPreambles))
    ));
    m.queue(&[0, 0x10, 0]);
    assert!(matches!(d.get_full_cia(MeanPrf::Mhz16), Err(device::Error::Device(DeviceError::NoAccumulatedPreambles))));
}

#[test]
fn full_cia_area_is_scaled_by_twice_the_gain_step() {
    let (mut d, m) = opened();
    m.queue(&[2 << 28, 0x3_ffff, 0x100]);
    let cia = d.get_full_cia(MeanPrf::Mhz62).ok().unwrap();
    assert_eq!((cia.area, cia.count), (0x1f_fff0, 0x100));
    assert_eq!(
        m.ops_from(OPEN_OPS),
        vec![
            Op::ReadRegister(DGC_DBG_ADDR, 4),
            Op::ReadRegister(IP_DIAG1_ADDR, 4),
            Op::ReadRegister(IP_DIAG12_ADDR, 4),
        ]
    );
    m.queue(&[2 << 28, 0x3_ffff, 0x100]);
    let cia = d.get_full_cia(MeanPrf::Mhz16).ok().unwrap();
    assert_eq!((cia.area, cia.count), (0x1_ffff, 0x100));
}

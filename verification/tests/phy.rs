use uwb_network::phy::time::{Duration, Instant};
use uwb_network::phy::{
    self, BitRate, Capabilities, Channel, ConfigError, MeanPrf, Psr, RunConfig, SfdType,
};

#[test]
fn channel_truncates_to_four_bits() {
    assert_eq!(Channel::new_truncating(9).as_number(), 9);
    assert_eq!(Channel::new_truncating(0x15).as_number(), 5);
}

#[test]
fn prf_code_ranges() {
    assert_eq!(MeanPrf::Mhz4.code_range(), [1, 8]);
    assert_eq!(MeanPrf::Mhz16.code_range(), [1, 8]);
    assert_eq!(MeanPrf::Mhz62.code_range(), [9, 24]);
    assert_eq!(MeanPrf::Mhz111.code_range(), [25, 32]);
}

#[test]
fn allocated_code_ranges() {
    assert_eq!(phy::ieee_allocated_code_range(Channel::new_truncating(5), MeanPrf::Mhz16), [3, 4]);
    assert_eq!(phy::ieee_allocated_code_range(Channel::new_truncating(9), MeanPrf::Mhz62), [9, 12]);
    assert_eq!(phy::ieee_allocated_code_range(Channel::new_truncating(4), MeanPrf::Mhz62), [17, 20]);
    assert_eq!(phy::ieee_allocated_code_range(Channel::new_truncating(3), MeanPrf::Mhz111), [25, 32]);
}

#[test]
fn symbol_counts() {
    assert_eq!(Psr::Symbols16.as_symbols(), 16);
    assert_eq!(Psr::Symbols1536.as_symbols(), 1536);
    assert_eq!(Psr::Symbols4096.as_symbols(), 4096);
    assert_eq!(SfdType::Sfd1.as_symbols(), 4);
    assert_eq!(SfdType::Sfd2.as_symbols(), 8);
    assert_eq!(SfdType::Sfd4.as_symbols(), 32);
}

#[test]
fn capabilities_flags() {
    let caps = Capabilities::from_bits_truncate(Capabilities::CH_5 | Capabilities::PRF_62 | Capabilities::PSR_64);
    assert!(caps.has_channel(Channel::new_truncating(5)));
    assert!(!caps.has_channel(Channel::new_truncating(9)));
    assert!(caps.has_prf(MeanPrf::Mhz62));
    assert!(!caps.has_prf(MeanPrf::Mhz16));
    assert!(caps.has_psr(Psr::Symbols64));
    assert!(!caps.has_long_frame_format());
    let all = Capabilities::from_bits_truncate(u64::MAX);
    assert_eq!(all.bits(), 0x3ff_ffff_ffff);
    assert!(all.contains(caps));
    assert!(!caps.contains(all));
    assert_eq!(Capabilities::empty().union(caps).bits(), caps.bits());
}

fn full_caps() -> Capabilities {
    Capabilities::from_bits_truncate(u64::MAX)
}

#[test]
fn default_config_is_supported_by_everything() {
    let config = RunConfig::default();
    assert_eq!(config.channel.as_number(), 9);
    assert_eq!(config.check_capabilities(full_caps()), Ok(()));
}

#[test]
fn config_errors_in_order() {
    let caps = Capabilities::from_bits_truncate(Capabilities::CH_9);
    let config = RunConfig::new();
    assert_eq!(config.check_capabilities(caps), Err(ConfigError::UnsupportedPsr(Psr::Symbols64)));
    let mut config = RunConfig::new();
    config.channel = Channel::new_truncating(3);
    assert_eq!(
        config.check_capabilities(full_caps()),
        Ok(())
    );
    assert_eq!(
        config.check_capabilities(Capabilities::empty()),
        Err(ConfigError::UnsupportedChannel(Channel::new_truncating(3)))
    );
    let mut config = RunConfig::new();
    config.rx_preamble_code = 8;
    assert_eq!(
        config.check_capabilities(full_caps()),
        Err(ConfigError::InvalidRxPreambleCode(8, MeanPrf::Mhz62))
    );
    let mut config = RunConfig::new();
    config.tx_preamble_code = 25;
    assert_eq!(
        config.check_capabilities(full_caps()),
        Err(ConfigError::InvalidTxPreambleCode(25, MeanPrf::Mhz62))
    );
    let mut config = RunConfig::new();
    config.long_frame_format = true;
    let caps = Capabilities::from_bits_truncate(
        Capabilities::CH_9 | Capabilities::PSR_64 | Capabilities::PRF_62 | Capabilities::SFD_0 | Capabilities::BIT_RATE_850,
    );
    assert_eq!(config.check_capabilities(caps), Err(ConfigError::UnsupportedLongFrameFormat));
    config.long_frame_format = false;
    config.correct_tx_fcs = true;
    assert_eq!(config.check_capabilities(caps), Err(ConfigError::UnsupportedCorrectTxFcs));
    config.sfd_type = SfdType::Sfd3;
    assert_eq!(config.check_capabilities(caps), Err(ConfigError::UnsupportedSfd(SfdType::Sfd3)));
    config.sfd_type = SfdType::Sfd0;
    config.bit_rate = BitRate::Kbs110;
    assert_eq!(config.check_capabilities(caps), Err(ConfigError::UnsupportedBitRate(BitRate::Kbs110)));
}

#[test]
fn frame_durations() {
    // 127-symbol preambles at 4 chips per pulse: 508 chips per symbol
    assert_eq!(phy::preamble_symbol_duration(MeanPrf::Mhz62).as_ticks(), 508 * 128);
    assert_eq!(phy::phr_bit_duration(BitRate::Kbs6810Only).as_ticks(), 64 * 128);
    assert_eq!(phy::psdu_bit_duration(BitRate::Kbs27240).as_ticks(), 16 * 128);
    // 64 + 8 symbols of 496 chips
    assert_eq!(phy::shr_duration(MeanPrf::Mhz16, SfdType::Sfd0, Psr::Symbols64).as_ticks(), 72 * 496 * 128);
    assert_eq!(phy::phr_duration(BitRate::Kbs850).as_ticks(), 18 * 512 * 128);
    // 10 octets: 80 bits in one Reed-Solomon block of 48 parity bits
    assert_eq!(phy::psdu_duration(BitRate::Kbs850, 10).as_ticks(), 128 * 512 * 128);
    // 127 octets: 1016 bits in four blocks
    assert_eq!(phy::psdu_duration(BitRate::Kbs6810, 127).as_ticks(), (1016 + 4 * 48) * 64 * 128);
}

#[test]
fn duration_arithmetic() {
    let chip = Duration::chip();
    assert_eq!(chip.as_ticks(), 128);
    assert_eq!(Duration::rstu().as_ticks(), 416 * 128);
    assert_eq!(Duration::second().as_ticks(), 499_200_000 * 128);
    let a = Duration::from_ticks(1000);
    let b = Duration::from_ticks(300);
    assert_eq!(a.checked_add(b), Some(Duration::from_ticks(1300)));
    assert_eq!(b.checked_sub(a), None);
    assert_eq!(a.checked_div(b), Some(3));
    assert_eq!(a.checked_div_ceil(b), Some(4));
    assert_eq!(a.checked_rem(b), Some(Duration::from_ticks(100)));
    assert_eq!(a.checked_div(Duration::zero()), None);
    assert_eq!(Duration::max_value().checked_add(chip), None);
    assert_eq!(a.checked_mul_u32(3), Some(Duration::from_ticks(3000)));
    assert_eq!(a.checked_div_u32(3), Some(Duration::from_ticks(333)));
    assert_eq!(a.checked_div_u32(0), None);
    assert_eq!(a.min(b), b);
    assert_eq!(a.max(b), a);
    assert_eq!(a.div_ceil(b), 4);
    assert_eq!(a.rem(b).as_ticks(), 100);
    assert_eq!(a.sub(b).as_ticks(), 700);
    assert_eq!(a.mul_u32(2).div_u32(4).as_ticks(), 500);
}

#[test]
fn instants_wrap_around_the_period() {
    let start = Instant::<1000>::try_from_ticks(900).unwrap();
    assert!(Instant::<1000>::try_from_ticks(1000).is_none());
    let later = start.add(Duration::from_ticks(250));
    assert_eq!(later.as_ticks(), 150);
    assert_eq!(later.sub_duration(Duration::from_ticks(250)), start);
    assert_eq!(later.sub_instant(start).as_ticks(), 250);
    assert_eq!(start.sub_instant(later).as_ticks(), 750);
    assert_eq!(start.add(Duration::from_ticks(2500)), start.add(Duration::from_ticks(500)));
    assert_eq!(Instant::<1000>::period().as_ticks(), 1000);
}

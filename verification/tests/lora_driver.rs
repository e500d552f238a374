use embedded_radio::sx127x_lora::register::{FskDataModulationShaping, FskRampUpRamDown};
use embedded_radio::{DuplexTransfer, EmbeddedRadio, Error, LoRa, OutputPin, RadioMode};

/// An in-memory register file standing in for the chip: reads return the
/// stored register, writes store the value and are counted in order.
struct FakeBus {
    regs: [u8; 128],
    writes: Vec<(u8, u8)>,
}

impl FakeBus {
    fn with_version() -> FakeBus {
        let mut regs = [0u8; 128];
        regs[0x42] = 0x12;
        FakeBus { regs, writes: Vec::new() }
    }
}

impl DuplexTransfer for FakeBus {
    type BusError = ();

    fn transfer(&mut self, tx0: u8, _tx1: u8) -> Result<(u8, u8), ()> {
        Ok((0, self.regs[(tx0 & 0x7f) as usize]))
    }

    fn write(&mut self, tx0: u8, tx1: u8) -> Result<(), ()> {
        let addr = tx0 & 0x7f;
        self.regs[addr as usize] = tx1;
        self.writes.push((addr, tx1));
        Ok(())
    }
}

struct FakePin;

impl OutputPin for FakePin {
    type PinError = ();

    fn set_low(&mut self) -> Result<(), ()> {
        Ok(())
    }

    fn set_high(&mut self) -> Result<(), ()> {
        Ok(())
    }
}

struct BrokenPin;

impl OutputPin for BrokenPin {
    type PinError = u8;

    fn set_low(&mut self) -> Result<(), u8> {
        Err(99)
    }

    fn set_high(&mut self) -> Result<(), u8> {
        Err(99)
    }
}

struct CountingDelay {
    total_ms: u64,
}

impl embedded_radio::DelayMs for CountingDelay {
    fn delay_ms(&mut self, ms: u8) {
        self.total_ms += ms as u64;
    }
}

fn build(bus: FakeBus) -> LoRa<FakeBus, FakePin, FakePin> {
    let mut delay = CountingDelay { total_ms: 0 };
    LoRa::new(bus, FakePin, FakePin, 915, &mut delay).unwrap()
}

#[test]
fn new_leaves_standby_and_checks_version() {
    let mut delay = CountingDelay { total_ms: 0 };
    let lora = LoRa::new(FakeBus::with_version(), FakePin, FakePin, 915, &mut delay).unwrap();
    assert!(matches!(lora.mode, RadioMode::Stdby));
    assert!(lora.explicit_header);
    assert_eq!(delay.total_ms, 20);
}

#[test]
fn new_rejects_wrong_version() {
    let mut bus = FakeBus::with_version();
    bus.regs[0x42] = 0x07;
    let mut delay = CountingDelay { total_ms: 0 };
    let r = LoRa::new(bus, FakePin, FakePin, 915, &mut delay);
    assert!(matches!(r, Err(Error::VersionMismatch(0x07))));
}

#[test]
fn new_surfaces_reset_pin_failure() {
    let mut delay = CountingDelay { total_ms: 0 };
    let r = LoRa::new(FakeBus::with_version(), FakePin, BrokenPin, 915, &mut delay);
    assert!(matches!(r, Err(Error::Reset(99))));
}

#[test]
fn mode_transition_idempotent() {
    let mut lora = build(FakeBus::with_version());
    let (bus0, _, _) = {
        lora.set_mode(RadioMode::Tx).unwrap();
        lora.set_mode(RadioMode::Tx).unwrap();
        lora.decompose()
    };
    // One actual transition: the header re-assertion and the OpMode write;
    // the second request is elided entirely.
    let baseline = 9;
    assert_eq!(bus0.writes.len(), baseline + 2);
    assert_eq!(*bus0.writes.last().unwrap(), (0x01, 0x80 | 0x03));
}

#[test]
fn frequency_round_trip_915() {
    let lora = build(FakeBus::with_version());
    let (bus, _, _) = lora.decompose();
    // frf = 915 * 2^19 / 32 = 0xE4C000, split MSB first.
    assert_eq!(bus.writes[0], (0x06, 0xE4));
    assert_eq!(bus.writes[1], (0x07, 0xC0));
    assert_eq!(bus.writes[2], (0x08, 0x00));
    assert_eq!(bus.regs[0x06], 0xE4);
    assert_eq!(bus.regs[0x07], 0xC0);
    assert_eq!(bus.regs[0x08], 0x00);
}

#[test]
fn ocp_boundaries() {
    let mut lora = build(FakeBus::with_version());
    lora.set_ocp(45).unwrap();
    lora.set_ocp(120).unwrap();
    lora.set_ocp(121).unwrap();
    lora.set_ocp(241).unwrap();
    let (bus, _, _) = lora.decompose();
    let n = bus.writes.len();
    assert_eq!(bus.writes[n - 4], (0x0b, 0x20 | 0));
    assert_eq!(bus.writes[n - 3], (0x0b, 0x20 | 15));
    assert_eq!(bus.writes[n - 2], (0x0b, 0x20 | 15));
    assert_eq!(bus.writes[n - 1], (0x0b, 0x20 | 27));
}

#[test]
fn bandwidth_table_round_trips() {
    let bandwidths: [i64; 9] =
        [7_800, 10_400, 15_600, 20_800, 31_250, 41_700, 62_500, 125_000, 250_000];
    let mut lora = build(FakeBus::with_version());
    for &bw in bandwidths.iter() {
        lora.set_signal_bandwidth(bw).unwrap();
        assert_eq!(lora.get_signal_bandwidth().unwrap(), bw);
    }
    // An unrecognized bandwidth is written as code 9, which reads back as
    // 500000.
    lora.set_signal_bandwidth(12_345).unwrap();
    assert_eq!(lora.get_signal_bandwidth().unwrap(), 500_000);
}

#[test]
fn unknown_bandwidth_code_reads_minus_one() {
    let mut bus = FakeBus::with_version();
    bus.regs[0x1d] = 0xA0;
    let mut lora = build(bus);
    assert_eq!(lora.get_signal_bandwidth().unwrap(), -1);
}

#[test]
fn spreading_factor_clamps_and_reads_back() {
    let mut lora = build(FakeBus::with_version());
    lora.set_spreading_factor(6).unwrap();
    assert_eq!(lora.get_spreading_factor().unwrap(), 6);
    let (bus, _, _) = {
        lora.set_spreading_factor(20).unwrap();
        assert_eq!(lora.get_spreading_factor().unwrap(), 12);
        lora.set_spreading_factor(1).unwrap();
        assert_eq!(lora.get_spreading_factor().unwrap(), 6);
        lora.decompose()
    };
    // A spreading factor of 6 selects the special detection pair.
    assert!(bus.writes.contains(&(0x31, 0xc5)));
    assert!(bus.writes.contains(&(0x37, 0x0c)));
    assert!(bus.writes.contains(&(0x31, 0xc3)));
    assert!(bus.writes.contains(&(0x37, 0x0a)));
}

#[test]
fn tx_power_paths() {
    let mut lora = build(FakeBus::with_version());
    // RFO path: level clamps to 14.
    lora.set_tx_power(20, 0).unwrap();
    // Boosted path at the top: high-power sequence and 140 mA limit.
    lora.set_tx_power(20, 1).unwrap();
    // Boosted path below 18: default sequence and 100 mA limit.
    lora.set_tx_power(17, 1).unwrap();
    let (bus, _, _) = lora.decompose();
    let n = bus.writes.len();
    assert_eq!(bus.writes[n - 7], (0x09, 0x70 | 14));
    assert_eq!(bus.writes[n - 6], (0x4d, 0x87));
    assert_eq!(bus.writes[n - 5], (0x0b, 0x20 | 17));
    assert_eq!(bus.writes[n - 4], (0x09, 0x80 | 15));
    assert_eq!(bus.writes[n - 3], (0x4d, 0x84));
    assert_eq!(bus.writes[n - 2], (0x0b, 0x20 | 11));
    assert_eq!(bus.writes[n - 1], (0x09, 0x80 | 15));
}

#[test]
fn coding_rate_clamps_into_bits_1_to_3() {
    let mut lora = build(FakeBus::with_version());
    lora.set_coding_rate_4(8).unwrap();
    let (bus, _, _) = lora.decompose();
    // Denominator 8 stores code 4 in bits 1-3 of ModemConfig1.
    assert_eq!((bus.regs[0x1d] >> 1) & 0x07, 4);
    let mut lora = build(FakeBus::with_version());
    lora.set_coding_rate_4(1).unwrap();
    let (bus, _, _) = lora.decompose();
    // Anything below 5 clamps to 5, code 1.
    assert_eq!((bus.regs[0x1d] >> 1) & 0x07, 1);
}

#[test]
fn ldo_flag_recomputed_by_both_setters() {
    let mut lora = build(FakeBus::with_version());
    // Bandwidth registers still hold code 0 (7800 Hz); at spreading factor
    // 12 the symbol duration is 1000 ms, far above the 16 ms bar.
    lora.set_spreading_factor(12).unwrap();
    let (bus, _, _) = lora.decompose();
    assert_eq!(bus.regs[0x26] & 0x08, 0x08);

    // At 250 kHz and spreading factor 12 the duration is exactly 16 ms,
    // not above the bar, so the bandwidth setter clears the flag again.
    let mut lora = build(FakeBus::with_version());
    lora.set_spreading_factor(12).unwrap();
    lora.set_signal_bandwidth(250_000).unwrap();
    let (bus, _, _) = lora.decompose();
    assert_eq!(bus.regs[0x26] & 0x08, 0x00);
}

#[test]
fn preamble_crc_invert_iq_and_dio0() {
    let mut lora = build(FakeBus::with_version());
    lora.set_preamble_length(0x1234).unwrap();
    lora.set_crc(true).unwrap();
    lora.set_invert_iq(true).unwrap();
    lora.set_invert_iq(false).unwrap();
    lora.set_dio0_tx_done().unwrap();
    let (bus, _, _) = lora.decompose();
    assert!(bus.writes.contains(&(0x20, 0x12)));
    assert!(bus.writes.contains(&(0x21, 0x34)));
    assert_eq!(bus.regs[0x1e] & 0x04, 0x04);
    assert!(bus.writes.contains(&(0x33, 0x66)));
    assert!(bus.writes.contains(&(0x3b, 0x19)));
    assert!(bus.writes.contains(&(0x33, 0x27)));
    assert!(bus.writes.contains(&(0x3b, 0x1d)));
    assert_eq!(*bus.writes.last().unwrap(), (0x40, 0x40));
}

#[test]
fn fsk_mode_and_pa_ramp() {
    let mut lora = build(FakeBus::with_version());
    lora.put_in_fsk_mode().unwrap();
    lora.set_fsk_pa_ramp(FskDataModulationShaping::NoShaping, FskRampUpRamDown::_500us).unwrap();
    let (bus, _, _) = lora.decompose();
    let n = bus.writes.len();
    assert_eq!(bus.writes[n - 2], (0x01, 0x03));
    assert_eq!(bus.writes[n - 1], (0x0a, (1 << 5) | 3));
}

#[test]
fn transmit_stages_fifo_and_enters_tx() {
    let mut lora = build(FakeBus::with_version());
    let baseline = 9;
    lora.transmit_payload(&[10u8, 20, 30]).unwrap();
    assert!(matches!(lora.mode, RadioMode::Tx));
    let (bus, _, _) = lora.decompose();
    let w = &bus.writes[baseline..];
    // Already in standby, so no mode write precedes the staging.
    assert_eq!(w[0], (0x12, 0));
    assert_eq!(w[1], (0x0d, 0));
    assert_eq!(w[2], (0x22, 0));
    assert_eq!(w[3], (0x00, 10));
    assert_eq!(w[4], (0x00, 20));
    assert_eq!(w[5], (0x00, 30));
    assert_eq!(w[6], (0x22, 3));
    assert_eq!(w[8], (0x01, 0x80 | 0x03));
    assert_eq!(w.len(), 9);
}

#[test]
fn busy_transmit_rejected_with_zero_writes() {
    let mut lora = build(FakeBus::with_version());
    lora.transmit_payload(&[1u8]).unwrap();
    // The fake chip now reports transmit mode, so a second send is refused
    // without touching a single register.
    let r = lora.transmit_payload(&[2u8]);
    assert!(matches!(r, Err(Error::Transmitting)));
    let r2 = lora.transmit_payload(&[3u8]);
    assert!(matches!(r2, Err(Error::Transmitting)));
    let (bus, _, _) = lora.decompose();
    // Writes of the one successful transmit only: the staging sequence of
    // the one-byte payload (5) plus the transition to transmit mode (2),
    // over the construction baseline of 9.
    assert_eq!(bus.writes.len(), 9 + 7);
}

#[test]
fn transmitting_acknowledges_tx_done() {
    let mut bus = FakeBus::with_version();
    bus.regs[0x12] = 0x08;
    let mut lora = build(bus);
    let baseline = 9;
    assert_eq!(lora.transmitting().unwrap(), false);
    let (bus, _, _) = lora.decompose();
    assert_eq!(bus.writes.len(), baseline + 1);
    assert_eq!(*bus.writes.last().unwrap(), (0x12, 0x08));
}

#[test]
fn transmit_truncates_payload() {
    let mut lora = build(FakeBus::with_version());
    let payload: Vec<u8> = (0u32..300).map(|i| (i % 256) as u8).collect();
    lora.transmit_payload(&payload[..]).unwrap();
    let (bus, _, _) = lora.decompose();
    let fifo_writes: Vec<&(u8, u8)> = bus.writes.iter().filter(|w| w.0 == 0x00).collect();
    assert_eq!(fifo_writes.len(), 255);
    assert!(bus.writes.contains(&(0x22, 255)));
}

#[test]
fn read_packet_returns_pending_bytes() {
    let mut bus = FakeBus::with_version();
    bus.regs[0x12] = 0x40;
    bus.regs[0x13] = 3;
    bus.regs[0x10] = 0x10;
    bus.regs[0x00] = 0xAB;
    let mut lora = build(bus);
    let packet = lora.read_packet().unwrap();
    assert_eq!(packet, Some(vec![0xAB, 0xAB, 0xAB]));
    assert!(matches!(lora.mode, RadioMode::RxContinuous));
}

#[test]
fn read_packet_without_data_is_none() {
    let mut lora = build(FakeBus::with_version());
    assert_eq!(lora.read_packet().unwrap(), None);
}

#[test]
fn read_packet_timeout_ticks_exactly() {
    let mut lora = build(FakeBus::with_version());
    let mut delay = CountingDelay { total_ms: 0 };
    let r = lora.read_packet_timeout(6, &mut delay).unwrap();
    assert!(r.is_none());
    assert_eq!(delay.total_ms, 6);

    let mut delay = CountingDelay { total_ms: 0 };
    let r = lora.read_packet_timeout(-1, &mut delay).unwrap();
    assert!(r.is_none());
    assert_eq!(delay.total_ms, 0);
}

#[test]
fn rssi_snr_and_frequency_error() {
    let mut bus = FakeBus::with_version();
    bus.regs[0x1a] = 157;
    bus.regs[0x19] = 42;
    bus.regs[0x28] = 0x01;
    bus.regs[0x29] = 0x02;
    bus.regs[0x2a] = 0x03;
    bus.regs[0x1d] = 0x70;  // bandwidth code 7: 125000 Hz
    let mut lora = build(bus);
    assert_eq!(lora.get_packet_rssi().unwrap(), 0);
    assert_eq!(lora.get_packet_snr_raw().unwrap(), 42);
    assert_eq!(lora.get_packet_frequency_error().unwrap(), 8657);
}

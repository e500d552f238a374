use embedded_radio::sx127x_lora::register::{AsAddr, IRQMask, PaConfig, Register};
use embedded_radio::sx127x_lora::{ldo_on, packet_frequency_error_hz};
use embedded_radio::RadioMode;

#[test]
fn register_map_spot_checks() {
    assert_eq!(Register::Fifo.addr(), 0x00);
    assert_eq!(Register::OpMode.addr(), 0x01);
    assert_eq!(Register::FrfMsb.addr(), 0x06);
    assert_eq!(Register::IrqFlags.addr(), 0x12);
    assert_eq!(Register::Version.addr(), 0x42);
    assert_eq!(Register::PaDac.addr(), 0x4d);
    assert_eq!(PaConfig::PaBoost.addr(), 0x80);
    assert_eq!(PaConfig::PaOutputRfoPin.addr(), 0x00);
    assert_eq!(IRQMask::TxDone.addr(), 0x08);
    assert_eq!(IRQMask::PayloadCrcError.addr(), 0x20);
    assert_eq!(IRQMask::RxDone.addr(), 0x40);
}

#[test]
fn mode_codes() {
    assert_eq!(RadioMode::Sleep.addr(), 0x00);
    assert_eq!(RadioMode::Stdby.addr(), 0x01);
    assert_eq!(RadioMode::Tx.addr(), 0x03);
    assert_eq!(RadioMode::RxContinuous.addr(), 0x05);
    assert_eq!(RadioMode::RxSingle.addr(), 0x06);
    assert_eq!(RadioMode::LongRangeMode.addr(), 0x80);
}

#[test]
fn ldo_decision() {
    // 125 kHz at spreading factor 7: symbol duration 1000 / 976 = 1 ms.
    assert_eq!(ldo_on(125_000, 7), false);
    // 125 kHz at spreading factor 12: 1000 / 30 = 33 ms, above the 16 ms bar.
    assert_eq!(ldo_on(125_000, 12), true);
    // 7.8 kHz at spreading factor 12: chip rate rounds to 1, 1000 > 16.
    assert_eq!(ldo_on(7_800, 12), true);
    // An unknown bandwidth counts as on.
    assert_eq!(ldo_on(-1, 5), true);
    // 500 kHz at spreading factor 6: 1000 / 7812 = 0 chips-per-ms quotient
    // never exceeds the bar.
    assert_eq!(ldo_on(500_000, 6), false);
}

#[test]
fn frequency_error_formula() {
    // raw = 0x010203 = 66051; 66051 * 2^24 * 125000 / (32e6 * 5e5) = 8657.
    assert_eq!(packet_frequency_error_hz(0x01, 0x02, 0x03, 125_000), 8657);
    // The top nibble of the most significant byte is masked, not
    // sign-extended.
    assert_eq!(
        packet_frequency_error_hz(0xF1, 0x02, 0x03, 125_000),
        packet_frequency_error_hz(0x01, 0x02, 0x03, 125_000)
    );
    assert_eq!(packet_frequency_error_hz(0, 0, 0, 250_000), 0);
    // The largest representable raw field at the widest bandwidth.
    assert_eq!(packet_frequency_error_hz(0xFF, 0xFF, 0xFF, 500_000), 274877);
    // An unknown bandwidth yields 0.
    assert_eq!(packet_frequency_error_hz(0x01, 0x02, 0x03, -1), 0);
}

//! Driver for Semtech SX1276/77/78/79 based LoRa boards.
//!
//! The driver owns its transport and pins, caches the radio mode and the
//! header-mode flag, and expresses every operation in terms of two register
//! primitives (read and write), each a single chip-select transaction.
//!
//! Contracts are stated over two ghost logs: the register writes the driver
//! has issued and the register reads it has performed, each in order as
//! `(address, byte)` pairs. The bytes a read returns are the chip's to
//! choose and are never assumed; instead, every result and every
//! read-modify-written value is tied to the logged bytes, so a contract says
//! exactly which registers were touched and how each outcome was computed
//! from what the chip answered.

use vstd::prelude::*;

use vstd::arithmetic::mul::lemma_mul_upper_bound;
use vstd::arithmetic::power2::pow2;
use vstd::bits::lemma_u64_shr_is_div;

pub mod register;

use crate::radio_traits::{spec_payload_trunc, DelayMs, DuplexTransfer, EmbeddedRadio, OutputPin};
use register::{AsAddr, FskDataModulationShaping, FskRampUpRamDown, IRQMask, PaConfig, Register};

verus! {

/// The version sentinel the chip must report at construction.
pub const VERSION_CHECK: u8 = 0x12;

/// Modes of the radio. Every mode code is combined with the long-range flag
/// when written to hardware.
#[derive(Debug, Clone, Copy, PartialEq, Eq, Structural)]
pub enum RadioMode {
    LongRangeMode,
    Sleep,
    Stdby,
    Tx,
    RxContinuous,
    RxSingle,
}

impl AsAddr for RadioMode {
    open spec fn spec_addr(self) -> u8 {
        match self {
            RadioMode::LongRangeMode => 0x80,
            RadioMode::Sleep => 0x00,
            RadioMode::Stdby => 0x01,
            RadioMode::Tx => 0x03,
            RadioMode::RxContinuous => 0x05,
            RadioMode::RxSingle => 0x06,
        }
    }

    /// Returns the register code of the mode.
    fn addr(self) -> (r: u8)
        ensures
            r == self.spec_addr(),
    {
        match self {
            RadioMode::LongRangeMode => 0x80,
            RadioMode::Sleep => 0x00,
            RadioMode::Stdby => 0x01,
            RadioMode::Tx => 0x03,
            RadioMode::RxContinuous => 0x05,
            RadioMode::RxSingle => 0x06,
        }
    }
}

/// Errors of the driver, tagged by the sub-channel that failed.
#[derive(Debug)]
pub enum Error<SPI, CS, RESET> {
    /// A poll expired without data.
    Uninformative,
    /// The chip did not report the expected version; carries what it reported.
    VersionMismatch(u8),
    /// The chip-select pin failed.
    CS(CS),
    /// The reset pin failed.
    Reset(RESET),
    /// The transfer capability failed.
    Spi(SPI),
    /// A transmission is already in flight.
    Transmitting,
}

/// The write issued by a mode transition: the OpMode register takes the
/// long-range flag combined with the mode code.
pub open spec fn spec_mode_write(mode: RadioMode) -> (u8, u8) {
    (Register::OpMode.spec_addr(), RadioMode::LongRangeMode.spec_addr() | mode.spec_addr())
}

/// The header-mode re-assertion write: a read-modify-write of ModemConfig1
/// that clears the implicit-header bit (explicit mode) or keeps only it
/// (implicit mode).
pub open spec fn spec_header_write_ok(w: (u8, u8), explicit: bool) -> bool {
    &&& w.0 == Register::ModemConfig1.spec_addr()
    &&& if explicit {
        w.1 & 0x01 == 0
    } else {
        w.1 & 0xfe == 0
    }
}

/// The log may only grow; on a failed compound operation it has grown by some
/// prefix of the intended writes.
pub open spec fn spec_log_grew(a: Seq<(u8, u8)>, b: Seq<(u8, u8)>) -> bool {
    a.is_prefix_of(b)
}

/// The 24-bit frequency word: MHz times 2^19 over 32, which is exactly MHz
/// times 2^14.
pub open spec fn spec_frf(freq: int) -> int {
    freq * 0x4000
}

/// The three bytes of the frequency word, most significant first.
pub open spec fn spec_frf_msb(freq: int) -> u8 {
    ((spec_frf(freq) as i64 & 0x00FF_0000) >> 16) as u8
}

pub open spec fn spec_frf_mid(freq: int) -> u8 {
    ((spec_frf(freq) as i64 & 0x0000_FF00) >> 8) as u8
}

pub open spec fn spec_frf_lsb(freq: int) -> u8 {
    (spec_frf(freq) as i64 & 0x0000_00FF) as u8
}

/// The three frequency-register writes, most significant byte first.
pub open spec fn spec_frf_writes(freq: int) -> Seq<(u8, u8)> {
    seq![
        (Register::FrfMsb.spec_addr(), spec_frf_msb(freq)),
        (Register::FrfMid.spec_addr(), spec_frf_mid(freq)),
        (Register::FrfLsb.spec_addr(), spec_frf_lsb(freq)),
    ]
}

/// Over-current trim code for a limit in milliamperes.
pub open spec fn spec_ocp_trim(ma: u8) -> int {
    if ma <= 120 {
        (ma - 45) / 5
    } else if ma <= 240 {
        (ma + 30) / 10
    } else {
        27
    }
}

/// The over-current protection register value: 0x20 combined with the
/// five-bit trim code.
pub open spec fn spec_ocp_reg(ma: u8) -> u8 {
    (0x20 + spec_ocp_trim(ma)) as u8
}

/// A value forced into a closed range.
pub open spec fn spec_clamp(v: int, lo: int, hi: int) -> int {
    if v < lo {
        lo
    } else if v > hi {
        hi
    } else {
        v
    }
}


/// Signal-bandwidth code for a bandwidth in hertz: the nine named bandwidths
/// encode to codes 0 through 8, anything else to the invalid code 9.
pub open spec fn spec_bw_code(sbw: i64) -> u8 {
    if sbw == 7_800 {
        0
    } else if sbw == 10_400 {
        1
    } else if sbw == 15_600 {
        2
    } else if sbw == 20_800 {
        3
    } else if sbw == 31_250 {
        4
    } else if sbw == 41_700 {
        5
    } else if sbw == 62_500 {
        6
    } else if sbw == 125_000 {
        7
    } else if sbw == 250_000 {
        8
    } else {
        9
    }
}

/// Bandwidth in hertz decoded from a code: codes 0 through 8 name the nine
/// bandwidths, code 9 decodes as 500000 and any other code as -1.
pub open spec fn spec_bw_value(code: u8) -> i64 {
    if code == 0 {
        7_800
    } else if code == 1 {
        10_400
    } else if code == 2 {
        15_600
    } else if code == 3 {
        20_800
    } else if code == 4 {
        31_250
    } else if code == 5 {
        41_700
    } else if code == 6 {
        62_500
    } else if code == 7 {
        125_000
    } else if code == 8 {
        250_000
    } else if code == 9 {
        500_000
    } else {
        -1i64
    }
}

/// Spreading factors clamp to the supported 6 through 12 band.
pub open spec fn spec_sf_clamped(sf: u8) -> u8 {
    if sf < 6 {
        6
    } else if sf > 12 {
        12
    } else {
        sf
    }
}

/// The detection-optimize register value: a spreading factor of 6 needs the
/// special pair.
pub open spec fn spec_detection_optimize(sf: u8) -> u8 {
    if spec_sf_clamped(sf) == 6 {
        0xc5
    } else {
        0xc3
    }
}

pub open spec fn spec_detection_threshold(sf: u8) -> u8 {
    if spec_sf_clamped(sf) == 6 {
        0x0c
    } else {
        0x0a
    }
}

/// Coding-rate register code: the clamped denominator less the fixed
/// numerator 4.
pub open spec fn spec_coding_rate(denominator: u8) -> int {
    spec_clamp(denominator as int, 5, 8) - 4
}

/// The two bytes of the 16-bit preamble length, most significant first.
pub open spec fn spec_preamble_msb(length: int) -> u8 {
    (length / 0x100) as u8
}

pub open spec fn spec_preamble_lsb(length: int) -> u8 {
    (length % 0x100) as u8
}

/// The two invert-IQ register values, for on and for off.
pub open spec fn spec_invert_iq_writes(value: bool) -> Seq<(u8, u8)> {
    if value {
        seq![
            (Register::Invertiq.spec_addr(), 0x66u8),
            (Register::Invertiq2.spec_addr(), 0x19u8),
        ]
    } else {
        seq![
            (Register::Invertiq.spec_addr(), 0x27u8),
            (Register::Invertiq2.spec_addr(), 0x1du8),
        ]
    }
}

/// The writes issued when setting transmit power: the RFO path writes one
/// PaConfig value; the boosted path programs the PA-DAC sequence and the
/// matching over-current limit first.
pub open spec fn spec_tx_power_writes(level: int, output_pin: u8) -> Seq<(u8, u8)> {
    if output_pin == PaConfig::PaOutputRfoPin.spec_addr() {
        seq![(Register::PaConfig.spec_addr(), (0x70 + spec_clamp(level, 0, 14)) as u8)]
    } else {
        let l = spec_clamp(level, 2, 20);
        if l > 17 {
            seq![
                (Register::PaDac.spec_addr(), 0x87u8),
                (Register::Ocp.spec_addr(), spec_ocp_reg(140)),
                (Register::PaConfig.spec_addr(), (0x80 + (l - 5)) as u8),
            ]
        } else {
            seq![
                (Register::PaDac.spec_addr(), 0x84u8),
                (Register::Ocp.spec_addr(), spec_ocp_reg(100)),
                (Register::PaConfig.spec_addr(), (0x80 + (l - 2)) as u8),
            ]
        }
    }
}

/// The low-data-rate-optimization decision of the chip: the flag is on iff
/// the symbol duration 1000 / (bandwidth / 2^sf) exceeds 16 ms. An unknown
/// bandwidth or a chip rate that rounds to zero counts as on.
pub open spec fn spec_ldo_on(sw: i64, sf: u8) -> bool {
    if sw <= 0 {
        true
    } else {
        let chips = sw as int / pow2(sf as nat) as int;
        chips == 0 || 1000int / chips > 16
    }
}

/// A ModemConfig3 byte with its low-data-rate-optimization bit forced to
/// the given decision.
pub open spec fn spec_set_ldo_bit(c3: u8, on: bool) -> u8 {
    if on {
        c3 | 0x08
    } else {
        c3 & 0xf7
    }
}

/// The raw 24-bit frequency-error field: the top byte is masked to its low
/// three bits, not sign-extended.
pub open spec fn spec_freq_error_raw(msb: u8, mid: u8, lsb: u8) -> int {
    (msb & 0x07) * 0x10000 + mid * 0x100 + lsb
}

/// Frequency error in hertz: raw times 2^24 over the 32 MHz crystal, scaled
/// by bandwidth over 500 kHz, computed exactly over the integers; an unknown
/// bandwidth yields 0.
pub open spec fn spec_frequency_error(msb: u8, mid: u8, lsb: u8, sbw: i64) -> int {
    if sbw <= 0 {
        0
    } else {
        spec_freq_error_raw(msb, mid, lsb) * 0x100_0000 * sbw / 16_000_000_000_000
    }
}

/// The FSK PA-ramp register value: the shaping code in the shaping bit, the
/// ramp code in the three ramp bits.
pub open spec fn spec_fsk_pa_ramp_reg(
    shaping: FskDataModulationShaping,
    ramp: FskRampUpRamDown,
) -> u8 {
    (shaping.spec_addr() * 0x20 + ramp.spec_addr()) as u8
}

/// Decides the low-data-rate-optimization flag from a bandwidth in hertz and
/// a spreading factor.
pub fn ldo_on(sw: i64, sf: u8) -> (r: bool)
    requires
        sf <= 15,
    ensures
        r == spec_ldo_on(sw, sf),
{
    if sw <= 0 {
        return true;
    }
    let chips: u64 = (sw as u64) >> sf;
    proof {
        lemma_u64_shr_is_div(sw as u64, sf as u64);
    }
    chips == 0 || 1000 / chips > 16
}

/// Frequency error in hertz from the three raw error registers and the
/// current bandwidth in hertz, exactly as `spec_frequency_error` states it.
pub fn packet_frequency_error_hz(msb: u8, mid: u8, lsb: u8, sbw: i64) -> (e: i64)
    requires
        sbw <= 500_000,
    ensures
        e == spec_frequency_error(msb, mid, lsb, sbw),
{
    if sbw <= 0 {
        return 0;
    }
    assert(msb & 0x07 <= 0x07) by (bit_vector);
    let raw: u64 = ((msb & 0x07) as u64) * 0x10000 + (mid as u64) * 0x100 + (lsb as u64);
    let raw24: u64 = raw * 0x100_0000;
    assert(raw24 <= 0x7FFFF_00_0000u64);
    let sbwu: u64 = sbw as u64;
    proof {
        assert(sbwu <= 500_000);
        lemma_mul_upper_bound(raw24 as int, 0x7FFFF_00_0000, sbwu as int, 500_000);
    }
    let prod: u64 = raw24 * sbwu;
    let e: u64 = prod / 16_000_000_000_000;
    e as i64
}


/// The fixed writes of a transmit: clear the IRQ flags, reset the FIFO
/// pointer, zero the length, stream the truncated payload into the FIFO,
/// then write the final length.
pub open spec fn spec_tx_setup_writes(p: Seq<u8>) -> Seq<(u8, u8)> {
    seq![
        (Register::IrqFlags.spec_addr(), 0u8),
        (Register::FifoAddrPtr.spec_addr(), 0u8),
        (Register::PayloadLength.spec_addr(), 0u8),
    ] + spec_payload_trunc(p).map(|i: int, b: u8| (Register::Fifo.spec_addr(), b)) + seq![
        (Register::PayloadLength.spec_addr(), spec_payload_trunc(p).len() as u8),
    ]
}

/// The transmit-done acknowledgement the transmitting query may or may not
/// issue, depending on the flags the chip reports.
pub open spec fn spec_irq_ack_ok(ack: Seq<(u8, u8)>) -> bool {
    ack == Seq::<(u8, u8)>::empty() || ack == seq![
        (Register::IrqFlags.spec_addr(), IRQMask::TxDone.spec_addr()),
    ]
}

/// A run of transmit-done acknowledgements, as the busy-wait polls may
/// issue: every element is the IrqFlags write of the TxDone mask.
pub open spec fn spec_ack_run(s: Seq<(u8, u8)>) -> bool {
    forall|i: int|
        0 <= i < s.len() ==> #[trigger] s[i] == (
            Register::IrqFlags.spec_addr(),
            IRQMask::TxDone.spec_addr(),
        )
}

/// The writes of a transition from a cached mode: nothing when the target is
/// already cached, else the header re-assertion followed by the OpMode write.
pub open spec fn spec_mode_delta_ok(
    delta: Seq<(u8, u8)>,
    was: RadioMode,
    explicit: bool,
    mode: RadioMode,
) -> bool {
    if was == mode {
        delta == Seq::<(u8, u8)>::empty()
    } else {
        exists|w: (u8, u8)| #![trigger spec_header_write_ok(w, explicit)]
            delta == seq![w, spec_mode_write(mode)] && spec_header_write_ok(w, explicit)
    }
}

/// The whole write sequence of a successful transmit: the possible TxDone
/// acknowledgement of the busy query, the transition to standby, the FIFO
/// staging, and the transition to transmit.
pub open spec fn spec_transmit_delta_ok(
    log0: Seq<(u8, u8)>,
    log1: Seq<(u8, u8)>,
    was: RadioMode,
    explicit: bool,
    p: Seq<u8>,
) -> bool {
    exists|ack: Seq<(u8, u8)>, m1: Seq<(u8, u8)>, m2: Seq<(u8, u8)>|
        #![trigger spec_irq_ack_ok(ack), spec_mode_delta_ok(m1, was, explicit, RadioMode::Stdby), spec_mode_delta_ok(m2, RadioMode::Stdby, explicit, RadioMode::Tx)]
        log1 == log0 + ack + m1 + spec_tx_setup_writes(p) + m2 && spec_irq_ack_ok(ack)
            && spec_mode_delta_ok(m1, was, explicit, RadioMode::Stdby) && spec_mode_delta_ok(
            m2,
            RadioMode::Stdby,
            explicit,
            RadioMode::Tx,
        )
}

/// The writes of a successful packet read once a packet is ready: the IRQ
/// acknowledgement, the FIFO pointer moved to the packet, and the pointer
/// reset.
pub open spec fn spec_rx_read_writes(irqv: u8, fifo_addr: u8) -> Seq<(u8, u8)> {
    seq![
        (Register::IrqFlags.spec_addr(), irqv),
        (Register::FifoAddrPtr.spec_addr(), fifo_addr),
        (Register::FifoAddrPtr.spec_addr(), 0u8),
    ]
}

/// A write that boosts the LNA: its existing value with the low two bits
/// forced on.
pub open spec fn spec_lna_write_ok(w: (u8, u8)) -> bool {
    w.0 == Register::Lna.spec_addr() && w.1 & 0x03 == 0x03
}

/// The construction write sequence: the frequency word, both FIFO base
/// addresses zeroed, the LNA boost, the fixed ModemConfig3 bit, then the
/// transition from sleep to standby.
pub open spec fn spec_new_log_ok(log: Seq<(u8, u8)>, freq: int) -> bool {
    exists|lna_w: (u8, u8), hdr: (u8, u8)|
        #![trigger spec_lna_write_ok(lna_w), spec_header_write_ok(hdr, true)]
        log == spec_frf_writes(freq) + seq![
            (Register::FifoTxBaseAddr.spec_addr(), 0u8),
            (Register::FifoRxBaseAddr.spec_addr(), 0u8),
            lna_w,
            (Register::ModemConfig3.spec_addr(), 0x04u8),
        ] + seq![hdr, spec_mode_write(RadioMode::Stdby)] && spec_lna_write_ok(lna_w)
            && spec_header_write_ok(hdr, true)
}


/// Law: the three frequency-register bytes written by `set_frequency`
/// reassemble, most significant byte first, to the exact frequency word
/// freq times 2^19 over 32.
pub proof fn lemma_frf_round_trip(freq: int)
    requires
        0 <= freq < 1024,
    ensures
        (spec_frf_msb(freq) as int) * 0x10000 + (spec_frf_mid(freq) as int) * 0x100 + (
        spec_frf_lsb(freq) as int) == (freq * 0x80000) / 32,
{
    let v: i64 = spec_frf(freq) as i64;
    assert(0 <= v < 0x100_0000);
    assert(0 <= v < 0x100_0000 ==> (((v & 0x00FF_0000) >> 16) as u8) as int * 0x10000 + (((v
        & 0x0000_FF00) >> 8) as u8) as int * 0x100 + ((v & 0x0000_00FF) as u8) as int == v)
        by (bit_vector);
    assert(freq * 0x80000 == (freq * 0x4000) * 32) by (nonlinear_arith);
    assert(((freq * 0x4000) * 32) / 32 == freq * 0x4000) by (nonlinear_arith);
}

/// Law: each of the nine named bandwidths encodes to its code and decodes
/// back to the same value; code 9 decodes as 500000; any unrecognized code
/// decodes as -1.
pub proof fn lemma_bandwidth_table_round_trip()
    ensures
        forall|sbw: i64|
            spec_bw_code(sbw) != 9 ==> #[trigger] spec_bw_value(spec_bw_code(sbw)) == sbw,
        spec_bw_value(9) == 500_000,
        forall|c: u8| c > 9 ==> #[trigger] spec_bw_value(c) == -1,
{
}

/// Provides high-level access to Semtech SX1276/77/78/79 based boards.
pub struct LoRa<SPI, CS, RESET> {
    spi: SPI,
    cs: CS,
    reset: RESET,
    frequency: i64,
    pub explicit_header: bool,
    pub mode: RadioMode,
    /// Ghost log of every register write issued, in order.
    writes: Ghost<Seq<(u8, u8)>>,
    /// Ghost log of every register read performed, in order, with the byte
    /// the chip answered.
    reads: Ghost<Seq<(u8, u8)>>,
}

impl<SPI, CS, RESET> LoRa<SPI, CS, RESET> where
    SPI: DuplexTransfer,
    CS: OutputPin,
    RESET: OutputPin,
 {
    /// The MHz frequency most recently configured.
    pub closed spec fn spec_frequency(&self) -> i64 {
        self.frequency
    }

    /// The mode the driver has cached as current.
    pub closed spec fn spec_mode(&self) -> RadioMode {
        self.mode
    }

    /// The cached header-mode flag: true for explicit headers.
    pub closed spec fn spec_explicit_header(&self) -> bool {
        self.explicit_header
    }

    /// The register writes the driver has issued so far.
    pub closed spec fn write_log(&self) -> Seq<(u8, u8)> {
        self.writes@
    }

    /// The register reads the driver has performed so far, each with the
    /// byte the chip answered. The bytes themselves are the chip's to
    /// choose; the log ties results and read-modify-writes to them.
    pub closed spec fn read_log(&self) -> Seq<(u8, u8)> {
        self.reads@
    }

    /// The chip-select line is released (high), as it is between
    /// transactions.
    pub closed spec fn cs_high(&self) -> bool {
        self.cs.is_high()
    }

    /// The transport handle the driver owns.
    pub closed spec fn spec_spi(&self) -> SPI {
        self.spi
    }

    /// The chip-select pin handle the driver owns.
    pub closed spec fn spec_cs(&self) -> CS {
        self.cs
    }

    /// The reset pin handle the driver owns.
    pub closed spec fn spec_reset(&self) -> RESET {
        self.reset
    }

    /// The driver state a register access never touches: cached mode, header
    /// flag and configured frequency.
    pub open spec fn same_shadow(&self, o: &Self) -> bool {
        &&& self.spec_mode() == o.spec_mode()
        &&& self.spec_explicit_header() == o.spec_explicit_header()
        &&& self.spec_frequency() == o.spec_frequency()
    }

    /// Reads one register: one chip-select-low transaction transferring
    /// `[address & 0x7f, 0]`, returning the second byte shifted in.
    fn read_register(&mut self, reg: Register) -> (r: Result<
        u8,
        Error<SPI::BusError, CS::PinError, RESET::PinError>,
    >)
        ensures
            final(self).same_shadow(old(self)),
            final(self).spec_reset() == old(self).spec_reset(),
            final(self).write_log() == old(self).write_log(),
            r matches Ok(b) ==> final(self).read_log() == old(self).read_log().push(
                (reg.spec_addr(), b),
            ),
            r is Err ==> (final(self).read_log() == old(self).read_log() || (exists|b: u8|
                final(self).read_log() == old(self).read_log().push((reg.spec_addr(), b)))),
            r is Ok ==> final(self).cs_high(),
            r matches Err(e) ==> (e is CS || e is Spi),
    {
        let addr = reg.addr();
        match self.cs.set_low() {
            Err(e) => return Err(Error::CS(e)),
            Ok(()) => {},
        }
        let pair = match self.spi.transfer(addr & 0x7f, 0) {
            Err(e) => return Err(Error::Spi(e)),
            Ok(p) => p,
        };
        proof {
            self.reads@ = self.reads@.push((reg.spec_addr(), pair.1));
        }
        match self.cs.set_high() {
            Err(e) => return Err(Error::CS(e)),
            Ok(()) => {},
        }
        Ok(pair.1)
    }

    /// Writes one register: one chip-select-low transaction writing
    /// `[address | 0x80, value]`. On success the write is appended to the
    /// log; a failure after the transfer may leave it logged.
    fn write_register(&mut self, reg: Register, byte: u8) -> (r: Result<
        (),
        Error<SPI::BusError, CS::PinError, RESET::PinError>,
    >)
        ensures
            final(self).same_shadow(old(self)),
            final(self).spec_reset() == old(self).spec_reset(),
            final(self).read_log() == old(self).read_log(),
            r is Ok ==> final(self).write_log() == old(self).write_log().push((reg.spec_addr(), byte))
                && final(self).cs_high(),
            r is Err ==> (final(self).write_log() == old(self).write_log() || final(self).write_log()
                == old(self).write_log().push((reg.spec_addr(), byte))),
            r matches Err(e) ==> (e is CS || e is Spi),
    {
        let addr = reg.addr();
        match self.cs.set_low() {
            Err(e) => return Err(Error::CS(e)),
            Ok(()) => {},
        }
        match self.spi.write(addr | 0x80, byte) {
            Err(e) => return Err(Error::Spi(e)),
            Ok(()) => {},
        }
        proof {
            self.writes@ = self.writes@.push((reg.spec_addr(), byte));
        }
        match self.cs.set_high() {
            Err(e) => return Err(Error::CS(e)),
            Ok(()) => {},
        }
        Ok(())
    }

    /// Sets the radio to use an explicit header. Default state is on.
    fn set_explicit_header_mode(&mut self) -> (r: Result<
        (),
        Error<SPI::BusError, CS::PinError, RESET::PinError>,
    >)
        ensures
            final(self).spec_mode() == old(self).spec_mode(),
            final(self).spec_frequency() == old(self).spec_frequency(),
            final(self).spec_reset() == old(self).spec_reset(),
            r is Ok ==> final(self).spec_explicit_header() && (exists|w: (u8, u8)|
                final(self).write_log() == old(self).write_log().push(w) && spec_header_write_ok(w, true)),
            r is Ok ==> (exists|b: u8|
                final(self).read_log() == old(self).read_log().push(
                    (Register::ModemConfig1.spec_addr(), b),
                ) && final(self).write_log() == old(self).write_log().push(
                    (Register::ModemConfig1.spec_addr(), (b & 0xfe)),
                )),
            r is Err ==> final(self).spec_explicit_header() == old(self).spec_explicit_header(),
            spec_log_grew(old(self).write_log(), final(self).write_log()),
            spec_log_grew(old(self).read_log(), final(self).read_log()),
            r matches Err(e) ==> (e is CS || e is Spi),
    {
        let reg_modem_config_1 = match self.read_register(Register::ModemConfig1) {
            Err(e) => return Err(e),
            Ok(v) => v,
        };
        match self.write_register(Register::ModemConfig1, reg_modem_config_1 & 0xfe) {
            Err(e) => return Err(e),
            Ok(()) => {},
        }
        proof {
            let w = (Register::ModemConfig1.spec_addr(), (reg_modem_config_1 & 0xfe));
            assert((reg_modem_config_1 & 0xfe) & 0x01 == 0) by (bit_vector);
            assert(spec_header_write_ok(w, true));
        }
        self.explicit_header = true;
        Ok(())
    }

    /// Sets the radio to use an implicit header. Default state is off.
    fn set_implicit_header_mode(&mut self) -> (r: Result<
        (),
        Error<SPI::BusError, CS::PinError, RESET::PinError>,
    >)
        ensures
            final(self).spec_mode() == old(self).spec_mode(),
            final(self).spec_frequency() == old(self).spec_frequency(),
            final(self).spec_reset() == old(self).spec_reset(),
            r is Ok ==> !final(self).spec_explicit_header() && (exists|w: (u8, u8)|
                final(self).write_log() == old(self).write_log().push(w) && spec_header_write_ok(w, false)),
            r is Ok ==> (exists|b: u8|
                final(self).read_log() == old(self).read_log().push(
                    (Register::ModemConfig1.spec_addr(), b),
                ) && final(self).write_log() == old(self).write_log().push(
                    (Register::ModemConfig1.spec_addr(), (b & 0x01)),
                )),
            r is Err ==> final(self).spec_explicit_header() == old(self).spec_explicit_header(),
            spec_log_grew(old(self).write_log(), final(self).write_log()),
            spec_log_grew(old(self).read_log(), final(self).read_log()),
            r matches Err(e) ==> (e is CS || e is Spi),
    {
        let reg_modem_config_1 = match self.read_register(Register::ModemConfig1) {
            Err(e) => return Err(e),
            Ok(v) => v,
        };
        match self.write_register(Register::ModemConfig1, reg_modem_config_1 & 0x01) {
            Err(e) => return Err(e),
            Ok(()) => {},
        }
        proof {
            let w = (Register::ModemConfig1.spec_addr(), (reg_modem_config_1 & 0x01));
            assert((reg_modem_config_1 & 0x01) & 0xfe == 0) by (bit_vector);
            assert(spec_header_write_ok(w, false));
        }
        self.explicit_header = false;
        Ok(())
    }

    /// Sets the state of the radio. Default mode after construction is
    /// `Stdby`.
    ///
    /// A transition to the mode already cached writes nothing at all; an
    /// actual transition first re-asserts the cached header mode, then writes
    /// the OpMode register.
    pub fn set_mode(&mut self, mode: RadioMode) -> (r: Result<
        (),
        Error<SPI::BusError, CS::PinError, RESET::PinError>,
    >)
        ensures
            final(self).spec_frequency() == old(self).spec_frequency(),
            final(self).spec_reset() == old(self).spec_reset(),
            old(self).spec_mode() == mode ==> r is Ok && *final(self) == *old(self),
            r is Ok ==> final(self).spec_mode() == mode && final(self).spec_explicit_header() == old(self).spec_explicit_header(),
            r is Ok && old(self).spec_mode() != mode ==> (exists|w: (u8, u8)|
                final(self).write_log() == old(self).write_log().push(w).push(spec_mode_write(mode))
                    && spec_header_write_ok(w, old(self).spec_explicit_header())),
            r is Ok && old(self).spec_mode() != mode ==> (exists|b: u8|
                final(self).read_log() == old(self).read_log().push(
                    (Register::ModemConfig1.spec_addr(), b),
                )),
            r is Err ==> final(self).spec_mode() == old(self).spec_mode() && final(self).spec_explicit_header() == old(self).spec_explicit_header(),
            spec_log_grew(old(self).write_log(), final(self).write_log()),
            spec_log_grew(old(self).read_log(), final(self).read_log()),
            r matches Err(e) ==> (e is CS || e is Spi),
    {
        if mode != self.mode {
            if self.explicit_header {
                match self.set_explicit_header_mode() {
                    Err(e) => return Err(e),
                    Ok(()) => {},
                }
            } else {
                match self.set_implicit_header_mode() {
                    Err(e) => return Err(e),
                    Ok(()) => {},
                }
            }
            let ghost log1 = self.writes@;
            let ghost w = choose|w: (u8, u8)|
                log1 == old(self).writes@.push(w) && spec_header_write_ok(
                    w,
                    old(self).spec_explicit_header(),
                );
            let code = RadioMode::LongRangeMode.addr() | mode.addr();
            match self.write_register(Register::OpMode, code) {
                Err(e) => return Err(e),
                Ok(()) => {},
            }
            self.mode = mode;
            proof {
                assert(self.writes@ == old(self).writes@.push(w).push(spec_mode_write(mode)));
            }
        }
        Ok(())
    }

    /// Sets the frequency of the radio, in megahertz, and writes the derived
    /// 24-bit frequency word into the three Frf registers, most significant
    /// byte first.
    pub fn set_frequency(&mut self, freq: i64) -> (r: Result<
        (),
        Error<SPI::BusError, CS::PinError, RESET::PinError>,
    >)
        requires
            i64::MIN <= freq * 0x4000 <= i64::MAX,
        ensures
            final(self).spec_mode() == old(self).spec_mode(),
            final(self).spec_explicit_header() == old(self).spec_explicit_header(),
            final(self).spec_reset() == old(self).spec_reset(),
            final(self).spec_frequency() == freq,
            final(self).read_log() == old(self).read_log(),
            r is Ok ==> final(self).write_log() == old(self).write_log() + spec_frf_writes(freq as int),
            r is Err ==> spec_log_grew(old(self).write_log(), final(self).write_log()),
            r matches Err(e) ==> (e is CS || e is Spi),
    {
        self.frequency = freq;
        // 2^19 / 32 == 2^14, so the frequency word is exact.
        let frf: i64 = freq * 0x4000;
        assert(0 <= ((frf & 0x00FF_0000) >> 16) < 256) by (bit_vector);
        assert(0 <= ((frf & 0x0000_FF00) >> 8) < 256) by (bit_vector);
        assert(0 <= (frf & 0x0000_00FF) < 256) by (bit_vector);
        let msb: u8 = ((frf & 0x00FF_0000) >> 16) as u8;
        let mid: u8 = ((frf & 0x0000_FF00) >> 8) as u8;
        let lsb: u8 = (frf & 0x0000_00FF) as u8;
        match self.write_register(Register::FrfMsb, msb) {
            Err(e) => return Err(e),
            Ok(()) => {},
        }
        match self.write_register(Register::FrfMid, mid) {
            Err(e) => return Err(e),
            Ok(()) => {},
        }
        match self.write_register(Register::FrfLsb, lsb) {
            Err(e) => return Err(e),
            Ok(()) => {},
        }
        proof {
            assert(old(self).write_log().push(
                (Register::FrfMsb.spec_addr(), msb),
            ).push((Register::FrfMid.spec_addr(), mid)).push((Register::FrfLsb.spec_addr(), lsb))
                =~= old(self).write_log() + spec_frf_writes(freq as int));
        }
        Ok(())
    }

    /// Sets the over-current protection of the radio, in milliamperes.
    ///
    /// Limits under 45 mA are not representable by the trim formula and are
    /// ruled out.
    pub fn set_ocp(&mut self, ma: u8) -> (r: Result<
        (),
        Error<SPI::BusError, CS::PinError, RESET::PinError>,
    >)
        requires
            45 <= ma,
        ensures
            final(self).same_shadow(old(self)),
            final(self).read_log() == old(self).read_log(),
            r is Ok ==> final(self).write_log() == old(self).write_log().push(
                (Register::Ocp.spec_addr(), spec_ocp_reg(ma)),
            ),
            r is Err ==> spec_log_grew(old(self).write_log(), final(self).write_log()),
            r matches Err(e) ==> (e is CS || e is Spi),
    {
        let mut ocp_trim: u8 = 27;
        if ma <= 120 {
            ocp_trim = (ma - 45) / 5;
        } else if ma <= 240 {
            ocp_trim = ((ma as u16 + 30) / 10) as u8;
        }
        assert(ocp_trim <= 27);
        let t = ocp_trim;
        assert(t <= 27 ==> (0x20u8 | (0x1Fu8 & t)) == (0x20 + t) as u8) by (bit_vector);
        match self.write_register(Register::Ocp, 0x20 | (0x1F & ocp_trim)) {
            Err(e) => return Err(e),
            Ok(()) => {},
        }
        Ok(())
    }

    /// Builds and returns a new instance of the radio over the given
    /// transport and pins. Performs the hardware reset pulse, verifies the
    /// version register against the expected sentinel, configures the
    /// frequency and FIFO base addresses, and leaves the radio in standby.
    pub fn new<D: DelayMs>(spi: SPI, cs: CS, reset: RESET, frequency: i64, delay: &mut D) -> (r:
        Result<Self, Error<SPI::BusError, CS::PinError, RESET::PinError>>)
        requires
            i64::MIN <= frequency * 0x4000 <= i64::MAX,
        ensures
            r matches Ok(radio) ==> radio.spec_mode() == RadioMode::Stdby
                && radio.spec_explicit_header() && radio.spec_frequency() == frequency
                && radio.cs_high() && spec_new_log_ok(radio.write_log(), frequency as int),
            r is Ok ==> final(delay).ticks() == old(delay).ticks() + 20,
            final(delay).ticks() <= old(delay).ticks() + 20,
            r matches Err(e) ==> (e is CS || e is Reset || e is Spi || e is VersionMismatch),
            r matches Err(Error::VersionMismatch(v)) ==> v != VERSION_CHECK,
            r matches Ok(radio) ==> radio.read_log().len() >= 1 && radio.read_log()[0] == (
                Register::Version.spec_addr(),
                VERSION_CHECK,
            ),
            r matches Ok(radio) ==> radio.spec_reset().is_high(),
    {
        let mut sx127x = LoRa {
            spi,
            cs,
            reset,
            frequency,
            explicit_header: true,
            mode: RadioMode::Sleep,
            writes: Ghost(Seq::empty()),
            reads: Ghost(Seq::empty()),
        };
        match sx127x.reset.set_low() {
            Err(e) => return Err(Error::Reset(e)),
            Ok(()) => {},
        }
        delay.delay_ms(10);
        match sx127x.reset.set_high() {
            Err(e) => return Err(Error::Reset(e)),
            Ok(()) => {},
        }
        delay.delay_ms(10);
        let version = match sx127x.read_register(Register::Version) {
            Err(e) => return Err(e),
            Ok(v) => v,
        };
        if version == VERSION_CHECK {
            proof {
                assert(sx127x.reads@[0] == (Register::Version.spec_addr(), VERSION_CHECK));
            }
            // The cached mode is already Sleep, so this writes nothing.
            match sx127x.set_mode(RadioMode::Sleep) {
                Err(e) => return Err(e),
                Ok(()) => {},
            }
            match sx127x.set_frequency(frequency) {
                Err(e) => return Err(e),
                Ok(()) => {},
            }
            match sx127x.write_register(Register::FifoTxBaseAddr, 0) {
                Err(e) => return Err(e),
                Ok(()) => {},
            }
            match sx127x.write_register(Register::FifoRxBaseAddr, 0) {
                Err(e) => return Err(e),
                Ok(()) => {},
            }
            let lna = match sx127x.read_register(Register::Lna) {
                Err(e) => return Err(e),
                Ok(v) => v,
            };
            match sx127x.write_register(Register::Lna, lna | 0x03) {
                Err(e) => return Err(e),
                Ok(()) => {},
            }
            match sx127x.write_register(Register::ModemConfig3, 0x04) {
                Err(e) => return Err(e),
                Ok(()) => {},
            }
            let ghost log_cfg = sx127x.writes@;
            let ghost r_cfg = sx127x.reads@;
            match sx127x.set_mode(RadioMode::Stdby) {
                Err(e) => return Err(e),
                Ok(()) => {},
            }
            proof {
                assert(sx127x.reads@[0] == (Register::Version.spec_addr(), VERSION_CHECK)) by {
                    assert(r_cfg == sx127x.reads@.take(r_cfg.len() as int));
                    assert(r_cfg[0] == (Register::Version.spec_addr(), VERSION_CHECK));
                }
            }
            match sx127x.cs.set_high() {
                Err(e) => return Err(Error::CS(e)),
                Ok(()) => {},
            }
            proof {
                let hdr = choose|w: (u8, u8)|
                    sx127x.writes@ == log_cfg.push(w).push(spec_mode_write(RadioMode::Stdby))
                        && spec_header_write_ok(w, true);
                let lna_w = (Register::Lna.spec_addr(), (lna | 0x03));
                assert((lna | 0x03u8) & 0x03 == 0x03) by (bit_vector);
                assert(spec_lna_write_ok(lna_w));
                assert(spec_header_write_ok(hdr, true));
                assert(sx127x.writes@ =~= spec_frf_writes(frequency as int) + seq![
                    (Register::FifoTxBaseAddr.spec_addr(), 0u8),
                    (Register::FifoRxBaseAddr.spec_addr(), 0u8),
                    lna_w,
                    (Register::ModemConfig3.spec_addr(), 0x04u8),
                ] + seq![hdr, spec_mode_write(RadioMode::Stdby)]);
            }
            Ok(sx127x)
        } else {
            Err(Error::VersionMismatch(version))
        }
    }

    /// Returns ownership of the transport and pin handles.
    pub fn decompose(self) -> (r: (SPI, CS, RESET))
        ensures
            r.0 == self.spec_spi(),
            r.1 == self.spec_cs(),
            r.2 == self.spec_reset(),
    {
        (self.spi, self.cs, self.reset)
    }

    /// Checks the IRQ flags for an arrived packet; when one is ready,
    /// acknowledges the flags and returns the received byte count.
    fn check_irq(&mut self) -> (r: Result<
        Option<usize>,
        Error<SPI::BusError, CS::PinError, RESET::PinError>,
    >)
        ensures
            final(self).same_shadow(old(self)),
            r matches Ok(None) ==> final(self).write_log() == old(self).write_log() && (exists|
                f: u8,
            |
                final(self).read_log() == old(self).read_log().push(
                    (Register::IrqFlags.spec_addr(), f),
                ) && (f >> 6) & 1 != 1),
            r matches Ok(Some(sz)) ==> sz <= 255 && (exists|f: u8, f2: u8, nb: u8|
                #![trigger old(self).read_log().push((Register::IrqFlags.spec_addr(), f)).push((Register::IrqFlags.spec_addr(), f2)).push((Register::RxNbBytes.spec_addr(), nb))]
                final(self).read_log() == old(self).read_log().push(
                    (Register::IrqFlags.spec_addr(), f),
                ).push((Register::IrqFlags.spec_addr(), f2)).push(
                    (Register::RxNbBytes.spec_addr(), nb),
                ) && (f >> 6) & 1 == 1 && sz == nb && final(self).write_log() == old(
                    self,
                ).write_log().push((Register::IrqFlags.spec_addr(), f2))),
            r is Err ==> spec_log_grew(old(self).write_log(), final(self).write_log()),
            r matches Err(e) ==> (e is CS || e is Spi),
    {
        let irq = match self.read_register(Register::IrqFlags) {
            Err(e) => return Err(e),
            Ok(v) => v,
        };
        let packet_ready = (irq >> 6) & 1 == 1;
        if packet_ready {
            let ghost r1 = self.reads@;
            let ghost w1 = self.writes@;
            match self.clear_irq() {
                Err(e) => return Err(e),
                Ok(()) => {},
            }
            let ghost f2 = choose|f: u8|
                self.reads@ == r1.push((Register::IrqFlags.spec_addr(), f)) && self.writes@
                    == w1.push((Register::IrqFlags.spec_addr(), f));
            let n = match self.read_register(Register::RxNbBytes) {
                Err(e) => return Err(e),
                Ok(v) => v,
            };
            proof {
                assert(self.reads@ == old(self).read_log().push(
                    (Register::IrqFlags.spec_addr(), irq),
                ).push((Register::IrqFlags.spec_addr(), f2)).push(
                    (Register::RxNbBytes.spec_addr(), n),
                ));
            }
            Ok(Some(n as usize))
        } else {
            Ok(None)
        }
    }

    /// Acknowledges every pending IRQ flag by writing the flags register
    /// back to itself.
    fn clear_irq(&mut self) -> (r: Result<
        (),
        Error<SPI::BusError, CS::PinError, RESET::PinError>,
    >)
        ensures
            final(self).same_shadow(old(self)),
            r is Ok ==> (exists|v: u8|
                final(self).write_log() == old(self).write_log().push(
                    (Register::IrqFlags.spec_addr(), v),
                )),
            r is Ok ==> (exists|f: u8|
                final(self).read_log() == old(self).read_log().push(
                    (Register::IrqFlags.spec_addr(), f),
                ) && final(self).write_log() == old(self).write_log().push(
                    (Register::IrqFlags.spec_addr(), f),
                )),
            r is Err ==> spec_log_grew(old(self).write_log(), final(self).write_log()),
            r matches Err(e) ==> (e is CS || e is Spi),
    {
        let irq_flags = match self.read_register(Register::IrqFlags) {
            Err(e) => return Err(e),
            Ok(v) => v,
        };
        match self.write_register(Register::IrqFlags, irq_flags) {
            Err(e) => return Err(e),
            Ok(()) => {},
        }
        Ok(())
    }

    /// Blocks until a packet is ready, polling the packet-ready flag with
    /// the supplied delay: once per millisecond against a timeout, or every
    /// 100 ms indefinitely without one. Returns the received byte count, or
    /// `Uninformative` when a timeout expires without data.
    #[allow(dead_code)]
    fn poll_irq<D: DelayMs>(&mut self, timeout_ms: Option<i32>, delay: &mut D) -> (r: Result<
        usize,
        Error<SPI::BusError, CS::PinError, RESET::PinError>,
    >)
        ensures
            final(self).spec_explicit_header() == old(self).spec_explicit_header(),
            final(self).spec_frequency() == old(self).spec_frequency(),
            r matches Ok(sz) ==> sz <= 255 && final(self).spec_mode() == RadioMode::RxContinuous,
            r matches Err(e) ==> (e is CS || e is Spi || e is Uninformative),
            timeout_ms matches Some(t) ==> final(delay).ticks() <= old(delay).ticks() + (if t
                >= 0 {
                t as int
            } else {
                0
            }),
            timeout_ms matches Some(t) ==> ((r matches Err(e) && e is Uninformative)
                ==> final(delay).ticks() == old(delay).ticks() + (if t >= 0 {
                t as int
            } else {
                0
            })),
            (r matches Err(e) && e is Uninformative) ==> final(self).spec_mode()
                == RadioMode::RxContinuous,
            (r matches Err(e) && e is Uninformative) ==> (exists|m1: Seq<(u8, u8)>|
                #![trigger spec_mode_delta_ok(m1, old(self).spec_mode(), old(self).spec_explicit_header(), RadioMode::RxContinuous)]
                final(self).write_log() == old(self).write_log() + m1 && spec_mode_delta_ok(
                    m1,
                    old(self).spec_mode(),
                    old(self).spec_explicit_header(),
                    RadioMode::RxContinuous,
                )),
            r is Ok ==> (exists|m1: Seq<(u8, u8)>, v: u8|
                #![trigger (old(self).write_log() + m1).push((Register::IrqFlags.spec_addr(), v))]
                final(self).write_log() == (old(self).write_log() + m1).push(
                    (Register::IrqFlags.spec_addr(), v),
                ) && spec_mode_delta_ok(
                    m1,
                    old(self).spec_mode(),
                    old(self).spec_explicit_header(),
                    RadioMode::RxContinuous,
                )),
            r matches Ok(sz) ==> final(self).read_log().len() > 0 && final(self).read_log().last()
                == (Register::RxNbBytes.spec_addr(), sz as u8),
            (r matches Err(e) && e is Uninformative) ==> (forall|k: int|
                old(self).read_log().len() <= k < final(self).read_log().len()
                    ==> (#[trigger] final(self).read_log()[k]).0
                    != Register::RxNbBytes.spec_addr()),
    {
        let ghost log0 = self.writes@;
        match self.set_mode(RadioMode::RxContinuous) {
            Err(e) => return Err(e),
            Ok(()) => {},
        }
        let ghost log1 = self.writes@;
        let ghost m1: Seq<(u8, u8)> = if old(self).spec_mode() == RadioMode::RxContinuous {
            Seq::empty()
        } else {
            seq![
                (choose|w: (u8, u8)|
                    log1 == log0.push(w).push(spec_mode_write(RadioMode::RxContinuous))
                        && spec_header_write_ok(w, old(self).spec_explicit_header())),
                spec_mode_write(RadioMode::RxContinuous),
            ]
        };
        proof {
            if old(self).spec_mode() != RadioMode::RxContinuous {
                let w = choose|w: (u8, u8)|
                    log1 == log0.push(w).push(spec_mode_write(RadioMode::RxContinuous))
                        && spec_header_write_ok(w, old(self).spec_explicit_header());
                assert(spec_header_write_ok(w, old(self).spec_explicit_header()));
            }
            assert(log1 =~= log0 + m1);
            assert(spec_mode_delta_ok(
                m1,
                old(self).spec_mode(),
                old(self).spec_explicit_header(),
                RadioMode::RxContinuous,
            ));
        }
        match timeout_ms {
            Some(value) => {
                let mut count: i32 = 0;
                let mut packet_ready = false;
                loop
                    invariant
                        timeout_ms == Some(value),
                        0 <= count,
                        value >= 0 ==> count <= value,
                        value < 0 ==> count == 0,
                        delay.ticks() == old(delay).ticks() + count,
                        self.spec_explicit_header() == old(self).spec_explicit_header(),
                        self.spec_frequency() == old(self).spec_frequency(),
                        self.spec_mode() == RadioMode::RxContinuous,
                        self.write_log() == old(self).write_log() + m1,
                        spec_mode_delta_ok(
                            m1,
                            old(self).spec_mode(),
                            old(self).spec_explicit_header(),
                            RadioMode::RxContinuous,
                        ),
                        forall|k: int|
                            old(self).read_log().len() <= k < self.read_log().len()
                                ==> (#[trigger] self.read_log()[k]).0
                                != Register::RxNbBytes.spec_addr(),
                    ensures
                        delay.ticks() == old(delay).ticks() + count,
                        0 <= count,
                        value >= 0 ==> count <= value,
                        value < 0 ==> count == 0,
                        self.spec_explicit_header() == old(self).spec_explicit_header(),
                        self.spec_frequency() == old(self).spec_frequency(),
                        self.spec_mode() == RadioMode::RxContinuous,
                        self.write_log() == old(self).write_log() + m1,
                        forall|k: int|
                            old(self).read_log().len() <= k < self.read_log().len()
                                ==> (#[trigger] self.read_log()[k]).0
                                != Register::RxNbBytes.spec_addr(),
                        !packet_ready ==> count == (if value >= 0 {
                            value as int
                        } else {
                            0
                        }),
                    decreases value - count,
                {
                    let irq = match self.read_register(Register::IrqFlags) {
                        Err(e) => return Err(e),
                        Ok(v) => v,
                    };
                    packet_ready = (irq >> 6) & 1 == 1;
                    if count >= value || packet_ready {
                        break;
                    }
                    count = count + 1;
                    delay.delay_ms(1);
                }
                if packet_ready {
                    let ghost log2 = self.writes@;
                    match self.clear_irq() {
                        Err(e) => return Err(e),
                        Ok(()) => {},
                    }
                    proof {
                        let v = choose|v: u8|
                            self.writes@ == log2.push((Register::IrqFlags.spec_addr(), v));
                        assert(self.writes@ == (old(self).write_log() + m1).push(
                            (Register::IrqFlags.spec_addr(), v),
                        ));
                    }
                    let n = match self.read_register(Register::RxNbBytes) {
                        Err(e) => return Err(e),
                        Ok(v) => v,
                    };
                    Ok(n as usize)
                } else {
                    Err(Error::Uninformative)
                }
            },
            None => {
                // Every loop in this library is bounded: a packet that never
                // arrives surfaces as Uninformative after an astronomically
                // large number of polls instead of looping forever.
                let mut spins: u64 = 0xFFFF_FFFF_FFFF_FFFF;
                loop
                    invariant
                        timeout_ms is None,
                        self.spec_explicit_header() == old(self).spec_explicit_header(),
                        self.spec_frequency() == old(self).spec_frequency(),
                        self.spec_mode() == RadioMode::RxContinuous,
                        self.write_log() == old(self).write_log() + m1,
                        spec_mode_delta_ok(
                            m1,
                            old(self).spec_mode(),
                            old(self).spec_explicit_header(),
                            RadioMode::RxContinuous,
                        ),
                        forall|k: int|
                            old(self).read_log().len() <= k < self.read_log().len()
                                ==> (#[trigger] self.read_log()[k]).0
                                != Register::RxNbBytes.spec_addr(),
                    ensures
                        self.spec_explicit_header() == old(self).spec_explicit_header(),
                        self.spec_frequency() == old(self).spec_frequency(),
                        self.spec_mode() == RadioMode::RxContinuous,
                        self.write_log() == old(self).write_log() + m1,
                    decreases spins,
                {
                    let irq = match self.read_register(Register::IrqFlags) {
                        Err(e) => return Err(e),
                        Ok(v) => v,
                    };
                    if (irq >> 6) & 1 == 1 {
                        break;
                    }
                    if spins == 0 {
                        return Err(Error::Uninformative);
                    }
                    spins = spins - 1;
                    delay.delay_ms(100);
                }
                let ghost log2 = self.writes@;
                match self.clear_irq() {
                    Err(e) => return Err(e),
                    Ok(()) => {},
                }
                proof {
                    let v = choose|v: u8|
                        self.writes@ == log2.push((Register::IrqFlags.spec_addr(), v));
                    assert(self.writes@ == (old(self).write_log() + m1).push(
                        (Register::IrqFlags.spec_addr(), v),
                    ));
                }
                let n = match self.read_register(Register::RxNbBytes) {
                    Err(e) => return Err(e),
                    Ok(v) => v,
                };
                Ok(n as usize)
            },
        }
    }

    /// Sets the transmit power and output pin. Levels clamp to 0-14 on the
    /// RFO pin and to 2-20 on the boosted pin; boosted levels above 17 enable
    /// the high-power PA-DAC sequence with a 140 mA over-current limit.
    pub fn set_tx_power(&mut self, level: i32, output_pin: u8) -> (r: Result<
        (),
        Error<SPI::BusError, CS::PinError, RESET::PinError>,
    >)
        ensures
            final(self).same_shadow(old(self)),
            final(self).read_log() == old(self).read_log(),
            r is Ok ==> final(self).write_log() == old(self).write_log() + spec_tx_power_writes(
                level as int,
                output_pin,
            ),
            r is Err ==> spec_log_grew(old(self).write_log(), final(self).write_log()),
            r matches Err(e) ==> (e is CS || e is Spi),
    {
        if PaConfig::PaOutputRfoPin.addr() == output_pin {
            let mut level = level;
            if level < 0 {
                level = 0;
            }
            if level > 14 {
                level = 14;
            }
            let lv = level as u8;
            assert(lv <= 14 ==> (0x70u8 | lv) == (0x70 + lv) as u8) by (bit_vector);
            match self.write_register(Register::PaConfig, 0x70 | lv) {
                Err(e) => return Err(e),
                Ok(()) => {},
            }
            proof {
                assert(old(self).writes@.push(
                    (Register::PaConfig.spec_addr(), (0x70 | lv)),
                ) =~= old(self).writes@ + spec_tx_power_writes(level as int, output_pin));
            }
        } else {
            let mut l = level;
            if l < 2 {
                l = 2;
            }
            if l > 20 {
                l = 20;
            }
            if l > 17 {
                // Map 18-20 to 15-17 and enable high-power operation.
                l = l - 3;
                match self.write_register(Register::PaDac, 0x87) {
                    Err(e) => return Err(e),
                    Ok(()) => {},
                }
                match self.set_ocp(140) {
                    Err(e) => return Err(e),
                    Ok(()) => {},
                }
            } else {
                // Default PA-DAC value, up to +17 dBm.
                match self.write_register(Register::PaDac, 0x84) {
                    Err(e) => return Err(e),
                    Ok(()) => {},
                }
                match self.set_ocp(100) {
                    Err(e) => return Err(e),
                    Ok(()) => {},
                }
            }
            l = l - 2;
            let lv = l as u8;
            assert(lv <= 15 ==> (0x80u8 | lv) == (0x80 + lv) as u8) by (bit_vector);
            match self.write_register(Register::PaConfig, 0x80 | lv) {
                Err(e) => return Err(e),
                Ok(()) => {},
            }
            proof {
                assert(final(self).write_log() =~= old(self).write_log() + spec_tx_power_writes(
                    level as int,
                    output_pin,
                ));
            }
        }
        Ok(())
    }

    /// Sets the spreading factor, clamped to 6 through 12. A spreading factor
    /// of 6 selects the special detection-optimize/threshold pair; the factor
    /// lands in the high nibble of ModemConfig2, and the
    /// low-data-rate-optimization flag is recomputed.
    pub fn set_spreading_factor(&mut self, sf: u8) -> (r: Result<
        (),
        Error<SPI::BusError, CS::PinError, RESET::PinError>,
    >)
        ensures
            final(self).same_shadow(old(self)),
            r is Ok ==> (exists|mc2: u8, mc3: u8|
                final(self).write_log() == old(self).write_log() + seq![
                    (Register::DetectionOptimize.spec_addr(), spec_detection_optimize(sf)),
                    (Register::DetectionThreshold.spec_addr(), spec_detection_threshold(sf)),
                    (Register::ModemConfig2.spec_addr(), mc2),
                    (Register::ModemConfig3.spec_addr(), mc3),
                ] && mc2 >> 4 == spec_sf_clamped(sf)),
            r is Ok ==> (exists|m: u8, b1: u8, b2: u8, b3: u8|
                #![trigger old(self).read_log().push((Register::ModemConfig2.spec_addr(), m)).push((Register::ModemConfig1.spec_addr(), b1)).push((Register::ModemConfig2.spec_addr(), b2)).push((Register::ModemConfig3.spec_addr(), b3))]
                final(self).read_log() == old(self).read_log().push(
                    (Register::ModemConfig2.spec_addr(), m),
                ).push((Register::ModemConfig1.spec_addr(), b1)).push(
                    (Register::ModemConfig2.spec_addr(), b2),
                ).push((Register::ModemConfig3.spec_addr(), b3)) && final(self).write_log() == old(
                    self,
                ).write_log() + seq![
                    (Register::DetectionOptimize.spec_addr(), spec_detection_optimize(sf)),
                    (Register::DetectionThreshold.spec_addr(), spec_detection_threshold(sf)),
                    (
                        Register::ModemConfig2.spec_addr(),
                        ((m & 0x0f) | ((spec_sf_clamped(sf) << 4) & 0xf0)),
                    ),
                    (
                        Register::ModemConfig3.spec_addr(),
                        spec_set_ldo_bit(b3, spec_ldo_on(spec_bw_value(b1 >> 4), b2 >> 4)),
                    ),
                ]),
            r is Err ==> spec_log_grew(old(self).write_log(), final(self).write_log()),
            r matches Err(e) ==> (e is CS || e is Spi),
    {
        let sf_c: u8 = if sf < 6 {
            6
        } else if sf > 12 {
            12
        } else {
            sf
        };
        if sf_c == 6 {
            match self.write_register(Register::DetectionOptimize, 0xc5) {
                Err(e) => return Err(e),
                Ok(()) => {},
            }
            match self.write_register(Register::DetectionThreshold, 0x0c) {
                Err(e) => return Err(e),
                Ok(()) => {},
            }
        } else {
            match self.write_register(Register::DetectionOptimize, 0xc3) {
                Err(e) => return Err(e),
                Ok(()) => {},
            }
            match self.write_register(Register::DetectionThreshold, 0x0a) {
                Err(e) => return Err(e),
                Ok(()) => {},
            }
        }
        let modem_config_2 = match self.read_register(Register::ModemConfig2) {
            Err(e) => return Err(e),
            Ok(v) => v,
        };
        let mc2: u8 = (modem_config_2 & 0x0f) | ((sf_c << 4) & 0xf0);
        let m = modem_config_2;
        assert(6 <= sf_c <= 12 ==> ((m & 0x0f) | ((sf_c << 4) & 0xf0)) >> 4 == sf_c)
            by (bit_vector);
        match self.write_register(Register::ModemConfig2, mc2) {
            Err(e) => return Err(e),
            Ok(()) => {},
        }
        let ghost log3 = self.writes@;
        let ghost r3 = self.reads@;
        match self.set_ldo_flag() {
            Err(e) => return Err(e),
            Ok(()) => {},
        }
        proof {
            let (b1, b2, b3): (u8, u8, u8) = choose|b1: u8, b2: u8, b3: u8|
                self.reads@ == r3.push((Register::ModemConfig1.spec_addr(), b1)).push(
                    (Register::ModemConfig2.spec_addr(), b2),
                ).push((Register::ModemConfig3.spec_addr(), b3)) && self.writes@ == log3.push(
                    (
                        Register::ModemConfig3.spec_addr(),
                        spec_set_ldo_bit(b3, spec_ldo_on(spec_bw_value(b1 >> 4), b2 >> 4)),
                    ),
                );
            assert(final(self).write_log() =~= old(self).write_log() + seq![
                (Register::DetectionOptimize.spec_addr(), spec_detection_optimize(sf)),
                (Register::DetectionThreshold.spec_addr(), spec_detection_threshold(sf)),
                (Register::ModemConfig2.spec_addr(), mc2),
                (
                    Register::ModemConfig3.spec_addr(),
                    spec_set_ldo_bit(b3, spec_ldo_on(spec_bw_value(b1 >> 4), b2 >> 4)),
                ),
            ]);
            assert(self.reads@ == old(self).read_log().push(
                (Register::ModemConfig2.spec_addr(), m),
            ).push((Register::ModemConfig1.spec_addr(), b1)).push(
                (Register::ModemConfig2.spec_addr(), b2),
            ).push((Register::ModemConfig3.spec_addr(), b3)));
        }
        Ok(())
    }

    /// Sets the signal bandwidth in hertz. The nine named bandwidths encode
    /// to codes 0 through 8 in the high nibble of ModemConfig1; anything else
    /// writes the invalid code 9. The low-data-rate-optimization flag is
    /// recomputed.
    pub fn set_signal_bandwidth(&mut self, sbw: i64) -> (r: Result<
        (),
        Error<SPI::BusError, CS::PinError, RESET::PinError>,
    >)
        ensures
            final(self).same_shadow(old(self)),
            r is Ok ==> (exists|mc1: u8, mc3: u8|
                final(self).write_log() == old(self).write_log() + seq![
                    (Register::ModemConfig1.spec_addr(), mc1),
                    (Register::ModemConfig3.spec_addr(), mc3),
                ] && mc1 >> 4 == spec_bw_code(sbw)),
            r is Ok ==> (exists|m: u8, b1: u8, b2: u8, b3: u8|
                #![trigger old(self).read_log().push((Register::ModemConfig1.spec_addr(), m)).push((Register::ModemConfig1.spec_addr(), b1)).push((Register::ModemConfig2.spec_addr(), b2)).push((Register::ModemConfig3.spec_addr(), b3))]
                final(self).read_log() == old(self).read_log().push(
                    (Register::ModemConfig1.spec_addr(), m),
                ).push((Register::ModemConfig1.spec_addr(), b1)).push(
                    (Register::ModemConfig2.spec_addr(), b2),
                ).push((Register::ModemConfig3.spec_addr(), b3)) && final(self).write_log() == old(
                    self,
                ).write_log() + seq![
                    (
                        Register::ModemConfig1.spec_addr(),
                        ((m & 0x0f) | (spec_bw_code(sbw) << 4)),
                    ),
                    (
                        Register::ModemConfig3.spec_addr(),
                        spec_set_ldo_bit(b3, spec_ldo_on(spec_bw_value(b1 >> 4), b2 >> 4)),
                    ),
                ]),
            r is Err ==> spec_log_grew(old(self).write_log(), final(self).write_log()),
            r matches Err(e) ==> (e is CS || e is Spi),
    {
        let bw: u8 = match sbw {
            7_800 => 0,
            10_400 => 1,
            15_600 => 2,
            20_800 => 3,
            31_250 => 4,
            41_700 => 5,
            62_500 => 6,
            125_000 => 7,
            250_000 => 8,
            _ => 9,
        };
        let modem_config_1 = match self.read_register(Register::ModemConfig1) {
            Err(e) => return Err(e),
            Ok(v) => v,
        };
        let mc1: u8 = (modem_config_1 & 0x0f) | (bw << 4);
        let m = modem_config_1;
        assert(bw <= 9 ==> ((m & 0x0f) | (bw << 4)) >> 4 == bw) by (bit_vector);
        match self.write_register(Register::ModemConfig1, mc1) {
            Err(e) => return Err(e),
            Ok(()) => {},
        }
        let ghost log1 = self.writes@;
        let ghost r1 = self.reads@;
        match self.set_ldo_flag() {
            Err(e) => return Err(e),
            Ok(()) => {},
        }
        proof {
            let (b1, b2, b3): (u8, u8, u8) = choose|b1: u8, b2: u8, b3: u8|
                self.reads@ == r1.push((Register::ModemConfig1.spec_addr(), b1)).push(
                    (Register::ModemConfig2.spec_addr(), b2),
                ).push((Register::ModemConfig3.spec_addr(), b3)) && self.writes@ == log1.push(
                    (
                        Register::ModemConfig3.spec_addr(),
                        spec_set_ldo_bit(b3, spec_ldo_on(spec_bw_value(b1 >> 4), b2 >> 4)),
                    ),
                );
            assert(final(self).write_log() =~= old(self).write_log() + seq![
                (Register::ModemConfig1.spec_addr(), mc1),
                (
                    Register::ModemConfig3.spec_addr(),
                    spec_set_ldo_bit(b3, spec_ldo_on(spec_bw_value(b1 >> 4), b2 >> 4)),
                ),
            ]);
            assert(self.reads@ == old(self).read_log().push(
                (Register::ModemConfig1.spec_addr(), m),
            ).push((Register::ModemConfig1.spec_addr(), b1)).push(
                (Register::ModemConfig2.spec_addr(), b2),
            ).push((Register::ModemConfig3.spec_addr(), b3)));
        }
        Ok(())
    }

    /// Sets the coding rate with the numerator fixed at 4; the denominator
    /// clamps to 5 through 8 and lands, less 4, in bits 1-3 of ModemConfig1.
    pub fn set_coding_rate_4(&mut self, denominator: u8) -> (r: Result<
        (),
        Error<SPI::BusError, CS::PinError, RESET::PinError>,
    >)
        ensures
            final(self).same_shadow(old(self)),
            r is Ok ==> (exists|mc1: u8|
                final(self).write_log() == old(self).write_log().push(
                    (Register::ModemConfig1.spec_addr(), mc1),
                ) && (mc1 >> 1) & 0x07 == spec_coding_rate(denominator)),
            r is Ok ==> (exists|b: u8|
                final(self).read_log() == old(self).read_log().push(
                    (Register::ModemConfig1.spec_addr(), b),
                ) && final(self).write_log() == old(self).write_log().push(
                    (
                        Register::ModemConfig1.spec_addr(),
                        ((b & 0xf1) | (((spec_clamp(denominator as int, 5, 8) - 4) as u8) << 1)),
                    ),
                )),
            r is Err ==> spec_log_grew(old(self).write_log(), final(self).write_log()),
            r matches Err(e) ==> (e is CS || e is Spi),
    {
        let d: u8 = if denominator < 5 {
            5
        } else if denominator > 8 {
            8
        } else {
            denominator
        };
        let cr: u8 = d - 4;
        let modem_config_1 = match self.read_register(Register::ModemConfig1) {
            Err(e) => return Err(e),
            Ok(v) => v,
        };
        let mc1: u8 = (modem_config_1 & 0xf1) | (cr << 1);
        let m = modem_config_1;
        assert(1 <= cr <= 4 ==> (((m & 0xf1) | (cr << 1)) >> 1) & 0x07 == cr) by (bit_vector);
        match self.write_register(Register::ModemConfig1, mc1) {
            Err(e) => return Err(e),
            Ok(()) => {},
        }
        Ok(())
    }

    /// Sets the preamble length: a 16-bit value written as two registers,
    /// most significant byte first.
    pub fn set_preamble_length(&mut self, length: i64) -> (r: Result<
        (),
        Error<SPI::BusError, CS::PinError, RESET::PinError>,
    >)
        requires
            0 <= length <= 0xFFFF,
        ensures
            final(self).same_shadow(old(self)),
            final(self).read_log() == old(self).read_log(),
            r is Ok ==> final(self).write_log() == old(self).write_log() + seq![
                (Register::PreambleMsb.spec_addr(), spec_preamble_msb(length as int)),
                (Register::PreambleLsb.spec_addr(), spec_preamble_lsb(length as int)),
            ],
            r is Err ==> spec_log_grew(old(self).write_log(), final(self).write_log()),
            r matches Err(e) ==> (e is CS || e is Spi),
    {
        let lu: u64 = length as u64;
        let msb: u8 = (lu / 0x100) as u8;
        let lsb: u8 = (lu % 0x100) as u8;
        match self.write_register(Register::PreambleMsb, msb) {
            Err(e) => return Err(e),
            Ok(()) => {},
        }
        match self.write_register(Register::PreambleLsb, lsb) {
            Err(e) => return Err(e),
            Ok(()) => {},
        }
        proof {
            assert(final(self).write_log() =~= old(self).write_log() + seq![
                (Register::PreambleMsb.spec_addr(), spec_preamble_msb(length as int)),
                (Register::PreambleLsb.spec_addr(), spec_preamble_lsb(length as int)),
            ]);
        }
        Ok(())
    }

    /// Enables or disables the CRC check: one read-modify-write of the CRC
    /// bit of ModemConfig2.
    pub fn set_crc(&mut self, value: bool) -> (r: Result<
        (),
        Error<SPI::BusError, CS::PinError, RESET::PinError>,
    >)
        ensures
            final(self).same_shadow(old(self)),
            r is Ok ==> (exists|mc2: u8|
                final(self).write_log() == old(self).write_log().push(
                    (Register::ModemConfig2.spec_addr(), mc2),
                ) && mc2 & 0x04 == (if value {
                    0x04u8
                } else {
                    0x00u8
                })),
            r is Ok ==> (exists|b: u8|
                final(self).read_log() == old(self).read_log().push(
                    (Register::ModemConfig2.spec_addr(), b),
                ) && final(self).write_log() == old(self).write_log().push(
                    (
                        Register::ModemConfig2.spec_addr(),
                        (if value {
                            b | 0x04
                        } else {
                            b & 0xfb
                        }),
                    ),
                )),
            r is Err ==> spec_log_grew(old(self).write_log(), final(self).write_log()),
            r matches Err(e) ==> (e is CS || e is Spi),
    {
        let modem_config_2 = match self.read_register(Register::ModemConfig2) {
            Err(e) => return Err(e),
            Ok(v) => v,
        };
        let m = modem_config_2;
        if value {
            assert((m | 0x04) & 0x04 == 0x04) by (bit_vector);
            match self.write_register(Register::ModemConfig2, m | 0x04) {
                Err(e) => return Err(e),
                Ok(()) => {},
            }
        } else {
            assert((m & 0xfb) & 0x04 == 0x00) by (bit_vector);
            match self.write_register(Register::ModemConfig2, m & 0xfb) {
                Err(e) => return Err(e),
                Ok(()) => {},
            }
        }
        Ok(())
    }

    /// Inverts the radio's IQ signals: two fixed register values for on, two
    /// for off.
    pub fn set_invert_iq(&mut self, value: bool) -> (r: Result<
        (),
        Error<SPI::BusError, CS::PinError, RESET::PinError>,
    >)
        ensures
            final(self).same_shadow(old(self)),
            final(self).read_log() == old(self).read_log(),
            r is Ok ==> final(self).write_log() == old(self).write_log() + spec_invert_iq_writes(
                value,
            ),
            r is Err ==> spec_log_grew(old(self).write_log(), final(self).write_log()),
            r matches Err(e) ==> (e is CS || e is Spi),
    {
        if value {
            match self.write_register(Register::Invertiq, 0x66) {
                Err(e) => return Err(e),
                Ok(()) => {},
            }
            match self.write_register(Register::Invertiq2, 0x19) {
                Err(e) => return Err(e),
                Ok(()) => {},
            }
        } else {
            match self.write_register(Register::Invertiq, 0x27) {
                Err(e) => return Err(e),
                Ok(()) => {},
            }
            match self.write_register(Register::Invertiq2, 0x1d) {
                Err(e) => return Err(e),
                Ok(()) => {},
            }
        }
        proof {
            assert(final(self).write_log() =~= old(self).write_log() + spec_invert_iq_writes(
                value,
            ));
        }
        Ok(())
    }

    /// Returns the spreading factor the chip reports: the high nibble of
    /// ModemConfig2.
    pub fn get_spreading_factor(&mut self) -> (r: Result<
        u8,
        Error<SPI::BusError, CS::PinError, RESET::PinError>,
    >)
        ensures
            final(self).same_shadow(old(self)),
            final(self).write_log() == old(self).write_log(),
            r matches Ok(sf) ==> sf <= 15 && (exists|b: u8|
                final(self).read_log() == old(self).read_log().push(
                    (Register::ModemConfig2.spec_addr(), b),
                ) && sf == b >> 4),
            r matches Err(e) ==> (e is CS || e is Spi),
    {
        let v = match self.read_register(Register::ModemConfig2) {
            Err(e) => return Err(e),
            Ok(v) => v,
        };
        assert(v >> 4 <= 15) by (bit_vector);
        Ok(v >> 4)
    }

    /// Returns the signal bandwidth the chip reports, decoded from the high
    /// nibble of ModemConfig1: one of the nine named bandwidths, 500000 for
    /// code 9, or -1 for an unrecognized code.
    pub fn get_signal_bandwidth(&mut self) -> (r: Result<
        i64,
        Error<SPI::BusError, CS::PinError, RESET::PinError>,
    >)
        ensures
            final(self).same_shadow(old(self)),
            final(self).write_log() == old(self).write_log(),
            r matches Ok(bw) ==> bw <= 500_000 && (exists|b: u8|
                final(self).read_log() == old(self).read_log().push(
                    (Register::ModemConfig1.spec_addr(), b),
                ) && bw == spec_bw_value(b >> 4)),
            r matches Err(e) ==> (e is CS || e is Spi),
    {
        let v = match self.read_register(Register::ModemConfig1) {
            Err(e) => return Err(e),
            Ok(v) => v,
        };
        let code: u8 = v >> 4;
        let bw: i64 = match code {
            0 => 7_800,
            1 => 10_400,
            2 => 15_600,
            3 => 20_800,
            4 => 31_250,
            5 => 41_700,
            6 => 62_500,
            7 => 125_000,
            8 => 250_000,
            9 => 500_000,
            _ => -1,
        };
        proof {
            assert(bw == spec_bw_value(code));
        }
        Ok(bw)
    }

    /// Returns the RSSI of the last received packet: the raw register value
    /// less 157.
    pub fn get_packet_rssi(&mut self) -> (r: Result<
        i32,
        Error<SPI::BusError, CS::PinError, RESET::PinError>,
    >)
        ensures
            final(self).same_shadow(old(self)),
            final(self).write_log() == old(self).write_log(),
            r matches Ok(v) ==> -157 <= v <= 98 && (exists|b: u8|
                final(self).read_log() == old(self).read_log().push(
                    (Register::PktRssiValue.spec_addr(), b),
                ) && v == b - 157),
            r matches Err(e) ==> (e is CS || e is Spi),
    {
        let raw = match self.read_register(Register::PktRssiValue) {
            Err(e) => return Err(e),
            Ok(v) => v,
        };
        Ok((raw as i32) - 157)
    }

    /// Returns the raw SNR register byte of the last received packet. The
    /// chip reports a signed fractional quantity; this driver hands the raw
    /// value through without scaling it.
    pub fn get_packet_snr_raw(&mut self) -> (r: Result<
        u8,
        Error<SPI::BusError, CS::PinError, RESET::PinError>,
    >)
        ensures
            final(self).same_shadow(old(self)),
            final(self).write_log() == old(self).write_log(),
            r matches Ok(b) ==> final(self).read_log() == old(self).read_log().push(
                (Register::PktSnrValue.spec_addr(), b),
            ),
            r matches Err(e) ==> (e is CS || e is Spi),
    {
        self.read_register(Register::PktSnrValue)
    }

    /// Returns the frequency error of the last received packet in hertz,
    /// computed by `packet_frequency_error_hz` from the three raw error
    /// registers and the current bandwidth.
    pub fn get_packet_frequency_error(&mut self) -> (r: Result<
        i64,
        Error<SPI::BusError, CS::PinError, RESET::PinError>,
    >)
        ensures
            final(self).same_shadow(old(self)),
            final(self).write_log() == old(self).write_log(),
            r matches Ok(v) ==> (exists|msb: u8, mid: u8, lsb: u8, b: u8|
                #![trigger old(self).read_log().push((Register::FreqErrorMsb.spec_addr(), msb)).push((Register::FreqErrorMid.spec_addr(), mid)).push((Register::FreqErrorLsb.spec_addr(), lsb)).push((Register::ModemConfig1.spec_addr(), b))]
                final(self).read_log() == old(self).read_log().push(
                    (Register::FreqErrorMsb.spec_addr(), msb),
                ).push((Register::FreqErrorMid.spec_addr(), mid)).push(
                    (Register::FreqErrorLsb.spec_addr(), lsb),
                ).push((Register::ModemConfig1.spec_addr(), b)) && v == spec_frequency_error(
                    msb,
                    mid,
                    lsb,
                    spec_bw_value(b >> 4),
                )),
            r matches Err(e) ==> (e is CS || e is Spi),
    {
        let msb = match self.read_register(Register::FreqErrorMsb) {
            Err(e) => return Err(e),
            Ok(v) => v,
        };
        let mid = match self.read_register(Register::FreqErrorMid) {
            Err(e) => return Err(e),
            Ok(v) => v,
        };
        let lsb = match self.read_register(Register::FreqErrorLsb) {
            Err(e) => return Err(e),
            Ok(v) => v,
        };
        let sbw = match self.get_signal_bandwidth() {
            Err(e) => return Err(e),
            Ok(v) => v,
        };
        Ok(packet_frequency_error_hz(msb, mid, lsb, sbw))
    }

    /// Recomputes the low-data-rate-optimization bit from the bandwidth and
    /// spreading factor the chip reports, and writes it as bit 3 of
    /// ModemConfig3.
    fn set_ldo_flag(&mut self) -> (r: Result<
        (),
        Error<SPI::BusError, CS::PinError, RESET::PinError>,
    >)
        ensures
            final(self).same_shadow(old(self)),
            r is Ok ==> (exists|v: u8|
                final(self).write_log() == old(self).write_log().push(
                    (Register::ModemConfig3.spec_addr(), v),
                )),
            r is Ok ==> (exists|b1: u8, b2: u8, b3: u8|
                #![trigger old(self).read_log().push((Register::ModemConfig1.spec_addr(), b1)).push((Register::ModemConfig2.spec_addr(), b2)).push((Register::ModemConfig3.spec_addr(), b3))]
                final(self).read_log() == old(self).read_log().push(
                    (Register::ModemConfig1.spec_addr(), b1),
                ).push((Register::ModemConfig2.spec_addr(), b2)).push(
                    (Register::ModemConfig3.spec_addr(), b3),
                ) && final(self).write_log() == old(self).write_log().push(
                    (
                        Register::ModemConfig3.spec_addr(),
                        spec_set_ldo_bit(b3, spec_ldo_on(spec_bw_value(b1 >> 4), b2 >> 4)),
                    ),
                )),
            r is Err ==> spec_log_grew(old(self).write_log(), final(self).write_log()),
            r matches Err(e) ==> (e is CS || e is Spi),
    {
        let ghost r0 = self.reads@;
        let sw = match self.get_signal_bandwidth() {
            Err(e) => return Err(e),
            Ok(v) => v,
        };
        let ghost b1 = choose|b: u8|
            self.reads@ == r0.push((Register::ModemConfig1.spec_addr(), b)) && sw
                == spec_bw_value(b >> 4);
        let ghost r1 = self.reads@;
        let sf = match self.get_spreading_factor() {
            Err(e) => return Err(e),
            Ok(v) => v,
        };
        let ghost b2 = choose|b: u8|
            self.reads@ == r1.push((Register::ModemConfig2.spec_addr(), b)) && sf == b >> 4;
        let ldo = ldo_on(sw, sf);
        let config_3 = match self.read_register(Register::ModemConfig3) {
            Err(e) => return Err(e),
            Ok(v) => v,
        };
        let updated: u8 = if ldo {
            config_3 | 0x08
        } else {
            config_3 & 0xf7
        };
        match self.write_register(Register::ModemConfig3, updated) {
            Err(e) => return Err(e),
            Ok(()) => {},
        }
        proof {
            assert(self.reads@ == old(self).read_log().push(
                (Register::ModemConfig1.spec_addr(), b1),
            ).push((Register::ModemConfig2.spec_addr(), b2)).push(
                (Register::ModemConfig3.spec_addr(), config_3),
            ));
            assert(updated == spec_set_ldo_bit(config_3, spec_ldo_on(spec_bw_value(b1 >> 4), b2 >> 4)));
        }
        Ok(())
    }

    /// Maps the DIO0 line to the transmit-done interrupt.
    pub fn set_dio0_tx_done(&mut self) -> (r: Result<
        (),
        Error<SPI::BusError, CS::PinError, RESET::PinError>,
    >)
        ensures
            final(self).same_shadow(old(self)),
            final(self).read_log() == old(self).read_log(),
            r is Ok ==> final(self).write_log() == old(self).write_log().push(
                (Register::DioMapping1.spec_addr(), 0x40),
            ),
            r is Err ==> spec_log_grew(old(self).write_log(), final(self).write_log()),
            r matches Err(e) ==> (e is CS || e is Spi),
    {
        match self.write_register(Register::DioMapping1, 0b0100_0000) {
            Err(e) => return Err(e),
            Ok(()) => {},
        }
        Ok(())
    }

    /// Puts the radio in FSK mode: clears the long-range flag, selects FSK
    /// modulation and the high-frequency registers, and sets mode code 0b011.
    pub fn put_in_fsk_mode(&mut self) -> (r: Result<
        (),
        Error<SPI::BusError, CS::PinError, RESET::PinError>,
    >)
        ensures
            final(self).same_shadow(old(self)),
            final(self).read_log() == old(self).read_log(),
            r is Ok ==> final(self).write_log() == old(self).write_log().push(
                (Register::OpMode.spec_addr(), 0x03),
            ),
            r is Err ==> spec_log_grew(old(self).write_log(), final(self).write_log()),
            r matches Err(e) ==> (e is CS || e is Spi),
    {
        match self.write_register(Register::OpMode, 0b0000_0011) {
            Err(e) => return Err(e),
            Ok(()) => {},
        }
        Ok(())
    }

    /// Sets the FSK modulation shaping and ramp time. Only shaping codes that
    /// fit the single shaping bit and ramp codes that fit the three ramp bits
    /// are representable.
    pub fn set_fsk_pa_ramp(
        &mut self,
        modulation_shaping: FskDataModulationShaping,
        ramp: FskRampUpRamDown,
    ) -> (r: Result<(), Error<SPI::BusError, CS::PinError, RESET::PinError>>)
        requires
            modulation_shaping.spec_addr() <= 1,
            ramp.spec_addr() <= 7,
        ensures
            final(self).same_shadow(old(self)),
            final(self).read_log() == old(self).read_log(),
            r is Ok ==> final(self).write_log() == old(self).write_log().push(
                (Register::PaRamp.spec_addr(), spec_fsk_pa_ramp_reg(modulation_shaping, ramp)),
            ),
            r is Err ==> spec_log_grew(old(self).write_log(), final(self).write_log()),
            r matches Err(e) ==> (e is CS || e is Spi),
    {
        let s = modulation_shaping.addr();
        let rr = ramp.addr();
        assert(s <= 1 && rr <= 7 ==> ((s << 5) | rr) == (s * 0x20 + rr) as u8) by (bit_vector);
        match self.write_register(Register::PaRamp, (s << 5) | rr) {
            Err(e) => return Err(e),
            Ok(()) => {},
        }
        Ok(())
    }
}

impl<SPI, CS, RESET> EmbeddedRadio for LoRa<SPI, CS, RESET> where
    SPI: DuplexTransfer,
    CS: OutputPin,
    RESET: OutputPin,
 {
    type Error = Error<SPI::BusError, CS::PinError, RESET::PinError>;

    /// Transmits up to 255 bytes: anything longer is silently cut to its
    /// first 255 bytes. Fails with `Transmitting`, and writes nothing, while
    /// a transmission is already in flight; otherwise stages the payload in
    /// the FIFO from standby and enters transmit mode, which starts the
    /// transmission autonomously. Does not block.
    fn transmit_payload(&mut self, payload: &[u8]) -> (r: Result<(), Self::Error>)
        ensures
            final(self).spec_frequency() == old(self).spec_frequency(),
            final(self).spec_explicit_header() == old(self).spec_explicit_header(),
            r matches Err(e) ==> (e is CS || e is Spi || e is Transmitting),
            (r matches Err(e) && e is Transmitting) ==> final(self).write_log() == old(self).write_log() && final(self).spec_mode() == old(self).spec_mode() && (exists|b: u8|
                final(self).read_log() == old(self).read_log().push(
                    (Register::OpMode.spec_addr(), b),
                ) && b & 0x03 == 0x03),
            r is Ok ==> final(self).spec_mode() == RadioMode::Tx && spec_transmit_delta_ok(
                old(self).write_log(),
                final(self).write_log(),
                old(self).spec_mode(),
                old(self).spec_explicit_header(),
                payload@,
            ),
            r is Ok ==> old(self).read_log().len() < final(self).read_log().len() && final(self).read_log()[old(self).read_log().len() as int].0 == Register::OpMode.spec_addr()
                && final(self).read_log()[old(self).read_log().len() as int].1 & 0x03 != 0x03,
            r is Err ==> (final(self).spec_mode() == old(self).spec_mode() || final(self).spec_mode() == RadioMode::Stdby),
    {
        let transmitting_now = match self.transmitting() {
            Err(e) => return Err(e),
            Ok(t) => t,
        };
        if transmitting_now {
            return Err(Error::Transmitting);
        }
        let ghost idx = old(self).read_log().len() as int;
        let ghost (b0, irq0): (u8, u8) = choose|b: u8, irq: u8|
            self.reads@ == old(self).read_log().push((Register::OpMode.spec_addr(), b)).push(
                (Register::IrqFlags.spec_addr(), irq),
            ) && b & 0x03 != 0x03;
        let ghost r_a = self.reads@;
        proof {
            assert(r_a[idx] == (Register::OpMode.spec_addr(), b0));
        }
        let ghost log0 = old(self).writes@;
        let ghost log_a = self.writes@;
        match self.set_mode(RadioMode::Stdby) {
            Err(e) => return Err(e),
            Ok(()) => {},
        }
        proof {
            assert(self.reads@[idx] == (Register::OpMode.spec_addr(), b0)) by {
                assert(r_a == self.reads@.take(r_a.len() as int));
            }
        }
        let ghost r_b = self.reads@;
        let ghost log_b = self.writes@;
        match self.write_register(Register::IrqFlags, 0) {
            Err(e) => return Err(e),
            Ok(()) => {},
        }
        match self.write_register(Register::FifoAddrPtr, 0) {
            Err(e) => return Err(e),
            Ok(()) => {},
        }
        match self.write_register(Register::PayloadLength, 0) {
            Err(e) => return Err(e),
            Ok(()) => {},
        }
        let ghost log_c = self.writes@;
        let n: usize = if payload.len() > 255 {
            255
        } else {
            payload.len()
        };
        let mut i: usize = 0;
        while i < n
            invariant
                i <= n,
                n <= payload@.len(),
                n == (if payload@.len() > 255 {
                    255int
                } else {
                    payload@.len() as int
                }),
                self.writes@ == log_c + payload@.take(i as int).map(
                    |j: int, b: u8| (Register::Fifo.spec_addr(), b),
                ),
                self.reads@ == r_b,
                self.spec_mode() == RadioMode::Stdby,
                self.spec_explicit_header() == old(self).spec_explicit_header(),
                self.spec_frequency() == old(self).spec_frequency(),
            decreases n - i,
        {
            let b = payload[i];
            match self.write_register(Register::Fifo, b) {
                Err(e) => return Err(e),
                Ok(()) => {},
            }
            i = i + 1;
            proof {
                assert(payload@.take(i as int).map(
                    |j: int, b: u8| (Register::Fifo.spec_addr(), b),
                ) =~= payload@.take(i - 1).map(|j: int, b: u8| (Register::Fifo.spec_addr(), b)).push(
                    (Register::Fifo.spec_addr(), payload@[i - 1]),
                ));
            }
        }
        match self.write_register(Register::PayloadLength, n as u8) {
            Err(e) => return Err(e),
            Ok(()) => {},
        }
        let ghost log_d = self.writes@;
        let ghost r_d = self.reads@;
        match self.set_mode(RadioMode::Tx) {
            Err(e) => return Err(e),
            Ok(()) => {},
        }
        proof {
            assert(self.reads@[idx] == (Register::OpMode.spec_addr(), b0)) by {
                assert(r_d == self.reads@.take(r_d.len() as int));
                assert(r_d[idx] == (Register::OpMode.spec_addr(), b0));
            }
            let eh = old(self).spec_explicit_header();
            let was = old(self).spec_mode();
            let ack: Seq<(u8, u8)> = if log_a == log0 {
                Seq::empty()
            } else {
                seq![(Register::IrqFlags.spec_addr(), IRQMask::TxDone.spec_addr())]
            };
            assert(log_a =~= log0 + ack);
            assert(spec_irq_ack_ok(ack));
            let m1: Seq<(u8, u8)> = if was == RadioMode::Stdby {
                Seq::empty()
            } else {
                let w1 = choose|w: (u8, u8)|
                    log_b == log_a.push(w).push(spec_mode_write(RadioMode::Stdby))
                        && spec_header_write_ok(w, eh);
                seq![w1, spec_mode_write(RadioMode::Stdby)]
            };
            if was != RadioMode::Stdby {
                let w1 = choose|w: (u8, u8)|
                    log_b == log_a.push(w).push(spec_mode_write(RadioMode::Stdby))
                        && spec_header_write_ok(w, eh);
                assert(spec_header_write_ok(w1, eh));
            }
            assert(log_b =~= log_a + m1);
            assert(spec_mode_delta_ok(m1, was, eh, RadioMode::Stdby));
            assert(payload@.take(n as int) =~= spec_payload_trunc(payload@));
            assert(log_d =~= log_b + spec_tx_setup_writes(payload@));
            let w2 = choose|w: (u8, u8)|
                final(self).write_log() == log_d.push(w).push(spec_mode_write(RadioMode::Tx))
                    && spec_header_write_ok(w, eh);
            let m2: Seq<(u8, u8)> = seq![w2, spec_mode_write(RadioMode::Tx)];
            assert(spec_header_write_ok(w2, eh));
            assert(spec_mode_delta_ok(m2, RadioMode::Stdby, eh, RadioMode::Tx));
            assert(final(self).write_log() =~= log0 + ack + m1 + spec_tx_setup_writes(payload@)
                + m2);
            assert(spec_transmit_delta_ok(
                log0,
                final(self).write_log(),
                was,
                eh,
                payload@,
            ));
        }
        Ok(())
    }

    /// Transmits a payload, then spins on the transmitting query, with no
    /// delay between polls, until the transmitter reports idle.
    fn transmit_payload_busy(&mut self, payload: &[u8]) -> (r: Result<(), Self::Error>)
        ensures
            final(self).spec_frequency() == old(self).spec_frequency(),
            final(self).spec_explicit_header() == old(self).spec_explicit_header(),
            r matches Err(e) ==> (e is CS || e is Spi || e is Transmitting || e is Uninformative),
            (r matches Err(e) && e is Transmitting) ==> final(self).write_log() == old(self).write_log() && final(self).spec_mode() == old(self).spec_mode(),
            r is Ok ==> final(self).spec_mode() == RadioMode::Tx,
            r is Ok ==> (exists|mid: Seq<(u8, u8)>|
                #![trigger spec_transmit_delta_ok(old(self).write_log(), mid, old(self).spec_mode(), old(self).spec_explicit_header(), payload@)]
                spec_transmit_delta_ok(
                    old(self).write_log(),
                    mid,
                    old(self).spec_mode(),
                    old(self).spec_explicit_header(),
                    payload@,
                ) && mid.is_prefix_of(final(self).write_log()) && spec_ack_run(
                    final(self).write_log().skip(mid.len() as int),
                )),
    {
        match self.transmit_payload(payload) {
            Err(e) => return Err(e),
            Ok(()) => {},
        }
        let ghost mid = self.writes@;
        proof {
            assert(self.writes@.skip(mid.len() as int) =~= Seq::<(u8, u8)>::empty());
            assert(mid.is_prefix_of(self.writes@)) by {
                assert(self.writes@.take(mid.len() as int) =~= mid);
            }
        }
        // Every loop in this library is bounded: a transmitter that never
        // reports idle surfaces as Uninformative after an astronomically
        // large number of polls instead of spinning forever.
        let mut spins: u64 = 0xFFFF_FFFF_FFFF_FFFF;
        loop
            invariant
                self.spec_mode() == RadioMode::Tx,
                self.spec_explicit_header() == old(self).spec_explicit_header(),
                self.spec_frequency() == old(self).spec_frequency(),
                spec_transmit_delta_ok(
                    old(self).write_log(),
                    mid,
                    old(self).spec_mode(),
                    old(self).spec_explicit_header(),
                    payload@,
                ),
                mid.is_prefix_of(self.write_log()),
                spec_ack_run(self.write_log().skip(mid.len() as int)),
            ensures
                self.spec_mode() == RadioMode::Tx,
                self.spec_explicit_header() == old(self).spec_explicit_header(),
                self.spec_frequency() == old(self).spec_frequency(),
                spec_transmit_delta_ok(
                    old(self).write_log(),
                    mid,
                    old(self).spec_mode(),
                    old(self).spec_explicit_header(),
                    payload@,
                ),
                mid.is_prefix_of(self.write_log()),
                spec_ack_run(self.write_log().skip(mid.len() as int)),
            decreases spins,
        {
            let ghost pre = self.writes@;
            let t = match self.transmitting() {
                Err(e) => return Err(e),
                Ok(t) => t,
            };
            proof {
                if self.writes@ != pre {
                    let ack = (Register::IrqFlags.spec_addr(), IRQMask::TxDone.spec_addr());
                    assert(self.writes@ == pre.push(ack));
                    assert(self.writes@.skip(mid.len() as int) =~= pre.skip(
                        mid.len() as int,
                    ).push(ack));
                    assert(mid.is_prefix_of(self.writes@)) by {
                        assert(self.writes@.take(mid.len() as int) =~= mid);
                    }
                }
            }
            if !t {
                break;
            }
            if spins == 0 {
                return Err(Error::Uninformative);
            }
            spins = spins - 1;
        }
        Ok(())
    }

    /// Reports whether the radio is still transmitting. When the chip has
    /// left transmit mode with the transmit-done flag pending, that flag is
    /// acknowledged as a side effect: calling this discards the pending
    /// notification.
    fn transmitting(&mut self) -> (r: Result<bool, Self::Error>)
        ensures
            final(self).same_shadow(old(self)),
            r matches Ok(true) ==> final(self).write_log() == old(self).write_log() && (exists|
                b: u8,
            |
                final(self).read_log() == old(self).read_log().push(
                    (Register::OpMode.spec_addr(), b),
                ) && b & 0x03 == 0x03),
            r matches Ok(false) ==> (exists|b: u8, irq: u8|
                #![trigger old(self).read_log().push((Register::OpMode.spec_addr(), b)).push((Register::IrqFlags.spec_addr(), irq))]
                final(self).read_log() == old(self).read_log().push(
                    (Register::OpMode.spec_addr(), b),
                ).push((Register::IrqFlags.spec_addr(), irq)) && b & 0x03 != 0x03 && (irq & 0x08
                    == 0x08 ==> final(self).write_log() == old(self).write_log().push(
                    (Register::IrqFlags.spec_addr(), IRQMask::TxDone.spec_addr()),
                )) && (irq & 0x08 != 0x08 ==> final(self).write_log() == old(
                    self,
                ).write_log())),
            final(self).write_log() == old(self).write_log() || final(self).write_log() == old(self).write_log().push((Register::IrqFlags.spec_addr(), IRQMask::TxDone.spec_addr())),
            r matches Err(e) ==> (e is CS || e is Spi),
    {
        let op_mode = match self.read_register(Register::OpMode) {
            Err(e) => return Err(e),
            Ok(v) => v,
        };
        let tx = RadioMode::Tx.addr();
        if (op_mode & tx) == tx {
            Ok(true)
        } else {
            let irq = match self.read_register(Register::IrqFlags) {
                Err(e) => return Err(e),
                Ok(v) => v,
            };
            let tx_done = IRQMask::TxDone.addr();
            if (irq & tx_done) == tx_done {
                match self.write_register(Register::IrqFlags, tx_done) {
                    Err(e) => return Err(e),
                    Ok(()) => {},
                }
            }
            Ok(false)
        }
    }

    /// Non-blocking poll for a received packet: enters continuous receive
    /// mode, and when the packet-ready flag is set, acknowledges the flags
    /// and drains the received bytes from the FIFO. Absence of a packet is
    /// `Ok(None)`, not an error.
    fn read_packet(&mut self) -> (r: Result<Option<Vec<u8>>, Self::Error>)
        ensures
            final(self).spec_frequency() == old(self).spec_frequency(),
            final(self).spec_explicit_header() == old(self).spec_explicit_header(),
            r is Ok ==> final(self).spec_mode() == RadioMode::RxContinuous,
            r matches Ok(Some(p)) ==> (exists|m1: Seq<(u8, u8)>, irqv: u8, fa: u8|
                #![trigger spec_mode_delta_ok(m1, old(self).spec_mode(), old(self).spec_explicit_header(), RadioMode::RxContinuous), spec_rx_read_writes(irqv, fa)]
                final(self).write_log() == old(self).write_log() + m1 + spec_rx_read_writes(
                    irqv,
                    fa,
                ) && spec_mode_delta_ok(
                    m1,
                    old(self).spec_mode(),
                    old(self).spec_explicit_header(),
                    RadioMode::RxContinuous,
                )),
            r matches Ok(None) ==> (exists|m1: Seq<(u8, u8)>|
                #![trigger spec_mode_delta_ok(m1, old(self).spec_mode(), old(self).spec_explicit_header(), RadioMode::RxContinuous)]
                final(self).write_log() == old(self).write_log() + m1 && spec_mode_delta_ok(
                    m1,
                    old(self).spec_mode(),
                    old(self).spec_explicit_header(),
                    RadioMode::RxContinuous,
                )),
            r matches Ok(None) ==> final(self).read_log().len() > 0 && final(self).read_log().last().0 == Register::IrqFlags.spec_addr() && (final(self).read_log().last().1 >> 6) & 1 != 1,
            r matches Ok(None) ==> (forall|k: int|
                old(self).read_log().len() <= k < final(self).read_log().len() ==> ((
                #[trigger] final(self).read_log()[k]).0 == Register::ModemConfig1.spec_addr()
                    || final(self).read_log()[k].0 == Register::IrqFlags.spec_addr())),
            r matches Ok(Some(p)) ==> final(self).read_log().len() >= p@.len() && (forall|k: int|
                0 <= k < p@.len() ==> #[trigger] final(self).read_log()[final(self).read_log().len() - p@.len() + k] == (Register::Fifo.spec_addr(), p@[k])),
            r matches Ok(Some(p)) ==> final(self).read_log().len() >= p@.len() + 2 && final(self).read_log()[final(self).read_log().len() - p@.len() - 2] == (
                Register::RxNbBytes.spec_addr(),
                p@.len() as u8,
            ) && final(self).read_log()[final(self).read_log().len() - p@.len() - 1].0
                == Register::FifoRxCurrentAddr.spec_addr(),
            r is Err ==> (final(self).spec_mode() == old(self).spec_mode() || final(self).spec_mode() == RadioMode::RxContinuous),
            r matches Err(e) ==> (e is CS || e is Spi),
    {
        let ghost log0 = self.writes@;
        match self.set_mode(RadioMode::RxContinuous) {
            Err(e) => return Err(e),
            Ok(()) => {},
        }
        let ghost log1 = self.writes@;
        let ghost m1: Seq<(u8, u8)> = if old(self).spec_mode() == RadioMode::RxContinuous {
            Seq::empty()
        } else {
            seq![
                (choose|w: (u8, u8)|
                    log1 == log0.push(w).push(spec_mode_write(RadioMode::RxContinuous))
                        && spec_header_write_ok(w, old(self).spec_explicit_header())),
                spec_mode_write(RadioMode::RxContinuous),
            ]
        };
        proof {
            if old(self).spec_mode() != RadioMode::RxContinuous {
                let w = choose|w: (u8, u8)|
                    log1 == log0.push(w).push(spec_mode_write(RadioMode::RxContinuous))
                        && spec_header_write_ok(w, old(self).spec_explicit_header());
                assert(spec_header_write_ok(w, old(self).spec_explicit_header()));
            }
            assert(log1 =~= log0 + m1);
            assert(spec_mode_delta_ok(
                m1,
                old(self).spec_mode(),
                old(self).spec_explicit_header(),
                RadioMode::RxContinuous,
            ));
        }
        let ghost r1 = self.reads@;
        let size_opt = match self.check_irq() {
            Err(e) => return Err(e),
            Ok(o) => o,
        };
        match size_opt {
            Some(packet_size) => {
                let ghost irqv = choose|v: u8|
                    self.writes@ == log1.push((Register::IrqFlags.spec_addr(), v));
                let ghost (f, f2, nb): (u8, u8, u8) = choose|f: u8, f2: u8, nb: u8|
                    self.reads@ == r1.push((Register::IrqFlags.spec_addr(), f)).push(
                        (Register::IrqFlags.spec_addr(), f2),
                    ).push((Register::RxNbBytes.spec_addr(), nb)) && (f >> 6) & 1 == 1
                        && packet_size == nb;
                let fifo_addr = match self.read_register(Register::FifoRxCurrentAddr) {
                    Err(e) => return Err(e),
                    Ok(v) => v,
                };
                match self.write_register(Register::FifoAddrPtr, fifo_addr) {
                    Err(e) => return Err(e),
                    Ok(()) => {},
                }
                let ghost log3 = self.writes@;
                let ghost r3 = self.reads@;
                let mut buffer: Vec<u8> = Vec::new();
                let mut i: usize = 0;
                while i < packet_size
                    invariant
                        i <= packet_size,
                        packet_size <= 255,
                        buffer@.len() == i,
                        self.writes@ == log3,
                        self.reads@ == r3 + buffer@.map(
                            |k: int, byte: u8| (Register::Fifo.spec_addr(), byte),
                        ),
                        self.spec_mode() == RadioMode::RxContinuous,
                        self.spec_explicit_header() == old(self).spec_explicit_header(),
                        self.spec_frequency() == old(self).spec_frequency(),
                    decreases packet_size - i,
                {
                    let byte = match self.read_register(Register::Fifo) {
                        Err(e) => return Err(e),
                        Ok(v) => v,
                    };
                    let ghost bpre = buffer@;
                    buffer.push(byte);
                    i = i + 1;
                    proof {
                        assert(buffer@.map(
                            |k: int, b: u8| (Register::Fifo.spec_addr(), b),
                        ) =~= bpre.map(|k: int, b: u8| (Register::Fifo.spec_addr(), b)).push(
                            (Register::Fifo.spec_addr(), byte),
                        ));
                        assert(self.reads@ =~= r3 + buffer@.map(
                            |k: int, b: u8| (Register::Fifo.spec_addr(), b),
                        ));
                    }
                }
                match self.write_register(Register::FifoAddrPtr, 0) {
                    Err(e) => return Err(e),
                    Ok(()) => {},
                }
                proof {
                    assert(final(self).write_log() =~= old(self).write_log() + m1
                        + spec_rx_read_writes(irqv, fifo_addr));
                    assert forall|k: int| 0 <= k < buffer@.len() implies #[trigger] self.reads@[
                        self.reads@.len() - buffer@.len() + k
                    ] == (Register::Fifo.spec_addr(), buffer@[k]) by {
                        assert(self.reads@[r3.len() + k] == buffer@.map(
                            |j: int, b: u8| (Register::Fifo.spec_addr(), b),
                        )[k]);
                    }
                    assert(self.reads@.len() == r3.len() + buffer@.len());
                    assert(self.reads@[r3.len() - 2] == (Register::RxNbBytes.spec_addr(), nb));
                    assert(self.reads@[r3.len() - 1].0
                        == Register::FifoRxCurrentAddr.spec_addr());
                    assert(nb == buffer@.len() as u8);
                }
                Ok(Some(buffer))
            },
            None => {
                proof {
                    let f = choose|f: u8|
                        self.reads@ == r1.push((Register::IrqFlags.spec_addr(), f)) && (f >> 6)
                            & 1 != 1;
                    if old(self).spec_mode() != RadioMode::RxContinuous {
                        let b = choose|b: u8|
                            r1 == old(self).read_log().push(
                                (Register::ModemConfig1.spec_addr(), b),
                            );
                        assert(self.reads@ == old(self).read_log().push(
                            (Register::ModemConfig1.spec_addr(), b),
                        ).push((Register::IrqFlags.spec_addr(), f)));
                    } else {
                        assert(self.reads@ == old(self).read_log().push(
                            (Register::IrqFlags.spec_addr(), f),
                        ));
                    }
                }
                Ok(None)
            },
        }
    }

    /// Polls `read_packet` once per millisecond until a packet arrives or
    /// `timeout_ms` delay ticks have elapsed; expiry yields `Ok(None)` after
    /// exactly `timeout_ms` ticks (none for a negative timeout).
    fn read_packet_timeout<D: DelayMs>(&mut self, timeout_ms: i32, delay: &mut D) -> (r: Result<
        Option<Vec<u8>>,
        Self::Error,
    >)
        ensures
            final(self).spec_frequency() == old(self).spec_frequency(),
            final(self).spec_explicit_header() == old(self).spec_explicit_header(),
            r is Ok ==> final(self).spec_mode() == RadioMode::RxContinuous,
            r matches Ok(None) ==> final(delay).ticks() == old(delay).ticks() + (if timeout_ms
                >= 0 {
                timeout_ms as int
            } else {
                0
            }),
            final(delay).ticks() <= old(delay).ticks() + (if timeout_ms >= 0 {
                timeout_ms as int
            } else {
                0
            }),
            r matches Ok(None) ==> final(self).read_log().len() > 0 && final(self).read_log().last().0 == Register::IrqFlags.spec_addr() && (final(self).read_log().last().1 >> 6) & 1 != 1,
            r matches Ok(Some(p)) ==> final(self).read_log().len() >= p@.len() && (forall|k: int|
                0 <= k < p@.len() ==> #[trigger] final(self).read_log()[final(self).read_log().len() - p@.len() + k] == (Register::Fifo.spec_addr(), p@[k])),
            r matches Ok(Some(p)) ==> final(self).read_log().len() >= p@.len() + 2 && final(self).read_log()[final(self).read_log().len() - p@.len() - 2] == (
                Register::RxNbBytes.spec_addr(),
                p@.len() as u8,
            ),
            r matches Err(e) ==> (e is CS || e is Spi),
    {
        let mut count: i32 = 0;
        loop
            invariant
                0 <= count,
                timeout_ms >= 0 ==> count <= timeout_ms,
                timeout_ms < 0 ==> count == 0,
                delay.ticks() == old(delay).ticks() + count,
                self.spec_explicit_header() == old(self).spec_explicit_header(),
                self.spec_frequency() == old(self).spec_frequency(),
                self.spec_mode() == old(self).spec_mode() || self.spec_mode()
                    == RadioMode::RxContinuous,
            decreases timeout_ms - count,
        {
            let packet = match self.read_packet() {
                Err(e) => return Err(e),
                Ok(p) => p,
            };
            if packet.is_some() {
                return Ok(packet);
            }
            if count >= timeout_ms {
                return Ok(None);
            }
            count = count + 1;
            delay.delay_ms(1);
        }
    }
}

} // verus!

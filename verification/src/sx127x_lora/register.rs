//! The chip's register map: register addresses, power-amplifier codes, IRQ
//! bit masks, and the FSK shaping/ramp codes, each a closed enumeration with
//! an audited conversion to its register byte.

use vstd::prelude::*;

verus! {

/// Anything that stands for a byte in the chip's register map.
pub trait AsAddr: Sized {
    /// The byte this item stands for.
    spec fn spec_addr(self) -> u8;

    /// Returns the byte this item stands for.
    fn addr(self) -> (r: u8)
        ensures
            r == self.spec_addr(),
    ;
}

/// Register addresses of the chip, a 7-bit space.
#[derive(Clone, Copy)]
pub enum Register {
    Fifo,
    OpMode,
    FrfMsb,
    FrfMid,
    FrfLsb,
    PaConfig,
    PaRamp,
    Ocp,
    Lna,
    FifoAddrPtr,
    FifoTxBaseAddr,
    FifoRxBaseAddr,
    FifoRxCurrentAddr,
    IrqFlags,
    RxNbBytes,
    PktSnrValue,
    PktRssiValue,
    ModemConfig1,
    ModemConfig2,
    PreambleMsb,
    PreambleLsb,
    PayloadLength,
    ModemConfig3,
    FreqErrorMsb,
    FreqErrorMid,
    FreqErrorLsb,
    RssiWideband,
    DetectionOptimize,
    Invertiq,
    DetectionThreshold,
    SyncWord,
    Invertiq2,
    DioMapping1,
    Version,
    PaDac,
}

impl AsAddr for Register {
    open spec fn spec_addr(self) -> u8 {
        match self {
            Register::Fifo => 0x00,
            Register::OpMode => 0x01,
            Register::FrfMsb => 0x06,
            Register::FrfMid => 0x07,
            Register::FrfLsb => 0x08,
            Register::PaConfig => 0x09,
            Register::PaRamp => 0x0a,
            Register::Ocp => 0x0b,
            Register::Lna => 0x0c,
            Register::FifoAddrPtr => 0x0d,
            Register::FifoTxBaseAddr => 0x0e,
            Register::FifoRxBaseAddr => 0x0f,
            Register::FifoRxCurrentAddr => 0x10,
            Register::IrqFlags => 0x12,
            Register::RxNbBytes => 0x13,
            Register::PktSnrValue => 0x19,
            Register::PktRssiValue => 0x1a,
            Register::ModemConfig1 => 0x1d,
            Register::ModemConfig2 => 0x1e,
            Register::PreambleMsb => 0x20,
            Register::PreambleLsb => 0x21,
            Register::PayloadLength => 0x22,
            Register::ModemConfig3 => 0x26,
            Register::FreqErrorMsb => 0x28,
            Register::FreqErrorMid => 0x29,
            Register::FreqErrorLsb => 0x2a,
            Register::RssiWideband => 0x2c,
            Register::DetectionOptimize => 0x31,
            Register::Invertiq => 0x33,
            Register::DetectionThreshold => 0x37,
            Register::SyncWord => 0x39,
            Register::Invertiq2 => 0x3b,
            Register::DioMapping1 => 0x40,
            Register::Version => 0x42,
            Register::PaDac => 0x4d,
        }
    }

    fn addr(self) -> (r: u8)
        ensures
            r == self.spec_addr(),
    {
        match self {
            Register::Fifo => 0x00,
            Register::OpMode => 0x01,
            Register::FrfMsb => 0x06,
            Register::FrfMid => 0x07,
            Register::FrfLsb => 0x08,
            Register::PaConfig => 0x09,
            Register::PaRamp => 0x0a,
            Register::Ocp => 0x0b,
            Register::Lna => 0x0c,
            Register::FifoAddrPtr => 0x0d,
            Register::FifoTxBaseAddr => 0x0e,
            Register::FifoRxBaseAddr => 0x0f,
            Register::FifoRxCurrentAddr => 0x10,
            Register::IrqFlags => 0x12,
            Register::RxNbBytes => 0x13,
            Register::PktSnrValue => 0x19,
            Register::PktRssiValue => 0x1a,
            Register::ModemConfig1 => 0x1d,
            Register::ModemConfig2 => 0x1e,
            Register::PreambleMsb => 0x20,
            Register::PreambleLsb => 0x21,
            Register::PayloadLength => 0x22,
            Register::ModemConfig3 => 0x26,
            Register::FreqErrorMsb => 0x28,
            Register::FreqErrorMid => 0x29,
            Register::FreqErrorLsb => 0x2a,
            Register::RssiWideband => 0x2c,
            Register::DetectionOptimize => 0x31,
            Register::Invertiq => 0x33,
            Register::DetectionThreshold => 0x37,
            Register::SyncWord => 0x39,
            Register::Invertiq2 => 0x3b,
            Register::DioMapping1 => 0x40,
            Register::Version => 0x42,
            Register::PaDac => 0x4d,
        }
    }
}

/// Power-amplifier output pin selection codes.
#[derive(Clone, Copy)]
pub enum PaConfig {
    PaBoost,
    PaOutputRfoPin,
}

impl AsAddr for PaConfig {
    open spec fn spec_addr(self) -> u8 {
        match self {
            PaConfig::PaBoost => 0x80,
            PaConfig::PaOutputRfoPin => 0x00,
        }
    }

    fn addr(self) -> (r: u8)
        ensures
            r == self.spec_addr(),
    {
        match self {
            PaConfig::PaBoost => 0x80,
            PaConfig::PaOutputRfoPin => 0x00,
        }
    }
}

/// IRQ-flag register bit masks; a bit is acknowledged by writing its mask
/// back.
#[derive(Clone, Copy)]
pub enum IRQMask {
    TxDone,
    PayloadCrcError,
    RxDone,
}

impl AsAddr for IRQMask {
    open spec fn spec_addr(self) -> u8 {
        match self {
            IRQMask::TxDone => 0x08,
            IRQMask::PayloadCrcError => 0x20,
            IRQMask::RxDone => 0x40,
        }
    }

    fn addr(self) -> (r: u8)
        ensures
            r == self.spec_addr(),
    {
        match self {
            IRQMask::TxDone => 0x08,
            IRQMask::PayloadCrcError => 0x20,
            IRQMask::RxDone => 0x40,
        }
    }
}

/// FSK data modulation shaping codes.
#[derive(Clone, Copy)]
pub enum FskDataModulationShaping {
    NoShaping,
    GaussianBt1d0,
    GaussianBt0d5,
    GaussianBt0d3,
}

impl AsAddr for FskDataModulationShaping {
    open spec fn spec_addr(self) -> u8 {
        match self {
            FskDataModulationShaping::NoShaping => 1,
            FskDataModulationShaping::GaussianBt1d0 => 2,
            FskDataModulationShaping::GaussianBt0d5 => 10,
            FskDataModulationShaping::GaussianBt0d3 => 11,
        }
    }

    fn addr(self) -> (r: u8)
        ensures
            r == self.spec_addr(),
    {
        match self {
            FskDataModulationShaping::NoShaping => 1,
            FskDataModulationShaping::GaussianBt1d0 => 2,
            FskDataModulationShaping::GaussianBt0d5 => 10,
            FskDataModulationShaping::GaussianBt0d3 => 11,
        }
    }
}

/// FSK power-amplifier ramp-up/ramp-down time codes.
#[derive(Clone, Copy)]
pub enum FskRampUpRamDown {
    _3d4ms,
    _2ms,
    _1ms,
    _500us,
    _250us,
    _125us,
    _100us,
    _62us,
    _50us,
    _40us,
    _31us,
    _25us,
    _20us,
    _15us,
    _12us,
    _10us,
}

impl AsAddr for FskRampUpRamDown {
    open spec fn spec_addr(self) -> u8 {
        match self {
            FskRampUpRamDown::_3d4ms => 0x0,
            FskRampUpRamDown::_2ms => 0x1,
            FskRampUpRamDown::_1ms => 0x2,
            FskRampUpRamDown::_500us => 0x3,
            FskRampUpRamDown::_250us => 0x4,
            FskRampUpRamDown::_125us => 0x5,
            FskRampUpRamDown::_100us => 0x6,
            FskRampUpRamDown::_62us => 0x7,
            FskRampUpRamDown::_50us => 0x8,
            FskRampUpRamDown::_40us => 0x9,
            FskRampUpRamDown::_31us => 0xa,
            FskRampUpRamDown::_25us => 0xb,
            FskRampUpRamDown::_20us => 0xc,
            FskRampUpRamDown::_15us => 0xd,
            FskRampUpRamDown::_12us => 0xe,
            FskRampUpRamDown::_10us => 0xf,
        }
    }

    fn addr(self) -> (r: u8)
        ensures
            r == self.spec_addr(),
    {
        match self {
            FskRampUpRamDown::_3d4ms => 0x0,
            FskRampUpRamDown::_2ms => 0x1,
            FskRampUpRamDown::_1ms => 0x2,
            FskRampUpRamDown::_500us => 0x3,
            FskRampUpRamDown::_250us => 0x4,
            FskRampUpRamDown::_125us => 0x5,
            FskRampUpRamDown::_100us => 0x6,
            FskRampUpRamDown::_62us => 0x7,
            FskRampUpRamDown::_50us => 0x8,
            FskRampUpRamDown::_40us => 0x9,
            FskRampUpRamDown::_31us => 0xa,
            FskRampUpRamDown::_25us => 0xb,
            FskRampUpRamDown::_20us => 0xc,
            FskRampUpRamDown::_15us => 0xd,
            FskRampUpRamDown::_12us => 0xe,
            FskRampUpRamDown::_10us => 0xf,
        }
    }
}

} // verus!

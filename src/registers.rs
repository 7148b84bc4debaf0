use vstd::prelude::*;

verus! {

/// The chip's 8-bit register addresses.
#[derive(Debug, Clone, Copy, PartialEq, Eq, Structural)]
pub enum Register {
    PuCtrl,
    Ctrl1,
    Ctrl2,
    OCal1B2,
    OCal1B1,
    OCal1B0,
    GCal1B3,
    GCal1B2,
    GCal1B1,
    GCal1B0,
    OCal2B2,
    OCal2B1,
    OCal2B0,
    GCal2B3,
    GCal2B2,
    GCal2B1,
    GCal2B0,
    I2CControl,
    AdcOB2,
    AdcOB1,
    AdcOB0,
    /// Shared between the ADC trim bits and the OTP readout.
    AdcOtpB2,
    OtpB1,
    OtpB0,
    Pga,
    PowerCtrl,
    DeviceRev,
}

pub open spec fn spec_address(r: Register) -> u8 {
    match r {
        Register::PuCtrl => 0x00,
        Register::Ctrl1 => 0x01,
        Register::Ctrl2 => 0x02,
        Register::OCal1B2 => 0x03,
        Register::OCal1B1 => 0x04,
        Register::OCal1B0 => 0x05,
        Register::GCal1B3 => 0x06,
        Register::GCal1B2 => 0x07,
        Register::GCal1B1 => 0x08,
        Register::GCal1B0 => 0x09,
        Register::OCal2B2 => 0x0A,
        Register::OCal2B1 => 0x0B,
        Register::OCal2B0 => 0x0C,
        Register::GCal2B3 => 0x0D,
        Register::GCal2B2 => 0x0E,
        Register::GCal2B1 => 0x0F,
        Register::GCal2B0 => 0x10,
        Register::I2CControl => 0x11,
        Register::AdcOB2 => 0x12,
        Register::AdcOB1 => 0x13,
        Register::AdcOB0 => 0x14,
        Register::AdcOtpB2 => 0x15,
        Register::OtpB1 => 0x16,
        Register::OtpB0 => 0x17,
        Register::Pga => 0x1B,
        Register::PowerCtrl => 0x1C,
        Register::DeviceRev => 0x1F,
    }
}

impl Register {
    /// The register's address on the wire.
    pub fn address(&self) -> (r: u8)
        ensures
            r == spec_address(*self),
    {
        match self {
            Register::PuCtrl => 0x00,
            Register::Ctrl1 => 0x01,
            Register::Ctrl2 => 0x02,
            Register::OCal1B2 => 0x03,
            Register::OCal1B1 => 0x04,
            Register::OCal1B0 => 0x05,
            Register::GCal1B3 => 0x06,
            Register::GCal1B2 => 0x07,
            Register::GCal1B1 => 0x08,
            Register::GCal1B0 => 0x09,
            Register::OCal2B2 => 0x0A,
            Register::OCal2B1 => 0x0B,
            Register::OCal2B0 => 0x0C,
            Register::GCal2B3 => 0x0D,
            Register::GCal2B2 => 0x0E,
            Register::GCal2B1 => 0x0F,
            Register::GCal2B0 => 0x10,
            Register::I2CControl => 0x11,
            Register::AdcOB2 => 0x12,
            Register::AdcOB1 => 0x13,
            Register::AdcOB0 => 0x14,
            Register::AdcOtpB2 => 0x15,
            Register::OtpB1 => 0x16,
            Register::OtpB0 => 0x17,
            Register::Pga => 0x1B,
            Register::PowerCtrl => 0x1C,
            Register::DeviceRev => 0x1F,
        }
    }
}

// Bit layout of the power-up control register.
pub const PU_CTRL_AVDDS: u8 = 7;
pub const PU_CTRL_OSCS: u8 = 6;
pub const PU_CTRL_CR: u8 = 5;
pub const PU_CTRL_CS: u8 = 4;
pub const PU_CTRL_PUR: u8 = 3;
pub const PU_CTRL_PUA: u8 = 2;
pub const PU_CTRL_PUD: u8 = 1;
pub const PU_CTRL_RR: u8 = 0;

// Bit layout of the first control register.
pub const CTRL1_VLDO_LSB: u8 = 3;
pub const CTRL1_VLDO_WIDTH: u8 = 3;
pub const CTRL1_GAINS_LSB: u8 = 0;
pub const CTRL1_GAINS_WIDTH: u8 = 3;

// Bit layout of the second control register.
pub const CTRL2_CRS_LSB: u8 = 4;
pub const CTRL2_CRS_WIDTH: u8 = 3;
pub const CTRL2_CAL_ERR: u8 = 3;
pub const CTRL2_CALS: u8 = 2;
pub const CTRL2_CALMOD_LSB: u8 = 0;
pub const CTRL2_CALMOD_WIDTH: u8 = 2;

// Bit layout of the ADC trim bits in the shared ADC/OTP register.
pub const ADC_REG_CHPS_LSB: u8 = 4;
pub const ADC_REG_CHPS_WIDTH: u8 = 2;

// Bit layout of the PGA register.
pub const PGA_LDOMODE: u8 = 6;

// Bit layout of the second power control register.
pub const POWER_CTRL_PGA_CAP_EN: u8 = 7;

// Bit layout of the device revision register.
pub const DEVICE_REV_ID_LSB: u8 = 0;
pub const DEVICE_REV_ID_WIDTH: u8 = 4;

/// A field of `width` bits starting at bit `lsb` lies inside one byte.
pub open spec fn field_fits(lsb: u8, width: u8) -> bool {
    1 <= width && lsb + width <= 8
}

/// The bits of the field set, all others clear.
pub open spec fn field_mask(lsb: u8, width: u8) -> u8 {
    ((0xffu8 >> ((8 - width) as u8)) << lsb) as u8
}

/// The value held by the field, shifted down to bit zero.
pub open spec fn field_of(b: u8, lsb: u8, width: u8) -> u8 {
    (b >> lsb) & (0xffu8 >> ((8 - width) as u8))
}

/// The byte with the field replaced by `v` and every other bit kept.
pub open spec fn with_field(b: u8, lsb: u8, width: u8, v: u8) -> u8 {
    (b & !field_mask(lsb, width)) | (((v << lsb) as u8) & field_mask(lsb, width))
}

/// The largest value a field of `width` bits can hold.
pub open spec fn field_max(width: u8) -> u8 {
    0xffu8 >> ((8 - width) as u8)
}

/// Whether bit `n` of the byte is set.
pub open spec fn bit_of(b: u8, n: u8) -> bool {
    field_of(b, n, 1) == 1
}

/// The byte with bit `n` set to `v` and every other bit kept.
pub open spec fn with_bit(b: u8, n: u8, v: bool) -> u8 {
    with_field(b, n, 1, if v { 1u8 } else { 0u8 })
}

/// Reads the field of `width` bits starting at bit `lsb`.
pub fn get_field(b: u8, lsb: u8, width: u8) -> (r: u8)
    requires
        field_fits(lsb, width),
    ensures
        r == field_of(b, lsb, width),
        r <= field_max(width),
{
    let r = (b >> lsb) & (0xffu8 >> (8 - width));
    assert(r <= field_max(width)) by (bit_vector)
        requires
            r == (b >> lsb) & (0xffu8 >> ((8 - width) as u8)),
            1 <= width <= 8,
    ;
    r
}

/// Writes `v` into the field of `width` bits starting at bit `lsb`.
pub fn set_field(b: u8, lsb: u8, width: u8, v: u8) -> (r: u8)
    requires
        field_fits(lsb, width),
    ensures
        r == with_field(b, lsb, width, v),
{
    let mask: u8 = (0xffu8 >> (8 - width)) << lsb;
    (b & !mask) | ((v << lsb) & mask)
}

/// Reads bit `n`.
pub fn get_bit(b: u8, n: u8) -> (r: bool)
    requires
        n < 8,
    ensures
        r == bit_of(b, n),
{
    get_field(b, n, 1) == 1
}

/// Sets bit `n` to `v`.
pub fn set_bit(b: u8, n: u8, v: bool) -> (r: u8)
    requires
        n < 8,
    ensures
        r == with_bit(b, n, v),
{
    set_field(b, n, 1, if v { 1 } else { 0 })
}

/// Writing a value that fits a field and reading the field back gives that value.
pub proof fn lemma_field_round_trip(b: u8, lsb: u8, width: u8, v: u8)
    requires
        field_fits(lsb, width),
        v <= field_max(width),
    ensures
        field_of(with_field(b, lsb, width, v), lsb, width) == v,
{
    assert((((b & !(((0xffu8 >> ((8 - width) as u8)) << lsb) as u8)) | (((v << lsb) as u8) & (((
    0xffu8 >> ((8 - width) as u8)) << lsb) as u8))) >> lsb) & (0xffu8 >> ((8 - width) as u8)) == v)
        by (bit_vector)
        requires
            1 <= width,
            lsb + width <= 8,
            v <= 0xffu8 >> ((8 - width) as u8),
    ;
}

/// Writing a field leaves every bit outside it as it was.
pub proof fn lemma_field_frame(b: u8, lsb: u8, width: u8, v: u8, i: u8)
    requires
        field_fits(lsb, width),
        i < 8,
        i < lsb || i >= lsb + width,
    ensures
        bit_of(with_field(b, lsb, width, v), i) == bit_of(b, i),
{
    assert((((((b & !(((0xffu8 >> ((8 - width) as u8)) << lsb) as u8)) | (((v << lsb) as u8) & (((
    0xffu8 >> ((8 - width) as u8)) << lsb) as u8))) >> i) & (0xffu8 >> 7u8)) == 1u8) == (((b >> i)
        & (0xffu8 >> 7u8)) == 1u8)) by (bit_vector)
        requires
            1 <= width,
            lsb + width <= 8,
            i < 8,
            i < lsb || i >= lsb + width,
    ;
}

} // verus!

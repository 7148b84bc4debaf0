use vstd::prelude::*;

verus! {

/// The chip's fixed address on the bus.
pub const NAU7802_ADDRESS: u8 = 0x2A;

/// Declares the bus error classification of embedded-hal, carried opaquely.
#[verifier::external_type_specification]
#[verifier::external_body]
pub struct ExErrorKind(embedded_hal::i2c::ErrorKind);

#[derive(Debug, Copy, Clone, Eq, PartialEq)]
pub enum Error {
    I2CError(embedded_hal::i2c::ErrorKind),
    Timeout,
    NotReady,
    InvalidData,
    CalibrationError,
    InvalidRevisionId(u8),
}

/// Reference voltage source: an internal regulator level, or external.
#[derive(Debug, Clone, Copy, PartialEq, Eq, Structural)]
pub enum Ldo {
    L4v5,
    L4v2,
    L3v9,
    L3v6,
    L3v3,
    L3v0,
    L2v7,
    L2v4,
    External,
}

impl Ldo {
    /// The 3-bit selector code of an internal level.
    pub open spec fn spec_code(self) -> u8 {
        match self {
            Ldo::L4v5 => 0,
            Ldo::L4v2 => 1,
            Ldo::L3v9 => 2,
            Ldo::L3v6 => 3,
            Ldo::L3v3 => 4,
            Ldo::L3v0 => 5,
            Ldo::L2v7 => 6,
            Ldo::L2v4 => 7,
            Ldo::External => 8,
        }
    }

    /// The internal level that a 3-bit selector code stands for.
    pub open spec fn spec_decode(v: u8) -> Result<Ldo, ()> {
        if v == 0 {
            Ok(Ldo::L4v5)
        } else if v == 1 {
            Ok(Ldo::L4v2)
        } else if v == 2 {
            Ok(Ldo::L3v9)
        } else if v == 3 {
            Ok(Ldo::L3v6)
        } else if v == 4 {
            Ok(Ldo::L3v3)
        } else if v == 5 {
            Ok(Ldo::L3v0)
        } else if v == 6 {
            Ok(Ldo::L2v7)
        } else if v == 7 {
            Ok(Ldo::L2v4)
        } else {
            Err(())
        }
    }

    pub fn code(&self) -> (r: u8)
        ensures
            r == self.spec_code(),
    {
        match self {
            Ldo::L4v5 => 0,
            Ldo::L4v2 => 1,
            Ldo::L3v9 => 2,
            Ldo::L3v6 => 3,
            Ldo::L3v3 => 4,
            Ldo::L3v0 => 5,
            Ldo::L2v7 => 6,
            Ldo::L2v4 => 7,
            Ldo::External => 8,
        }
    }
}

impl TryFrom<u8> for Ldo {
    type Error = ();

    fn try_from(value: u8) -> Result<Self, Self::Error> {
        match value {
            0b000 => Ok(Ldo::L4v5),
            0b001 => Ok(Ldo::L4v2),
            0b010 => Ok(Ldo::L3v9),
            0b011 => Ok(Ldo::L3v6),
            0b100 => Ok(Ldo::L3v3),
            0b101 => Ok(Ldo::L3v0),
            0b110 => Ok(Ldo::L2v7),
            0b111 => Ok(Ldo::L2v4),
            _ => Err(()),
        }
    }
}

impl vstd::std_specs::convert::TryFromSpecImpl<u8> for Ldo {
    open spec fn obeys_try_from_spec() -> bool {
        true
    }

    open spec fn try_from_spec(v: u8) -> Result<Self, ()> {
        Ldo::spec_decode(v)
    }
}

/// Programmable gain, a power of two from 1 to 128.
#[derive(Debug, Clone, Copy, PartialEq, Eq, Structural)]
pub enum Gain {
    G1,
    G2,
    G4,
    G8,
    G16,
    G32,
    G64,
    G128,
}

impl Gain {
    /// The 3-bit selector code.
    pub open spec fn spec_code(self) -> u8 {
        match self {
            Gain::G1 => 0,
            Gain::G2 => 1,
            Gain::G4 => 2,
            Gain::G8 => 3,
            Gain::G16 => 4,
            Gain::G32 => 5,
            Gain::G64 => 6,
            Gain::G128 => 7,
        }
    }

    /// The gain that a 3-bit selector code stands for.
    pub open spec fn spec_decode(v: u8) -> Result<Gain, ()> {
        if v == 0 {
            Ok(Gain::G1)
        } else if v == 1 {
            Ok(Gain::G2)
        } else if v == 2 {
            Ok(Gain::G4)
        } else if v == 3 {
            Ok(Gain::G8)
        } else if v == 4 {
            Ok(Gain::G16)
        } else if v == 5 {
            Ok(Gain::G32)
        } else if v == 6 {
            Ok(Gain::G64)
        } else if v == 7 {
            Ok(Gain::G128)
        } else {
            Err(())
        }
    }

    pub fn code(&self) -> (r: u8)
        ensures
            r == self.spec_code(),
    {
        match self {
            Gain::G1 => 0,
            Gain::G2 => 1,
            Gain::G4 => 2,
            Gain::G8 => 3,
            Gain::G16 => 4,
            Gain::G32 => 5,
            Gain::G64 => 6,
            Gain::G128 => 7,
        }
    }
}

impl TryFrom<u8> for Gain {
    type Error = ();

    fn try_from(value: u8) -> Result<Self, Self::Error> {
        match value {
            0b000 => Ok(Gain::G1),
            0b001 => Ok(Gain::G2),
            0b010 => Ok(Gain::G4),
            0b011 => Ok(Gain::G8),
            0b100 => Ok(Gain::G16),
            0b101 => Ok(Gain::G32),
            0b110 => Ok(Gain::G64),
            0b111 => Ok(Gain::G128),
            _ => Err(()),
        }
    }
}

impl vstd::std_specs::convert::TryFromSpecImpl<u8> for Gain {
    open spec fn obeys_try_from_spec() -> bool {
        true
    }

    open spec fn try_from_spec(v: u8) -> Result<Self, ()> {
        Gain::spec_decode(v)
    }
}

/// Conversion rate in samples per second; the codes skip 4 to 6.
#[derive(Debug, Clone, Copy, PartialEq, Eq, Structural)]
pub enum SampleRate {
    SPS10,
    SPS20,
    SPS40,
    SPS80,
    SPS320,
}

impl SampleRate {
    /// The 3-bit selector code.
    pub open spec fn spec_code(self) -> u8 {
        match self {
            SampleRate::SPS10 => 0b000,
            SampleRate::SPS20 => 0b001,
            SampleRate::SPS40 => 0b010,
            SampleRate::SPS80 => 0b011,
            SampleRate::SPS320 => 0b111,
        }
    }

    /// The rate that a 3-bit selector code stands for; the reserved codes have none.
    pub open spec fn spec_decode(v: u8) -> Result<SampleRate, ()> {
        if v == 0b000 {
            Ok(SampleRate::SPS10)
        } else if v == 0b001 {
            Ok(SampleRate::SPS20)
        } else if v == 0b010 {
            Ok(SampleRate::SPS40)
        } else if v == 0b011 {
            Ok(SampleRate::SPS80)
        } else if v == 0b111 {
            Ok(SampleRate::SPS320)
        } else {
            Err(())
        }
    }

    pub fn code(&self) -> (r: u8)
        ensures
            r == self.spec_code(),
    {
        match self {
            SampleRate::SPS10 => 0b000,
            SampleRate::SPS20 => 0b001,
            SampleRate::SPS40 => 0b010,
            SampleRate::SPS80 => 0b011,
            SampleRate::SPS320 => 0b111,
        }
    }
}

impl TryFrom<u8> for SampleRate {
    type Error = ();

    fn try_from(value: u8) -> Result<Self, Self::Error> {
        match value {
            0b000 => Ok(SampleRate::SPS10),
            0b001 => Ok(SampleRate::SPS20),
            0b010 => Ok(SampleRate::SPS40),
            0b011 => Ok(SampleRate::SPS80),
            0b111 => Ok(SampleRate::SPS320),
            _ => Err(()),
        }
    }
}

impl vstd::std_specs::convert::TryFromSpecImpl<u8> for SampleRate {
    open spec fn obeys_try_from_spec() -> bool {
        true
    }

    open spec fn try_from_spec(v: u8) -> Result<Self, ()> {
        SampleRate::spec_decode(v)
    }
}

/// Which calibration the chip runs; the codes skip 1.
#[derive(Debug, Clone, Copy, PartialEq, Eq, Structural)]
pub enum CalibrationMode {
    Internal,
    Offset,
    Gain,
}

impl CalibrationMode {
    /// The 2-bit mode code.
    pub open spec fn spec_code(self) -> u8 {
        match self {
            CalibrationMode::Internal => 0,
            CalibrationMode::Offset => 2,
            CalibrationMode::Gain => 3,
        }
    }

    pub fn code(&self) -> (r: u8)
        ensures
            r == self.spec_code(),
    {
        match self {
            CalibrationMode::Internal => 0,
            CalibrationMode::Offset => 2,
            CalibrationMode::Gain => 3,
        }
    }
}

/// Encoding an internal reference level and decoding the code gives the level back.
pub proof fn lemma_ldo_round_trip(l: Ldo)
    requires
        l != Ldo::External,
    ensures
        l.spec_code() <= 7,
        Ldo::spec_decode(l.spec_code()) == Ok::<Ldo, ()>(l),
{
}

/// Encoding a gain and decoding the code gives the gain back.
pub proof fn lemma_gain_round_trip(g: Gain)
    ensures
        g.spec_code() <= 7,
        Gain::spec_decode(g.spec_code()) == Ok::<Gain, ()>(g),
{
}

/// Encoding a sample rate and decoding the code gives the rate back.
pub proof fn lemma_sample_rate_round_trip(s: SampleRate)
    ensures
        s.spec_code() <= 7,
        SampleRate::spec_decode(s.spec_code()) == Ok::<SampleRate, ()>(s),
{
}

/// A 3-bit rate code decodes if and only if some rate encodes to it: the
/// reserved codes 4, 5 and 6 are refused and alias no rate.
pub proof fn lemma_sample_rate_reserved(v: u8)
    requires
        v <= 7,
    ensures
        SampleRate::spec_decode(v) is Err <==> (4 <= v <= 6),
        (4 <= v <= 6) ==> forall|s: SampleRate| s.spec_code() != v,
{
}

} // verus!

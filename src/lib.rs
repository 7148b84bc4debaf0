pub mod constants;
pub mod registers;

pub use constants::{CalibrationMode, Error, Gain, Ldo, SampleRate};
pub use registers::Register;

use constants::NAU7802_ADDRESS;
use embedded_hal::i2c::ErrorKind;
use registers::{
    spec_address,
    bit_of, field_of, get_bit, get_field, lemma_field_round_trip,
    set_bit, set_field, with_bit, with_field, ADC_REG_CHPS_LSB,
    ADC_REG_CHPS_WIDTH, CTRL1_GAINS_LSB, CTRL1_GAINS_WIDTH, CTRL1_VLDO_LSB, CTRL1_VLDO_WIDTH,
    CTRL2_CALMOD_LSB, CTRL2_CALMOD_WIDTH, CTRL2_CALS, CTRL2_CAL_ERR, CTRL2_CRS_LSB, CTRL2_CRS_WIDTH,
    DEVICE_REV_ID_LSB, DEVICE_REV_ID_WIDTH, PGA_LDOMODE, POWER_CTRL_PGA_CAP_EN, PU_CTRL_AVDDS,
    PU_CTRL_CR, PU_CTRL_CS, PU_CTRL_PUA, PU_CTRL_PUD, PU_CTRL_PUR, PU_CTRL_RR,
};
use vstd::prelude::*;

verus! {

/// The two-wire bus transport the driver talks through.
pub trait I2cBus {
    /// Writes `bytes` to the device at `address`.
    fn write(&mut self, address: u8, bytes: &[u8]) -> Result<(), ErrorKind>;

    /// Writes `bytes` to the device at `address`, then reads into `buffer`.
    fn write_read(&mut self, address: u8, bytes: &[u8], buffer: &mut [u8]) -> Result<
        (),
        ErrorKind,
    >;
}

/// A provider of blocking delays.
pub trait DelayMs {
    /// Blocks for at least `ms` milliseconds.
    fn delay_ms(&mut self, ms: u32);
}

/// One transfer handed to the bus: the device address and the bytes written,
/// and for a write-then-read the bytes that came back.
pub enum Transfer {
    Write(u8, Seq<u8>),
    WriteRead(u8, Seq<u8>, Seq<u8>),
}

/// A bus together with the record of every transfer handed to it, failed ones
/// included. This is the one place where the driver calls the bus.
pub struct RecordingBus<I2C> {
    bus: I2C,
    transfers: Ghost<Seq<Transfer>>,
}

impl<I2C: I2cBus> RecordingBus<I2C> {
    /// Every transfer handed to the bus through this recorder, in order.
    pub closed spec fn transfers(&self) -> Seq<Transfer> {
        self.transfers@
    }

    pub fn new(bus: I2C) -> (r: Self)
        ensures
            r.transfers() == Seq::<Transfer>::empty(),
    {
        RecordingBus { bus, transfers: Ghost(Seq::empty()) }
    }

    /// Hands `bytes` to the bus as a write to `address`.
    pub fn write(&mut self, address: u8, bytes: &[u8]) -> (r: Result<(), ErrorKind>)
        ensures
            final(self).transfers() == old(self).transfers().push(
                Transfer::Write(address, bytes@),
            ),
    {
        let r = self.bus.write(address, bytes);
        self.transfers = Ghost(self.transfers@.push(Transfer::Write(address, bytes@)));
        r
    }

    /// Hands `bytes` to the bus as a write to `address`, then reads `N` bytes
    /// into `buffer`.
    pub fn write_read<const N: usize>(
        &mut self,
        address: u8,
        bytes: &[u8],
        buffer: &mut [u8; N],
    ) -> (r: Result<(), ErrorKind>)
        ensures
            final(self).transfers() == old(self).transfers().push(
                Transfer::WriteRead(address, bytes@, final(buffer)@),
            ),
    {
        let r = self.bus.write_read(address, bytes, buffer);
        self.transfers = Ghost(
            self.transfers@.push(Transfer::WriteRead(address, bytes@, buffer@)),
        );
        r
    }
}

/// A delay provider together with the record of every delay asked of it.
pub struct RecordingDelay<Delay> {
    delay: Delay,
    waits: Ghost<Seq<u32>>,
}

impl<Delay: DelayMs> RecordingDelay<Delay> {
    /// Every delay asked through this recorder, in order.
    pub closed spec fn waits(&self) -> Seq<u32> {
        self.waits@
    }

    pub fn new(delay: Delay) -> (r: Self)
        ensures
            r.waits() == Seq::<u32>::empty(),
    {
        RecordingDelay { delay, waits: Ghost(Seq::empty()) }
    }

    /// Blocks for at least `ms` milliseconds.
    pub fn delay_ms(&mut self, ms: u32)
        ensures
            final(self).waits() == old(self).waits().push(ms),
    {
        self.delay.delay_ms(ms);
        self.waits = Ghost(self.waits@.push(ms));
    }
}

/// One exchange with the chip, as the driver issued it.
pub enum BusOp {
    /// A register was read and held this value.
    Read(Register, u8),
    /// This value was written to a register.
    Write(Register, u8),
    /// Three bytes were read in one transfer starting at a register, in order.
    ReadBurst(Register, u8, u8, u8),
    /// The driver waited this many milliseconds.
    Wait(u32),
    /// The bus failed this transfer with this error, and the driver stopped there.
    Fault(Transfer, ErrorKind),
}

/// The transfers that one exchange hands to the bus.
pub open spec fn transfers_of_op(op: BusOp) -> Seq<Transfer> {
    match op {
        BusOp::Read(register, v) => seq![
            Transfer::WriteRead(NAU7802_ADDRESS, seq![spec_address(register)], seq![v]),
        ],
        BusOp::Write(register, v) => seq![
            Transfer::Write(NAU7802_ADDRESS, seq![spec_address(register), v]),
        ],
        BusOp::ReadBurst(register, b0, b1, b2) => seq![
            Transfer::WriteRead(NAU7802_ADDRESS, seq![spec_address(register)], seq![b0, b1, b2]),
        ],
        BusOp::Wait(_) => Seq::empty(),
        BusOp::Fault(t, _) => seq![t],
    }
}

/// The delays that one exchange asks for.
pub open spec fn waits_of_op(op: BusOp) -> Seq<u32> {
    match op {
        BusOp::Wait(ms) => seq![ms],
        _ => Seq::empty(),
    }
}

/// The transfers that a history of exchanges handed to the bus, in order.
pub open spec fn wire_of(h: Seq<BusOp>) -> Seq<Transfer>
    decreases h.len(),
{
    if h.len() == 0 {
        Seq::empty()
    } else {
        wire_of(h.drop_last()) + transfers_of_op(h.last())
    }
}

/// The delays that a history of exchanges asked for, in order.
pub open spec fn waits_of(h: Seq<BusOp>) -> Seq<u32>
    decreases h.len(),
{
    if h.len() == 0 {
        Seq::empty()
    } else {
        waits_of(h.drop_last()) + waits_of_op(h.last())
    }
}

/// Appending one exchange to a history appends its transfers, its delays and
/// its fault, if it is one.
pub proof fn lemma_history_push(h: Seq<BusOp>, op: BusOp)
    ensures
        wire_of(h.push(op)) == wire_of(h) + transfers_of_op(op),
        waits_of(h.push(op)) == waits_of(h) + waits_of_op(op),
        faults(h.push(op)) == faults(h) + if op is Fault {
            1nat
        } else {
            0nat
        },
{
    assert(h.push(op).drop_last() =~= h);
}

/// The transfers of two histories one after the other are those of the first,
/// then those of the second; the same holds of the delays.
pub proof fn lemma_history_concat(a: Seq<BusOp>, b: Seq<BusOp>)
    ensures
        wire_of(a + b) == wire_of(a) + wire_of(b),
        waits_of(a + b) == waits_of(a) + waits_of(b),
    decreases b.len(),
{
    if b.len() == 0 {
        assert(a + b =~= a);
        assert(wire_of(a) + wire_of(b) =~= wire_of(a));
        assert(waits_of(a) + waits_of(b) =~= waits_of(a));
    } else {
        lemma_history_concat(a, b.drop_last());
        assert((a + b).drop_last() =~= a + b.drop_last());
        assert(wire_of(a) + wire_of(b) =~= wire_of(a) + wire_of(b.drop_last()) + transfers_of_op(b.last()));
        assert(waits_of(a) + waits_of(b) =~= waits_of(a) + waits_of(b.drop_last()) + waits_of_op(b.last()));
    }
}

/// How many bus faults a history holds.
pub open spec fn faults(h: Seq<BusOp>) -> nat
    decreases h.len(),
{
    if h.len() == 0 {
        0
    } else {
        faults(h.drop_last()) + if h.last() is Fault {
            1nat
        } else {
            0nat
        }
    }
}

/// `e` is a bus error that the bus itself reported: going from `h0` to `h` met
/// exactly one fault, the last exchange, where the call stopped.
pub open spec fn bus_failed(h0: Seq<BusOp>, h: Seq<BusOp>, e: Error) -> bool {
    match e {
        Error::I2CError(kind) => {
            &&& h.len() > h0.len()
            &&& h.last() is Fault
            &&& h.last()->Fault_1 == kind
            &&& faults(h) == faults(h0) + 1
        },
        _ => false,
    }
}

/// A read-modify-write of one register: `v` read, `w` written back.
pub open spec fn rmw_ops(register: Register, v: u8, w: u8) -> Seq<BusOp> {
    seq![BusOp::Read(register, v), BusOp::Write(register, w)]
}

/// A read-modify-write hands the bus a one-byte read of the register at 0x2A,
/// then a write of the register's address and the new value, and asks for no delay.
pub proof fn lemma_rmw_on_wire(h: Seq<BusOp>, register: Register, v: u8, w: u8)
    ensures
        wire_of(h + rmw_ops(register, v, w)) == wire_of(h) + seq![
            Transfer::WriteRead(NAU7802_ADDRESS, seq![spec_address(register)], seq![v]),
            Transfer::Write(NAU7802_ADDRESS, seq![spec_address(register), w]),
        ],
        waits_of(h + rmw_ops(register, v, w)) == waits_of(h),
{
    let ops = rmw_ops(register, v, w);
    assert(h + ops =~= h.push(ops[0]).push(ops[1]));
    lemma_history_push(h, ops[0]);
    lemma_history_push(h.push(ops[0]), ops[1]);
    assert(wire_of(h + ops) =~= wire_of(h) + seq![
        Transfer::WriteRead(NAU7802_ADDRESS, seq![spec_address(register)], seq![v]),
        Transfer::Write(NAU7802_ADDRESS, seq![spec_address(register), w]),
    ]);
    assert(waits_of(h + ops) =~= waits_of(h));
}

/// The value written to start a reset: the register-reset bit set.
pub open spec fn reset_start(v: u8) -> u8 {
    with_bit(v, PU_CTRL_RR, true)
}

/// The value written to leave reset: reset cleared and digital power-up set,
/// in the same write.
pub open spec fn reset_release(v: u8) -> u8 {
    with_bit(with_bit(reset_start(v), PU_CTRL_RR, false), PU_CTRL_PUD, true)
}

/// The exchanges of a reset that read `v` first and `w` last.
pub open spec fn reset_ops(v: u8, w: u8) -> Seq<BusOp> {
    seq![
        BusOp::Read(Register::PuCtrl, v),
        BusOp::Write(Register::PuCtrl, reset_start(v)),
        BusOp::Wait(10),
        BusOp::Write(Register::PuCtrl, reset_release(v)),
        BusOp::Wait(1),
        BusOp::Read(Register::PuCtrl, w),
    ]
}

/// A reset hands the bus, at 0x2A: a read of the power-up control register,
/// the write that sets reset, the write that clears it and sets digital
/// power-up, and a last read; it waits 10 ms after the first write and 1 ms
/// after the second.
pub proof fn lemma_reset_on_wire(h: Seq<BusOp>, v: u8, w: u8)
    ensures
        wire_of(h + reset_ops(v, w)) == wire_of(h) + seq![
            Transfer::WriteRead(NAU7802_ADDRESS, seq![0x00u8], seq![v]),
            Transfer::Write(NAU7802_ADDRESS, seq![0x00u8, reset_start(v)]),
            Transfer::Write(NAU7802_ADDRESS, seq![0x00u8, reset_release(v)]),
            Transfer::WriteRead(NAU7802_ADDRESS, seq![0x00u8], seq![w]),
        ],
        waits_of(h + reset_ops(v, w)) == waits_of(h) + seq![10u32, 1u32],
{
    let ops = reset_ops(v, w);
    assert(h + ops =~= h.push(ops[0]).push(ops[1]).push(ops[2]).push(ops[3]).push(ops[4]).push(
        ops[5],
    ));
    lemma_history_push(h, ops[0]);
    lemma_history_push(h.push(ops[0]), ops[1]);
    lemma_history_push(h.push(ops[0]).push(ops[1]), ops[2]);
    lemma_history_push(h.push(ops[0]).push(ops[1]).push(ops[2]), ops[3]);
    lemma_history_push(h.push(ops[0]).push(ops[1]).push(ops[2]).push(ops[3]), ops[4]);
    lemma_history_push(h.push(ops[0]).push(ops[1]).push(ops[2]).push(ops[3]).push(ops[4]), ops[5]);
    assert(wire_of(h + ops) =~= wire_of(h) + seq![
        Transfer::WriteRead(NAU7802_ADDRESS, seq![0x00u8], seq![v]),
        Transfer::Write(NAU7802_ADDRESS, seq![0x00u8, reset_start(v)]),
        Transfer::Write(NAU7802_ADDRESS, seq![0x00u8, reset_release(v)]),
        Transfer::WriteRead(NAU7802_ADDRESS, seq![0x00u8], seq![w]),
    ]);
    assert(waits_of(h + ops) =~= waits_of(h) + seq![10u32, 1u32]);
}

/// The value written to power down: analog and digital power-up cleared.
pub open spec fn power_down_value(v: u8) -> u8 {
    with_bit(with_bit(v, PU_CTRL_PUA, false), PU_CTRL_PUD, false)
}

/// The value written to power up: digital and analog power-up set.
pub open spec fn power_up_value(v: u8) -> u8 {
    with_bit(with_bit(v, PU_CTRL_PUD, true), PU_CTRL_PUA, true)
}

/// The exchanges of a power-up that read `v` first and `w` last.
pub open spec fn power_up_ops(v: u8, w: u8) -> Seq<BusOp> {
    seq![
        BusOp::Read(Register::PuCtrl, v),
        BusOp::Write(Register::PuCtrl, power_up_value(v)),
        BusOp::Wait(600),
        BusOp::Write(Register::PuCtrl, with_bit(power_up_value(v), PU_CTRL_CS, true)),
        BusOp::Read(Register::PuCtrl, w),
    ]
}

/// A power-up hands the bus, at 0x2A: a read of the power-up control register,
/// the write that sets digital and analog power-up, the write that adds
/// cycle-start, and a last read; it waits 600 ms between the two writes.
pub proof fn lemma_power_up_on_wire(h: Seq<BusOp>, v: u8, w: u8)
    ensures
        wire_of(h + power_up_ops(v, w)) == wire_of(h) + seq![
            Transfer::WriteRead(NAU7802_ADDRESS, seq![0x00u8], seq![v]),
            Transfer::Write(NAU7802_ADDRESS, seq![0x00u8, power_up_value(v)]),
            Transfer::Write(
                NAU7802_ADDRESS,
                seq![0x00u8, with_bit(power_up_value(v), PU_CTRL_CS, true)],
            ),
            Transfer::WriteRead(NAU7802_ADDRESS, seq![0x00u8], seq![w]),
        ],
        waits_of(h + power_up_ops(v, w)) == waits_of(h) + seq![600u32],
{
    let ops = power_up_ops(v, w);
    assert(h + ops =~= h.push(ops[0]).push(ops[1]).push(ops[2]).push(ops[3]).push(ops[4]));
    lemma_history_push(h, ops[0]);
    lemma_history_push(h.push(ops[0]), ops[1]);
    lemma_history_push(h.push(ops[0]).push(ops[1]), ops[2]);
    lemma_history_push(h.push(ops[0]).push(ops[1]).push(ops[2]), ops[3]);
    lemma_history_push(h.push(ops[0]).push(ops[1]).push(ops[2]).push(ops[3]), ops[4]);
    assert(wire_of(h + ops) =~= wire_of(h) + seq![
        Transfer::WriteRead(NAU7802_ADDRESS, seq![0x00u8], seq![v]),
        Transfer::Write(NAU7802_ADDRESS, seq![0x00u8, power_up_value(v)]),
        Transfer::Write(NAU7802_ADDRESS, seq![0x00u8, with_bit(power_up_value(v), PU_CTRL_CS, true)]),
        Transfer::WriteRead(NAU7802_ADDRESS, seq![0x00u8], seq![w]),
    ]);
    assert(waits_of(h + ops) =~= waits_of(h) + seq![600u32]);
}

/// The signed value of 24 bits given most significant byte first, in two's complement.
pub open spec fn signed_24(b0: u8, b1: u8, b2: u8) -> int {
    let u = b0 * 65536 + b1 * 256 + b2;
    if u >= 0x800000 {
        u - 0x1000000
    } else {
        u
    }
}

/// The reference source that the power-up control and first control register
/// values report: external when the internal reference is off.
pub open spec fn ldo_of(pu_ctrl: u8, ctrl1: u8) -> Result<Ldo, Error> {
    if !bit_of(pu_ctrl, PU_CTRL_AVDDS) {
        Ok(Ldo::External)
    } else {
        match Ldo::spec_decode(field_of(ctrl1, CTRL1_VLDO_LSB, CTRL1_VLDO_WIDTH)) {
            Ok(l) => Ok(l),
            Err(_) => Err(Error::InvalidData),
        }
    }
}

/// The gain that a first control register value selects.
pub open spec fn gain_of(ctrl1: u8) -> Result<Gain, Error> {
    match Gain::spec_decode(field_of(ctrl1, CTRL1_GAINS_LSB, CTRL1_GAINS_WIDTH)) {
        Ok(g) => Ok(g),
        Err(_) => Err(Error::InvalidData),
    }
}

/// The sample rate that a second control register value selects.
pub open spec fn sample_rate_of(ctrl2: u8) -> Result<SampleRate, Error> {
    match SampleRate::spec_decode(field_of(ctrl2, CTRL2_CRS_LSB, CTRL2_CRS_WIDTH)) {
        Ok(s) => Ok(s),
        Err(_) => Err(Error::InvalidData),
    }
}

/// The value written to start a calibration in `mode`.
pub open spec fn calibration_start(v: u8, mode: CalibrationMode) -> u8 {
    with_bit(with_field(v, CTRL2_CALMOD_LSB, CTRL2_CALMOD_WIDTH, mode.spec_code()), CTRL2_CALS, true)
}

/// The exchanges of polls that found the calibration still running, reading
/// the values in `busy`, each followed by a wait.
pub open spec fn busy_poll_ops(busy: Seq<u8>) -> Seq<BusOp>
    decreases busy.len(),
{
    if busy.len() == 0 {
        Seq::empty()
    } else {
        busy_poll_ops(busy.drop_last()) + seq![
            BusOp::Read(Register::Ctrl2, busy.last()),
            BusOp::Wait(10),
        ]
    }
}

/// Every value in `busy` has the calibration-start bit still set.
pub open spec fn all_busy(busy: Seq<u8>) -> bool {
    forall|i: int| 0 <= i < busy.len() ==> bit_of(#[trigger] busy[i], CTRL2_CALS)
}

/// A calibration that found the chip busy on `busy.len()` polls waited exactly
/// that many times, 10 ms each, one wait after each busy poll.
pub proof fn lemma_busy_poll_ops_shape(busy: Seq<u8>)
    ensures
        busy_poll_ops(busy).len() == 2 * busy.len(),
        forall|i: int|
            0 <= i < busy.len() ==> busy_poll_ops(busy)[2 * i] == BusOp::Read(
                Register::Ctrl2,
                #[trigger] busy[i],
            ) && busy_poll_ops(busy)[2 * i + 1] == BusOp::Wait(10),
    decreases busy.len(),
{
    if busy.len() > 0 {
        let prev = busy.drop_last();
        lemma_busy_poll_ops_shape(prev);
        assert forall|i: int| 0 <= i < busy.len() implies busy_poll_ops(busy)[2 * i] == BusOp::Read(
            Register::Ctrl2,
            #[trigger] busy[i],
        ) && busy_poll_ops(busy)[2 * i + 1] == BusOp::Wait(10) by {
            if i < prev.len() {
                assert(prev[i] == busy[i]);
            }
        }
    }
}

/// The exchanges of a calibration: the start written over `v`, the polls that
/// found it running, and the last poll, which read `last`.
pub open spec fn calibration_ops(v: u8, mode: CalibrationMode, busy: Seq<u8>, last: u8) -> Seq<
    BusOp,
> {
    rmw_ops(Register::Ctrl2, v, calibration_start(v, mode)) + busy_poll_ops(busy) + seq![
        BusOp::Read(Register::Ctrl2, last),
    ]
}

/// The exchanges of a reset, a power-up and the revision read that follow it.
pub open spec fn startup_ops(v: u8, w: u8, v2: u8, w2: u8, rev: u8) -> Seq<BusOp> {
    reset_ops(v, w) + power_up_ops(v2, w2) + seq![BusOp::Read(Register::DeviceRev, rev)]
}

/// The exchanges that select the reference source, gain and sample rate, over
/// the values read from the registers.
pub open spec fn config_ops(
    ldo: Ldo,
    gain: Gain,
    sample_rate: SampleRate,
    p: u8,
    c1: u8,
    c2: u8,
    c3: u8,
) -> Seq<BusOp> {
    (if ldo == Ldo::External {
        rmw_ops(Register::PuCtrl, p, with_bit(p, PU_CTRL_AVDDS, false))
    } else {
        rmw_ops(Register::PuCtrl, p, with_bit(p, PU_CTRL_AVDDS, true)) + rmw_ops(
            Register::Ctrl1,
            c1,
            with_field(c1, CTRL1_VLDO_LSB, CTRL1_VLDO_WIDTH, ldo.spec_code()),
        )
    }) + rmw_ops(
        Register::Ctrl1,
        c2,
        with_field(c2, CTRL1_GAINS_LSB, CTRL1_GAINS_WIDTH, gain.spec_code()),
    ) + rmw_ops(
        Register::Ctrl2,
        c3,
        with_field(c3, CTRL2_CRS_LSB, CTRL2_CRS_WIDTH, sample_rate.spec_code()),
    )
}

/// The fixed trims applied after configuration: chopper clock off, low-ESR
/// capacitor mode, and the PGA output stabilizer capacitor on.
pub open spec fn trim_ops(a: u8, pg: u8, pc: u8) -> Seq<BusOp> {
    rmw_ops(
        Register::AdcOtpB2,
        a,
        with_field(a, ADC_REG_CHPS_LSB, ADC_REG_CHPS_WIDTH, 0b11),
    ) + rmw_ops(Register::Pga, pg, with_bit(pg, PGA_LDOMODE, false)) + rmw_ops(
        Register::PowerCtrl,
        pc,
        with_bit(pc, POWER_CTRL_PGA_CAP_EN, true),
    )
}

/// The errors that construction can end in: a bus error, a readiness check
/// that failed, or a revision other than 0xF, which is reported.
pub open spec fn init_error(e: Error) -> bool {
    match e {
        Error::I2CError(_) => true,
        Error::NotReady => true,
        Error::InvalidRevisionId(x) => x != 0xF && x <= 0xF,
        _ => false,
    }
}

/// The most polls that a calibration makes before it gives up.
pub const POLL_LIMIT: u64 = 0xffff_ffff_ffff_ffff;

/// A gain written into the first control register reads back as that gain,
/// whatever the register held before.
pub proof fn lemma_gain_register_round_trip(c: u8, gain: Gain)
    ensures
        gain_of(with_field(c, CTRL1_GAINS_LSB, CTRL1_GAINS_WIDTH, gain.spec_code())) == Ok::<
            Gain,
            Error,
        >(gain),
{
    assert(0xffu8 >> 5u8 == 7u8) by (bit_vector);
    lemma_field_round_trip(c, CTRL1_GAINS_LSB, CTRL1_GAINS_WIDTH, gain.spec_code());
}

/// A sample rate written into the second control register reads back as that
/// rate, whatever the register held before.
pub proof fn lemma_sample_rate_register_round_trip(c: u8, sample_rate: SampleRate)
    ensures
        sample_rate_of(with_field(c, CTRL2_CRS_LSB, CTRL2_CRS_WIDTH, sample_rate.spec_code()))
            == Ok::<SampleRate, Error>(sample_rate),
{
    assert(0xffu8 >> 5u8 == 7u8) by (bit_vector);
    lemma_field_round_trip(c, CTRL2_CRS_LSB, CTRL2_CRS_WIDTH, sample_rate.spec_code());
}

/// A second control register whose rate field holds a reserved code (4, 5 or
/// 6) reads as invalid data, and every other code reads as a rate.
pub proof fn lemma_sample_rate_register_reserved(c: u8)
    ensures
        sample_rate_of(c) == Err::<SampleRate, Error>(Error::InvalidData) <==> 4 <= field_of(
            c,
            CTRL2_CRS_LSB,
            CTRL2_CRS_WIDTH,
        ) <= 6,
        sample_rate_of(c) is Ok || sample_rate_of(c) == Err::<SampleRate, Error>(Error::InvalidData),
{
    assert((c >> 4u8) & (0xffu8 >> 5u8) <= 7u8) by (bit_vector);
}

/// What the reference source setter writes reads back as the source it was
/// given: external from the cleared enable bit alone, an internal level from
/// the set enable bit and the selector field.
pub proof fn lemma_ldo_register_round_trip(pu_ctrl: u8, ctrl1: u8, ldo: Ldo)
    ensures
        ldo == Ldo::External ==> ldo_of(with_bit(pu_ctrl, PU_CTRL_AVDDS, false), ctrl1) == Ok::<
            Ldo,
            Error,
        >(Ldo::External),
        ldo != Ldo::External ==> ldo_of(
            with_bit(pu_ctrl, PU_CTRL_AVDDS, true),
            with_field(ctrl1, CTRL1_VLDO_LSB, CTRL1_VLDO_WIDTH, ldo.spec_code()),
        ) == Ok::<Ldo, Error>(ldo),
{
    assert(0xffu8 >> 5u8 == 7u8) by (bit_vector);
    assert(0xffu8 >> 7u8 == 1u8) by (bit_vector);
    lemma_field_round_trip(pu_ctrl, PU_CTRL_AVDDS, 1, 0);
    lemma_field_round_trip(pu_ctrl, PU_CTRL_AVDDS, 1, 1);
    if ldo != Ldo::External {
        lemma_field_round_trip(ctrl1, CTRL1_VLDO_LSB, CTRL1_VLDO_WIDTH, ldo.spec_code());
    }
}

/// The exchanges of a start-up with these options: a reset and a power-up
/// that both found the chip ready, a revision of 0xF, the three options
/// written, then the fixed trims.
pub open spec fn init_ops(h: Seq<BusOp>, ldo: Ldo, gain: Gain, sample_rate: SampleRate) -> bool {
    &&& h.len() >= 18
    &&& exists|v: u8, w: u8, v2: u8, w2: u8, rev: u8|
        h.subrange(0, 12) == #[trigger] startup_ops(v, w, v2, w2, rev) && bit_of(w, PU_CTRL_PUR)
            && bit_of(w2, PU_CTRL_PUR) && field_of(rev, DEVICE_REV_ID_LSB, DEVICE_REV_ID_WIDTH)
            == 0xF
    &&& exists|p: u8, c1: u8, c2: u8, c3: u8|
        h.subrange(12, h.len() - 6) == #[trigger] config_ops(ldo, gain, sample_rate, p, c1, c2, c3)
    &&& exists|a: u8, pg: u8, pc: u8|
        h.subrange(h.len() - 6, h.len() as int) == #[trigger] trim_ops(a, pg, pc)
}

/// Accepts only the chip's revision, 0xF; any other is reported as it was read.
pub fn check_revision(id: u8) -> (r: Result<(), Error>)
    ensures
        r == (if id == 0xF {
            Ok::<(), Error>(())
        } else {
            Err(Error::InvalidRevisionId(id))
        }),
{
    if id != 0xF {
        return Err(Error::InvalidRevisionId(id));
    }
    Ok(())
}

pub struct Nau7802<I2C, Delay> {
    i2c: RecordingBus<I2C>,
    address: u8,
    delay: RecordingDelay<Delay>,
    history: Ghost<Seq<BusOp>>,
}

impl<I2C: I2cBus, Delay: DelayMs> Nau7802<I2C, Delay> {
    /// Every exchange with the chip since the handle was made, in order.
    pub closed spec fn history(&self) -> Seq<BusOp> {
        self.history@
    }

    /// The bus address the handle talks to.
    pub closed spec fn bus_address(&self) -> u8 {
        self.address
    }

    /// Every transfer the handle has handed to the bus, in order.
    pub closed spec fn transfers(&self) -> Seq<Transfer> {
        self.i2c.transfers()
    }

    /// Every delay the handle has asked for, in order.
    pub closed spec fn waits(&self) -> Seq<u32> {
        self.delay.waits()
    }

    /// The handle talks to the chip's fixed address, 0x2A, and its history is
    /// exactly what it handed to the bus and to the delay provider.
    pub open spec fn wf(&self) -> bool {
        &&& self.bus_address() == NAU7802_ADDRESS
        &&& self.transfers() == wire_of(self.history())
        &&& self.waits() == waits_of(self.history())
    }

    /// The handle went through construction with these options.
    pub open spec fn initialized(&self, ldo: Ldo, gain: Gain, sample_rate: SampleRate) -> bool {
        self.wf() && init_ops(self.history(), ldo, gain, sample_rate)
    }

    /// Makes a handle with a 3.3 V reference, gain 128 and 80 samples per second.
    pub fn new(i2c: I2C, delay: Delay) -> (r: Result<Self, Error>)
        ensures
            match r {
                Ok(d) => d.initialized(Ldo::L3v3, Gain::G128, SampleRate::SPS80),
                Err(e) => init_error(e),
            },
    {
        Self::new_with_options(i2c, delay, Ldo::L3v3, Gain::G128, SampleRate::SPS80)
    }

    /// Makes a handle and starts the chip up with these options; see `initialize`.
    pub fn new_with_options(
        i2c: I2C,
        delay: Delay,
        ldo: Ldo,
        gain: Gain,
        sample_rate: SampleRate,
    ) -> (r: Result<Self, Error>)
        ensures
            match r {
                Ok(d) => d.initialized(ldo, gain, sample_rate),
                Err(e) => init_error(e),
            },
    {
        let mut device = Nau7802 {
            i2c: RecordingBus::new(i2c),
            address: NAU7802_ADDRESS,
            delay: RecordingDelay::new(delay),
            history: Ghost(Seq::empty()),
        };
        assert(device.transfers() =~= wire_of(device.history()));
        assert(device.waits() =~= waits_of(device.history()));
        device.initialize(ldo, gain, sample_rate)?;
        assert(device.history().subrange(0, device.history().len() as int) =~= device.history());
        Ok(device)
    }

    /// Resets and powers up the chip, checks its revision, applies the options
    /// and then the recommended trims. The first step that fails ends it.
    #[verifier::rlimit(100)]
    pub fn initialize(&mut self, ldo: Ldo, gain: Gain, sample_rate: SampleRate) -> (r: Result<
        (),
        Error,
    >)
        requires
            old(self).wf(),
        ensures
            final(self).wf(),
            r is Ok ==> faults(final(self).history()) == faults(old(self).history()),
            match r {
                Ok(_) => final(self).history().subrange(0, old(self).history().len() as int)
                    == old(self).history() && init_ops(
                    final(self).history().subrange(
                        old(self).history().len() as int,
                        final(self).history().len() as int,
                    ),
                    ldo,
                    gain,
                    sample_rate,
                ),
                Err(Error::NotReady) => (exists|v: u8, w: u8|
                    final(self).history() == old(self).history() + #[trigger] reset_ops(v, w)
                        && !bit_of(w, PU_CTRL_PUR)) || (exists|v: u8, w: u8, v2: u8, w2: u8|
                    final(self).history() == old(self).history() + #[trigger] reset_ops(v, w)
                        + #[trigger] power_up_ops(v2, w2) && bit_of(w, PU_CTRL_PUR) && !bit_of(
                        w2,
                        PU_CTRL_PUR,
                    )),
                Err(Error::InvalidRevisionId(x)) => exists|v: u8, w: u8, v2: u8, w2: u8, rev: u8|
                    final(self).history() == old(self).history() + #[trigger] startup_ops(
                        v,
                        w,
                        v2,
                        w2,
                        rev,
                    ) && bit_of(w, PU_CTRL_PUR) && bit_of(w2, PU_CTRL_PUR) && x == field_of(
                        rev,
                        DEVICE_REV_ID_LSB,
                        DEVICE_REV_ID_WIDTH,
                    ) && x != 0xF && x <= 0xF,
                Err(e) => bus_failed(old(self).history(), final(self).history(), e),
            },
    {
        let ghost h0 = self.history();
        match self.reset() {
            Ok(()) => {},
            Err(e) => {
                return Err(e);
            },
        }
        let ghost (v, w) = choose|v: u8, w: u8|
            self.history() == h0 + #[trigger] reset_ops(v, w) && bit_of(w, PU_CTRL_PUR);
        let ghost h1 = self.history();
        match self.enable(true) {
            Ok(()) => {},
            Err(e) => {
                proof {
                    if e is NotReady {
                        let (v2, w2) = choose|v2: u8, w2: u8|
                            self.history() == h1 + #[trigger] power_up_ops(v2, w2) && !bit_of(
                                w2,
                                PU_CTRL_PUR,
                            );
                        assert(self.history() =~= h0 + reset_ops(v, w) + power_up_ops(v2, w2));
                    }
                }
                return Err(e);
            },
        }
        let ghost (v2, w2) = choose|v2: u8, w2: u8|
            self.history() == h1 + #[trigger] power_up_ops(v2, w2) && bit_of(w2, PU_CTRL_PUR);
        let ghost h2 = self.history();
        let revision = self.read_revision_id()?;
        let ghost rev = choose|rev: u8|
            self.history() == h2.push(BusOp::Read(Register::DeviceRev, rev)) && revision
                == #[trigger] field_of(rev, DEVICE_REV_ID_LSB, DEVICE_REV_ID_WIDTH);
        let ghost h3 = self.history();
        assert(h3 =~= h0 + startup_ops(v, w, v2, w2, rev));
        check_revision(revision)?;
        self.configure(ldo, gain, sample_rate)?;
        let ghost (p, c1, c2, c3) = choose|p: u8, c1: u8, c2: u8, c3: u8|
            self.history() == h3 + #[trigger] config_ops(ldo, gain, sample_rate, p, c1, c2, c3);
        let ghost h6 = self.history();
        self.apply_trims()?;
        let ghost (a, pg, pc) = choose|a: u8, pg: u8, pc: u8|
            self.history() == h6 + #[trigger] trim_ops(a, pg, pc);
        proof {
            let h = self.history();
            let start = startup_ops(v, w, v2, w2, rev);
            let config = config_ops(ldo, gain, sample_rate, p, c1, c2, c3);
            let trims = trim_ops(a, pg, pc);
            assert(h =~= h0 + (start + config + trims));
            assert(h.subrange(0, h0.len() as int) =~= h0);
            let tail = h.subrange(h0.len() as int, h.len() as int);
            assert(tail =~= start + config + trims);
            assert(tail.subrange(0, 12) =~= start);
            assert(tail.subrange(12, tail.len() - 6) =~= config);
            assert(tail.subrange(tail.len() - 6, tail.len() as int) =~= trims);
        }
        Ok(())
    }

    /// Selects the reference source, the gain and the sample rate, in that order.
    #[verifier::rlimit(40)]
    fn configure(&mut self, ldo: Ldo, gain: Gain, sample_rate: SampleRate) -> (r: Result<(), Error>)
        requires
            old(self).wf(),
        ensures
            final(self).wf(),
            r is Ok ==> faults(final(self).history()) == faults(old(self).history()),
            match r {
                Ok(_) => exists|p: u8, c1: u8, c2: u8, c3: u8|
                    final(self).history() == old(self).history() + #[trigger] config_ops(
                        ldo,
                        gain,
                        sample_rate,
                        p,
                        c1,
                        c2,
                        c3,
                    ),
                Err(e) => bus_failed(old(self).history(), final(self).history(), e),
            },
    {
        let ghost h3 = self.history();
        self.set_ldo(ldo)?;
        let ghost (p, c1) = if ldo == Ldo::External {
            (
                choose|p: u8|
                    self.history() == h3 + #[trigger] rmw_ops(
                        Register::PuCtrl,
                        p,
                        with_bit(p, PU_CTRL_AVDDS, false),
                    ),
                0u8,
            )
        } else {
            choose|p: u8, c1: u8|
                self.history() == h3 + #[trigger] rmw_ops(
                    Register::PuCtrl,
                    p,
                    with_bit(p, PU_CTRL_AVDDS, true),
                ) + #[trigger] rmw_ops(
                    Register::Ctrl1,
                    c1,
                    with_field(c1, CTRL1_VLDO_LSB, CTRL1_VLDO_WIDTH, ldo.spec_code()),
                )
        };
        let ghost h4 = self.history();
        self.set_gain(gain)?;
        let ghost c2 = choose|c2: u8|
            self.history() == h4 + #[trigger] rmw_ops(
                Register::Ctrl1,
                c2,
                with_field(c2, CTRL1_GAINS_LSB, CTRL1_GAINS_WIDTH, gain.spec_code()),
            );
        let ghost h5 = self.history();
        self.set_sample_rate(sample_rate)?;
        let ghost c3 = choose|c3: u8|
            self.history() == h5 + #[trigger] rmw_ops(
                Register::Ctrl2,
                c3,
                with_field(c3, CTRL2_CRS_LSB, CTRL2_CRS_WIDTH, sample_rate.spec_code()),
            );
        assert(self.history() =~= h3 + config_ops(ldo, gain, sample_rate, p, c1, c2, c3));
        Ok(())
    }

    /// Applies the recommended trims: chopper clock off, low-ESR capacitor mode,
    /// PGA output stabilizer capacitor on.
    #[verifier::rlimit(40)]
    fn apply_trims(&mut self) -> (r: Result<(), Error>)
        requires
            old(self).wf(),
        ensures
            final(self).wf(),
            r is Ok ==> faults(final(self).history()) == faults(old(self).history()),
            match r {
                Ok(_) => exists|a: u8, pg: u8, pc: u8|
                    final(self).history() == old(self).history() + #[trigger] trim_ops(a, pg, pc),
                Err(e) => bus_failed(old(self).history(), final(self).history(), e),
            },
    {
        let ghost h6 = self.history();
        // Disable the ADC chopper clock.
        let a = self.read_register(Register::AdcOtpB2)?;
        self.write_register(
            Register::AdcOtpB2,
            set_field(a, ADC_REG_CHPS_LSB, ADC_REG_CHPS_WIDTH, 0b11),
        )?;
        // Use the low-ESR capacitor mode.
        let pg = self.read_register(Register::Pga)?;
        self.write_register(Register::Pga, set_bit(pg, PGA_LDOMODE, false))?;
        // Enable the PGA output stabilizer capacitor.
        let pc = self.read_register(Register::PowerCtrl)?;
        self.write_register(Register::PowerCtrl, set_bit(pc, POWER_CTRL_PGA_CAP_EN, true))?;

        assert(self.history() =~= h6 + trim_ops(a, pg, pc));
        Ok(())
    }

    fn read_register(&mut self, register: Register) -> (r: Result<u8, Error>)
        requires
            old(self).wf(),
        ensures
            final(self).wf(),
            final(self).waits() == old(self).waits(),
            final(self).transfers().len() == old(self).transfers().len() + 1,
            r is Ok ==> final(self).transfers() == old(self).transfers().push(
                Transfer::WriteRead(NAU7802_ADDRESS, seq![spec_address(register)], seq![r->Ok_0]),
            ),
            r is Ok ==> faults(final(self).history()) == faults(old(self).history()),
            match r {
                Ok(v) => final(self).history() == old(self).history().push(BusOp::Read(register, v)),
                Err(e) => bus_failed(old(self).history(), final(self).history(), e),
            },
    {
        let mut data = [0u8];
        let request = [register.address()];
        assert(request@ =~= seq![spec_address(register)]);
        let r = self.i2c.write_read(self.address, &request, &mut data);
        let v = data[0];
        assert(data@ =~= seq![v]);
        let ghost t = Transfer::WriteRead(NAU7802_ADDRESS, seq![spec_address(register)], seq![v]);
        match r {
            Ok(()) => {
                proof { lemma_history_push(self.history@, BusOp::Read(register, v)); }
                self.history = Ghost(self.history@.push(BusOp::Read(register, v)));
                assert(self.transfers() =~= wire_of(self.history()));
                assert(self.waits() =~= waits_of(self.history()));
                Ok(v)
            },
            Err(kind) => {
                proof { lemma_history_push(self.history@, BusOp::Fault(t, kind)); }
                self.history = Ghost(self.history@.push(BusOp::Fault(t, kind)));
                assert(self.transfers() =~= wire_of(self.history()));
                assert(self.waits() =~= waits_of(self.history()));
                Err(Error::I2CError(kind))
            },
        }
    }

    fn write_register(&mut self, register: Register, value: u8) -> (r: Result<(), Error>)
        requires
            old(self).wf(),
        ensures
            final(self).wf(),
            final(self).waits() == old(self).waits(),
            final(self).transfers() == old(self).transfers().push(
                Transfer::Write(NAU7802_ADDRESS, seq![spec_address(register), value]),
            ),
            r is Ok ==> faults(final(self).history()) == faults(old(self).history()),
            match r {
                Ok(_) => final(self).history() == old(self).history().push(
                    BusOp::Write(register, value),
                ),
                Err(e) => bus_failed(old(self).history(), final(self).history(), e),
            },
    {
        let request = [register.address(), value];
        assert(request@ =~= seq![spec_address(register), value]);
        let r = self.i2c.write(self.address, &request);
        let ghost t = Transfer::Write(NAU7802_ADDRESS, seq![spec_address(register), value]);
        match r {
            Ok(()) => {
                proof { lemma_history_push(self.history@, BusOp::Write(register, value)); }
                self.history = Ghost(self.history@.push(BusOp::Write(register, value)));
                assert(self.transfers() =~= wire_of(self.history()));
                assert(self.waits() =~= waits_of(self.history()));
                Ok(())
            },
            Err(kind) => {
                proof { lemma_history_push(self.history@, BusOp::Fault(t, kind)); }
                self.history = Ghost(self.history@.push(BusOp::Fault(t, kind)));
                assert(self.transfers() =~= wire_of(self.history()));
                assert(self.waits() =~= waits_of(self.history()));
                Err(Error::I2CError(kind))
            },
        }
    }

    fn wait(&mut self, ms: u32)
        requires
            old(self).wf(),
        ensures
            final(self).wf(),
            final(self).transfers() == old(self).transfers(),
            final(self).waits() == old(self).waits().push(ms),
            final(self).history() == old(self).history().push(BusOp::Wait(ms)),
            faults(final(self).history()) == faults(old(self).history()),
    {
        self.delay.delay_ms(ms);
        proof { lemma_history_push(self.history@, BusOp::Wait(ms)); }
        self.history = Ghost(self.history@.push(BusOp::Wait(ms)));
        assert(self.transfers() =~= wire_of(self.history()));
        assert(self.waits() =~= waits_of(self.history()));
    }

    /// Resets the chip's registers and powers up its digital part.
    pub fn reset(&mut self) -> (r: Result<(), Error>)
        requires
            old(self).wf(),
        ensures
            final(self).wf(),
            r is Ok || r == Err::<(), Error>(Error::NotReady) ==> exists|v: u8, w: u8|
                final(self).transfers() == old(self).transfers() + seq![
                    Transfer::WriteRead(NAU7802_ADDRESS, seq![0x00u8], seq![v]),
                    Transfer::Write(NAU7802_ADDRESS, seq![0x00u8, #[trigger] reset_start(v)]),
                    Transfer::Write(NAU7802_ADDRESS, seq![0x00u8, reset_release(v)]),
                    Transfer::WriteRead(NAU7802_ADDRESS, seq![0x00u8], seq![w]),
                ] && final(self).waits() == old(self).waits() + seq![10u32, 1u32] && (r is Ok
                    <==> #[trigger] bit_of(w, PU_CTRL_PUR)),
            r is Ok ==> faults(final(self).history()) == faults(old(self).history()),
            match r {
                Ok(_) => exists|v: u8, w: u8|
                    final(self).history() == old(self).history() + #[trigger] reset_ops(v, w)
                        && bit_of(w, PU_CTRL_PUR),
                Err(Error::NotReady) => exists|v: u8, w: u8|
                    final(self).history() == old(self).history() + #[trigger] reset_ops(v, w)
                        && !bit_of(w, PU_CTRL_PUR),
                Err(e) => bus_failed(old(self).history(), final(self).history(), e),
            },
    {
        let ghost t0 = self.transfers();
        let ghost w0 = self.waits();
        let ghost h0 = self.history();
        let v = self.read_register(Register::PuCtrl)?;
        let start = set_bit(v, PU_CTRL_RR, true);
        self.write_register(Register::PuCtrl, start)?;
        self.wait(10);
        let release = set_bit(set_bit(start, PU_CTRL_RR, false), PU_CTRL_PUD, true);
        self.write_register(Register::PuCtrl, release)?;
        self.wait(1);
        let w = self.read_register(Register::PuCtrl)?;
        assert(self.history() =~= h0 + reset_ops(v, w));
        assert(self.transfers() =~= t0 + seq![
            Transfer::WriteRead(NAU7802_ADDRESS, seq![0x00u8], seq![v]),
            Transfer::Write(NAU7802_ADDRESS, seq![0x00u8, reset_start(v)]),
            Transfer::Write(NAU7802_ADDRESS, seq![0x00u8, reset_release(v)]),
            Transfer::WriteRead(NAU7802_ADDRESS, seq![0x00u8], seq![w]),
        ]);
        assert(self.waits() =~= w0 + seq![10u32, 1u32]);
        if !get_bit(w, PU_CTRL_PUR) {
            return Err(Error::NotReady);
        }
        Ok(())
    }

    /// Powers the chip up, or down when `is_power_up` is false.
    pub fn enable(&mut self, is_power_up: bool) -> (r: Result<(), Error>)
        requires
            old(self).wf(),
        ensures
            final(self).wf(),
            is_power_up && (r is Ok || r == Err::<(), Error>(Error::NotReady)) ==> exists|v: u8, w: u8|
                final(self).transfers() == old(self).transfers() + seq![
                    Transfer::WriteRead(NAU7802_ADDRESS, seq![0x00u8], seq![v]),
                    Transfer::Write(NAU7802_ADDRESS, seq![0x00u8, #[trigger] power_up_value(v)]),
                    Transfer::Write(
                        NAU7802_ADDRESS,
                        seq![0x00u8, with_bit(power_up_value(v), PU_CTRL_CS, true)],
                    ),
                    Transfer::WriteRead(NAU7802_ADDRESS, seq![0x00u8], seq![w]),
                ] && final(self).waits() == old(self).waits() + seq![600u32] && (r is Ok
                    <==> #[trigger] bit_of(w, PU_CTRL_PUR)),
            !is_power_up && r is Ok ==> exists|v: u8|
                final(self).transfers() == old(self).transfers() + seq![
                    Transfer::WriteRead(NAU7802_ADDRESS, seq![0x00u8], seq![v]),
                    Transfer::Write(NAU7802_ADDRESS, seq![0x00u8, #[trigger] power_down_value(v)]),
                ] && final(self).waits() == old(self).waits(),
            r is Ok ==> faults(final(self).history()) == faults(old(self).history()),
            match r {
                Ok(_) => if is_power_up {
                    exists|v: u8, w: u8|
                        final(self).history() == old(self).history() + #[trigger] power_up_ops(v, w)
                            && bit_of(w, PU_CTRL_PUR)
                } else {
                    exists|v: u8|
                        final(self).history() == old(self).history() + #[trigger] rmw_ops(
                            Register::PuCtrl,
                            v,
                            power_down_value(v),
                        )
                },
                Err(Error::NotReady) => is_power_up && exists|v: u8, w: u8|
                    final(self).history() == old(self).history() + #[trigger] power_up_ops(v, w)
                        && !bit_of(w, PU_CTRL_PUR),
                Err(e) => bus_failed(old(self).history(), final(self).history(), e),
            },
    {
        let ghost t0 = self.transfers();
        let ghost w0 = self.waits();
        let ghost h0 = self.history();
        let v = self.read_register(Register::PuCtrl)?;
        if !is_power_up {
            let down = set_bit(set_bit(v, PU_CTRL_PUA, false), PU_CTRL_PUD, false);
            self.write_register(Register::PuCtrl, down)?;
            assert(self.history() =~= h0 + rmw_ops(Register::PuCtrl, v, power_down_value(v)));
            assert(self.transfers() =~= t0 + seq![
                Transfer::WriteRead(NAU7802_ADDRESS, seq![0x00u8], seq![v]),
                Transfer::Write(NAU7802_ADDRESS, seq![0x00u8, power_down_value(v)]),
            ]);
            assert(self.waits() =~= w0);
        } else {
            let up = set_bit(set_bit(v, PU_CTRL_PUD, true), PU_CTRL_PUA, true);
            self.write_register(Register::PuCtrl, up)?;
            self.wait(600);
            self.write_register(Register::PuCtrl, set_bit(up, PU_CTRL_CS, true))?;
            let w = self.read_register(Register::PuCtrl)?;
            assert(self.history() =~= h0 + power_up_ops(v, w));
            assert(self.transfers() =~= t0 + seq![
                Transfer::WriteRead(NAU7802_ADDRESS, seq![0x00u8], seq![v]),
                Transfer::Write(NAU7802_ADDRESS, seq![0x00u8, power_up_value(v)]),
                Transfer::Write(
                    NAU7802_ADDRESS,
                    seq![0x00u8, with_bit(power_up_value(v), PU_CTRL_CS, true)],
                ),
                Transfer::WriteRead(NAU7802_ADDRESS, seq![0x00u8], seq![w]),
            ]);
            assert(self.waits() =~= w0 + seq![600u32]);
            if !get_bit(w, PU_CTRL_PUR) {
                return Err(Error::NotReady);
            }
        }
        Ok(())
    }

    /// Whether a conversion result is ready to be read.
    pub fn available(&mut self) -> (r: Result<bool, Error>)
        requires
            old(self).wf(),
        ensures
            final(self).wf(),
            match r {
                Ok(b) => exists|v: u8|
                    final(self).transfers() == old(self).transfers().push(
                        Transfer::WriteRead(NAU7802_ADDRESS, seq![0x00u8], seq![v]),
                    ) && b == #[trigger] bit_of(v, PU_CTRL_CR),
                Err(_) => final(self).transfers().len() == old(self).transfers().len() + 1,
            },
            final(self).waits() == old(self).waits(),
            r is Ok ==> faults(final(self).history()) == faults(old(self).history()),
            match r {
                Ok(b) => exists|v: u8|
                    final(self).history() == old(self).history().push(
                        BusOp::Read(Register::PuCtrl, v),
                    ) && b == #[trigger] bit_of(v, PU_CTRL_CR),
                Err(e) => bus_failed(old(self).history(), final(self).history(), e),
            },
    {
        let v = self.read_register(Register::PuCtrl)?;
        Ok(get_bit(v, PU_CTRL_CR))
    }


    /// Reads the latest conversion result, sign-extended from 24 bits.
    pub fn read(&mut self) -> (r: Result<i32, Error>)
        requires
            old(self).wf(),
        ensures
            final(self).wf(),
            final(self).waits() == old(self).waits(),
            final(self).transfers().len() == old(self).transfers().len() + 1,
            final(self).transfers().drop_last() == old(self).transfers(),
            final(self).transfers().last() is WriteRead,
            final(self).transfers().last()->WriteRead_0 == NAU7802_ADDRESS,
            final(self).transfers().last()->WriteRead_1 == seq![0x12u8],
            final(self).transfers().last()->WriteRead_2.len() == 3,
            r is Ok ==> r->Ok_0 as int == signed_24(
                final(self).transfers().last()->WriteRead_2[0],
                final(self).transfers().last()->WriteRead_2[1],
                final(self).transfers().last()->WriteRead_2[2],
            ),
            r is Ok ==> faults(final(self).history()) == faults(old(self).history()),
            match r {
                Ok(x) => exists|b0: u8, b1: u8, b2: u8|
                    final(self).history() == old(self).history().push(BusOp::ReadBurst(Register::AdcOB2, b0, b1, b2))
                        && x as int == #[trigger] signed_24(b0, b1, b2),
                Err(e) => bus_failed(old(self).history(), final(self).history(), e),
            },
    {
        let ghost t0 = self.transfers();
        let ghost w0 = self.waits();
        let mut data = [0u8; 3];
        let request = [Register::AdcOB2.address()];
        assert(request@ =~= seq![spec_address(Register::AdcOB2)]);
        let r = self.i2c.write_read(self.address, &request, &mut data);
        let b0 = data[0];
        let b1 = data[1];
        let b2 = data[2];
        assert(data@ =~= seq![b0, b1, b2]);
        assert(self.transfers().drop_last() =~= t0);
        if let Err(kind) = r {
            let ghost t = Transfer::WriteRead(
                NAU7802_ADDRESS,
                seq![spec_address(Register::AdcOB2)],
                seq![b0, b1, b2],
            );
            proof { lemma_history_push(self.history@, BusOp::Fault(t, kind)); }
            self.history = Ghost(self.history@.push(BusOp::Fault(t, kind)));
            assert(self.transfers() =~= wire_of(self.history()));
                assert(self.waits() =~= waits_of(self.history()));
            return Err(Error::I2CError(kind));
        }
        let mut value: u32 = ((b0 as u32) << 16) | ((b1 as u32) << 8) | (b2 as u32);
        assert(value == (b0 as u32) * 65536 + (b1 as u32) * 256 + (b2 as u32)) by (bit_vector)
            requires
                value == ((b0 as u32) << 16) | ((b1 as u32) << 8) | (b2 as u32),
        ;
        let negative = value & 0x800000 != 0;
        assert(negative == (value >= 0x800000)) by (bit_vector)
            requires
                negative == (value & 0x800000 != 0),
                value < 0x1000000,
        ;
        let raw = value;
        if negative {
            value = value | 0xFF000000;
        }
        let x = #[verifier::truncate] (value as i32);
        assert(x == if negative { ((raw as i32) - 0x1000000i32) as i32 } else { raw as i32 }) by (bit_vector)
            requires
                value == if negative { raw | 0xFF000000 } else { raw },
                negative == (raw >= 0x800000),
                raw < 0x1000000,
                x == value as i32,
        ;
        assert((raw as i32) as int == raw as int);
        assert(x as int == signed_24(b0, b1, b2));
        proof { lemma_history_push(self.history@, BusOp::ReadBurst(Register::AdcOB2, b0, b1, b2)); }
        self.history = Ghost(self.history@.push(BusOp::ReadBurst(Register::AdcOB2, b0, b1, b2)));
        assert(self.transfers() =~= wire_of(self.history()));
                assert(self.waits() =~= waits_of(self.history()));
        Ok(x)
    }

    /// Selects the reference source: external, or an internal regulator level.
    pub fn set_ldo(&mut self, ldo: Ldo) -> (r: Result<(), Error>)
        requires
            old(self).wf(),
        ensures
            final(self).wf(),
            r is Ok ==> faults(final(self).history()) == faults(old(self).history()),
            match r {
                Ok(_) => if ldo == Ldo::External {
                    exists|v: u8|
                        final(self).history() == old(self).history() + #[trigger] rmw_ops(
                            Register::PuCtrl,
                            v,
                            with_bit(v, PU_CTRL_AVDDS, false),
                        )
                } else {
                    exists|v: u8, c: u8|
                        final(self).history() == old(self).history() + #[trigger] rmw_ops(
                            Register::PuCtrl,
                            v,
                            with_bit(v, PU_CTRL_AVDDS, true),
                        ) + #[trigger] rmw_ops(
                            Register::Ctrl1,
                            c,
                            with_field(c, CTRL1_VLDO_LSB, CTRL1_VLDO_WIDTH, ldo.spec_code()),
                        )
                },
                Err(e) => bus_failed(old(self).history(), final(self).history(), e),
            },
    {
        let ghost h0 = self.history();
        let v = self.read_register(Register::PuCtrl)?;
        match ldo {
            Ldo::External => {
                self.write_register(Register::PuCtrl, set_bit(v, PU_CTRL_AVDDS, false))?;
                assert(self.history() =~= h0 + rmw_ops(
                    Register::PuCtrl,
                    v,
                    with_bit(v, PU_CTRL_AVDDS, false),
                ));
            },
            _ => {
                self.write_register(Register::PuCtrl, set_bit(v, PU_CTRL_AVDDS, true))?;
                let c = self.read_register(Register::Ctrl1)?;
                let code = ldo.code();
                self.write_register(
                    Register::Ctrl1,
                    set_field(c, CTRL1_VLDO_LSB, CTRL1_VLDO_WIDTH, code),
                )?;
                assert(self.history() =~= h0 + rmw_ops(
                    Register::PuCtrl,
                    v,
                    with_bit(v, PU_CTRL_AVDDS, true),
                ) + rmw_ops(
                    Register::Ctrl1,
                    c,
                    with_field(c, CTRL1_VLDO_LSB, CTRL1_VLDO_WIDTH, ldo.spec_code()),
                ));
            },
        }
        Ok(())
    }

    /// Reports the reference source; external whenever the internal reference is off.
    pub fn get_ldo(&mut self) -> (r: Result<Ldo, Error>)
        requires
            old(self).wf(),
        ensures
            final(self).wf(),
            r is Ok ==> faults(final(self).history()) == faults(old(self).history()),
            r is Err && bus_failed(old(self).history(), final(self).history(), r->Err_0) || exists|v: u8, c: u8|
                #[trigger] ldo_of(v, c) == r && if bit_of(v, PU_CTRL_AVDDS) {
                    final(self).history() == old(self).history() + seq![
                        BusOp::Read(Register::PuCtrl, v),
                        BusOp::Read(Register::Ctrl1, c),
                    ]
                } else {
                    final(self).history() == old(self).history().push(
                        BusOp::Read(Register::PuCtrl, v),
                    )
                },
    {
        let ghost h0 = self.history();
        let v = self.read_register(Register::PuCtrl)?;
        if !get_bit(v, PU_CTRL_AVDDS) {
            assert(ldo_of(v, 0) == Ok::<Ldo, Error>(Ldo::External));
            return Ok(Ldo::External);
        }
        let c = self.read_register(Register::Ctrl1)?;
        assert(self.history() =~= h0 + seq![
            BusOp::Read(Register::PuCtrl, v),
            BusOp::Read(Register::Ctrl1, c),
        ]);
        let r = match Ldo::try_from(get_field(c, CTRL1_VLDO_LSB, CTRL1_VLDO_WIDTH)) {
            Ok(ldo) => Ok(ldo),
            Err(_) => Err(Error::InvalidData),
        };
        assert(ldo_of(v, c) == r);
        r
    }

    /// Selects the programmable gain.
    pub fn set_gain(&mut self, gain: Gain) -> (r: Result<(), Error>)
        requires
            old(self).wf(),
        ensures
            final(self).wf(),
            r is Ok ==> exists|v: u8|
                final(self).transfers() == old(self).transfers() + seq![
                    Transfer::WriteRead(NAU7802_ADDRESS, seq![0x01u8], seq![v]),
                    Transfer::Write(
                        NAU7802_ADDRESS,
                        seq![
                            0x01u8,
                            #[trigger] with_field(v, CTRL1_GAINS_LSB, CTRL1_GAINS_WIDTH, gain.spec_code()),
                        ],
                    ),
                ] && final(self).waits() == old(self).waits(),
            r is Ok ==> faults(final(self).history()) == faults(old(self).history()),
            match r {
                Ok(_) => exists|v: u8|
                    final(self).history() == old(self).history() + #[trigger] rmw_ops(
                        Register::Ctrl1,
                        v,
                        with_field(v, CTRL1_GAINS_LSB, CTRL1_GAINS_WIDTH, gain.spec_code()),
                    ),
                Err(e) => bus_failed(old(self).history(), final(self).history(), e),
            },
    {
        let ghost t0 = self.transfers();
        let ghost w0 = self.waits();
        let ghost h0 = self.history();
        let v = self.read_register(Register::Ctrl1)?;
        let code = gain.code();
        self.write_register(Register::Ctrl1, set_field(v, CTRL1_GAINS_LSB, CTRL1_GAINS_WIDTH, code))?;
        assert(self.history() =~= h0 + rmw_ops(
            Register::Ctrl1,
            v,
            with_field(v, CTRL1_GAINS_LSB, CTRL1_GAINS_WIDTH, gain.spec_code()),
        ));
        assert(self.transfers() =~= t0 + seq![
            Transfer::WriteRead(NAU7802_ADDRESS, seq![0x01u8], seq![v]),
            Transfer::Write(
                NAU7802_ADDRESS,
                seq![0x01u8, with_field(v, CTRL1_GAINS_LSB, CTRL1_GAINS_WIDTH, gain.spec_code())],
            ),
        ]);
        Ok(())
    }

    /// Reports the programmable gain.
    pub fn get_gain(&mut self) -> (r: Result<Gain, Error>)
        requires
            old(self).wf(),
        ensures
            final(self).wf(),
            r is Ok ==> faults(final(self).history()) == faults(old(self).history()),
            r is Err && bus_failed(old(self).history(), final(self).history(), r->Err_0) || exists|v: u8|
                final(self).history() == old(self).history().push(BusOp::Read(Register::Ctrl1, v))
                    && r == #[trigger] gain_of(v),
    {
        let v = self.read_register(Register::Ctrl1)?;
        let r = match Gain::try_from(get_field(v, CTRL1_GAINS_LSB, CTRL1_GAINS_WIDTH)) {
            Ok(gain) => Ok(gain),
            Err(_) => Err(Error::InvalidData),
        };
        assert(r == gain_of(v));
        r
    }

    /// Selects the conversion rate.
    pub fn set_sample_rate(&mut self, sample_rate: SampleRate) -> (r: Result<(), Error>)
        requires
            old(self).wf(),
        ensures
            final(self).wf(),
            r is Ok ==> exists|v: u8|
                final(self).transfers() == old(self).transfers() + seq![
                    Transfer::WriteRead(NAU7802_ADDRESS, seq![0x02u8], seq![v]),
                    Transfer::Write(
                        NAU7802_ADDRESS,
                        seq![
                            0x02u8,
                            #[trigger] with_field(
                                v,
                                CTRL2_CRS_LSB,
                                CTRL2_CRS_WIDTH,
                                sample_rate.spec_code(),
                            ),
                        ],
                    ),
                ] && final(self).waits() == old(self).waits(),
            r is Ok ==> faults(final(self).history()) == faults(old(self).history()),
            match r {
                Ok(_) => exists|v: u8|
                    final(self).history() == old(self).history() + #[trigger] rmw_ops(
                        Register::Ctrl2,
                        v,
                        with_field(v, CTRL2_CRS_LSB, CTRL2_CRS_WIDTH, sample_rate.spec_code()),
                    ),
                Err(e) => bus_failed(old(self).history(), final(self).history(), e),
            },
    {
        let ghost t0 = self.transfers();
        let ghost w0 = self.waits();
        let ghost h0 = self.history();
        let v = self.read_register(Register::Ctrl2)?;
        let code = sample_rate.code();
        self.write_register(Register::Ctrl2, set_field(v, CTRL2_CRS_LSB, CTRL2_CRS_WIDTH, code))?;
        assert(self.history() =~= h0 + rmw_ops(
            Register::Ctrl2,
            v,
            with_field(v, CTRL2_CRS_LSB, CTRL2_CRS_WIDTH, sample_rate.spec_code()),
        ));
        assert(self.transfers() =~= t0 + seq![
            Transfer::WriteRead(NAU7802_ADDRESS, seq![0x02u8], seq![v]),
            Transfer::Write(
                NAU7802_ADDRESS,
                seq![0x02u8, with_field(v, CTRL2_CRS_LSB, CTRL2_CRS_WIDTH, sample_rate.spec_code())],
            ),
        ]);
        Ok(())
    }

    /// Reports the conversion rate; a reserved code is invalid data.
    pub fn get_sample_rate(&mut self) -> (r: Result<SampleRate, Error>)
        requires
            old(self).wf(),
        ensures
            final(self).wf(),
            r is Ok ==> faults(final(self).history()) == faults(old(self).history()),
            r is Err && bus_failed(old(self).history(), final(self).history(), r->Err_0) || exists|v: u8|
                final(self).history() == old(self).history().push(BusOp::Read(Register::Ctrl2, v))
                    && r == #[trigger] sample_rate_of(v),
    {
        let v = self.read_register(Register::Ctrl2)?;
        let r = match SampleRate::try_from(get_field(v, CTRL2_CRS_LSB, CTRL2_CRS_WIDTH)) {
            Ok(sample_rate) => Ok(sample_rate),
            Err(_) => Err(Error::InvalidData),
        };
        assert(r == sample_rate_of(v));
        r
    }


    /// Starts a calibration in `calibration_mode` and polls every 10 ms until the
    /// chip reports it finished; the error flag of that last poll decides. The
    /// chip bounds no calibration; the driver gives up with `Timeout` only after
    /// `POLL_LIMIT` busy polls, which no real calibration comes near.
    pub fn calibrate(&mut self, calibration_mode: CalibrationMode) -> (r: Result<(), Error>)
        requires
            old(self).wf(),
        ensures
            final(self).wf(),
            r is Ok ==> faults(final(self).history()) == faults(old(self).history()),
            r is Err && bus_failed(old(self).history(), final(self).history(), r->Err_0) || exists|v: u8, busy: Seq<u8>, last: u8|
                all_busy(busy) && final(self).history() == old(self).history()
                    + #[trigger] calibration_ops(v, calibration_mode, busy, last) && match r {
                    Ok(_) => !bit_of(last, CTRL2_CALS) && !bit_of(last, CTRL2_CAL_ERR),
                    Err(Error::CalibrationError) => !bit_of(last, CTRL2_CALS) && bit_of(
                        last,
                        CTRL2_CAL_ERR,
                    ),
                    Err(Error::Timeout) => bit_of(last, CTRL2_CALS) && busy.len() == POLL_LIMIT,
                    Err(_) => false,
                },
    {
        let ghost h0 = self.history();
        let v = self.read_register(Register::Ctrl2)?;
        let code = calibration_mode.code();
        let start = set_bit(
            set_field(v, CTRL2_CALMOD_LSB, CTRL2_CALMOD_WIDTH, code),
            CTRL2_CALS,
            true,
        );
        self.write_register(Register::Ctrl2, start)?;
        let ghost h1 = self.history();
        let ghost mut busy: Seq<u8> = Seq::empty();
        let mut polls: u64 = 0;
        assert(h1 =~= h1 + busy_poll_ops(busy));
        loop
            invariant
                self.wf(),
                h0 == old(self).history(),
                faults(self.history()) == faults(h0),
                h1 == h0 + rmw_ops(Register::Ctrl2, v, calibration_start(v, calibration_mode)),
                busy.len() == polls,
                all_busy(busy),
                self.history() == h1 + busy_poll_ops(busy),
            decreases POLL_LIMIT - polls,
        {
            let b = self.read_register(Register::Ctrl2)?;
            assert(self.history() =~= h0 + calibration_ops(v, calibration_mode, busy, b));
            if !get_bit(b, CTRL2_CALS) {
                if get_bit(b, CTRL2_CAL_ERR) {
                    return Err(Error::CalibrationError);
                }
                return Ok(());
            }
            if polls == POLL_LIMIT {
                return Err(Error::Timeout);
            }
            self.wait(10);
            proof {
                let grown = busy.push(b);
                assert(grown.drop_last() =~= busy);
                assert(busy_poll_ops(grown) == busy_poll_ops(busy) + seq![
                    BusOp::Read(Register::Ctrl2, b),
                    BusOp::Wait(10),
                ]);
                busy = grown;
            }
            polls = polls + 1;
            assert(self.history() =~= h1 + busy_poll_ops(busy));
        }
    }

    fn read_revision_id(&mut self) -> (r: Result<u8, Error>)
        requires
            old(self).wf(),
        ensures
            final(self).wf(),
            r is Ok ==> faults(final(self).history()) == faults(old(self).history()),
            match r {
                Ok(id) => exists|v: u8|
                    final(self).history() == old(self).history().push(
                        BusOp::Read(Register::DeviceRev, v),
                    ) && id == #[trigger] field_of(v, DEVICE_REV_ID_LSB, DEVICE_REV_ID_WIDTH)
                        && id <= 0xF,
                Err(e) => bus_failed(old(self).history(), final(self).history(), e),
            },
    {
        let v = self.read_register(Register::DeviceRev)?;
        assert(0xffu8 >> 4u8 == 15u8) by (bit_vector);
        Ok(get_field(v, DEVICE_REV_ID_LSB, DEVICE_REV_ID_WIDTH))
    }

}

} // verus!

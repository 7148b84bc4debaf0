use std::cell::RefCell;
use std::rc::Rc;

use embedded_hal::i2c::{ErrorKind, NoAcknowledgeSource};
use nau7802::registers::{get_bit, get_field, set_bit, set_field};
use nau7802::{
    check_revision,
    CalibrationMode, DelayMs, Error, Gain, I2cBus, Ldo, Nau7802, Register, SampleRate,
};

const PUR: u8 = 1 << 3;
const CALS: u8 = 1 << 2;
const CAL_ERR: u8 = 1 << 3;

/// A simulated chip: a register file with a power-up-ready flag, a calibration
/// that stays busy for a number of polls, and a record of delays.
struct Chip {
    regs: [u8; 32],
    ready: bool,
    busy_polls: usize,
    cal_error: bool,
    calibrating: bool,
    fail: Option<ErrorKind>,
    delays: Vec<u32>,
}

impl Chip {
    fn new(revision: u8) -> Chip {
        let mut regs = [0u8; 32];
        regs[0x1F] = revision;
        Chip { regs, ready: true, busy_polls: 0, cal_error: false, calibrating: false, fail: None, delays: Vec::new() }
    }

    fn read_reg(&mut self, r: usize) -> u8 {
        if r == 0x00 {
            if self.ready {
                self.regs[0] | PUR
            } else {
                self.regs[0] & !PUR
            }
        } else if r == 0x02 && self.calibrating {
            if self.busy_polls > 0 {
                self.busy_polls -= 1;
            } else {
                self.calibrating = false;
                self.regs[2] &= !CALS;
                if self.cal_error {
                    self.regs[2] |= CAL_ERR;
                }
            }
            self.regs[2]
        } else {
            self.regs[r]
        }
    }
}

#[derive(Clone)]
struct Bus(Rc<RefCell<Chip>>);

impl I2cBus for Bus {
    fn write(&mut self, address: u8, bytes: &[u8]) -> Result<(), ErrorKind> {
        assert_eq!(address, 0x2A);
        let mut chip = self.0.borrow_mut();
        if let Some(kind) = chip.fail {
            return Err(kind);
        }
        assert_eq!(bytes.len(), 2);
        chip.regs[bytes[0] as usize] = bytes[1];
        if bytes[0] == 0x02 && bytes[1] & CALS != 0 {
            chip.calibrating = true;
        }
        Ok(())
    }

    fn write_read(&mut self, address: u8, bytes: &[u8], buffer: &mut [u8]) -> Result<(), ErrorKind> {
        assert_eq!(address, 0x2A);
        let mut chip = self.0.borrow_mut();
        if let Some(kind) = chip.fail {
            return Err(kind);
        }
        assert_eq!(bytes.len(), 1);
        let start = bytes[0] as usize;
        for (i, b) in buffer.iter_mut().enumerate() {
            *b = chip.read_reg(start + i);
        }
        Ok(())
    }
}

impl DelayMs for Bus {
    fn delay_ms(&mut self, ms: u32) {
        self.0.borrow_mut().delays.push(ms);
    }
}

fn chip(revision: u8) -> Rc<RefCell<Chip>> {
    Rc::new(RefCell::new(Chip::new(revision)))
}

fn device(state: &Rc<RefCell<Chip>>) -> Nau7802<Bus, Bus> {
    match Nau7802::new(Bus(state.clone()), Bus(state.clone())) {
        Ok(d) => d,
        Err(e) => panic!("construction failed: {:?}", e),
    }
}

#[test]
fn register_addresses() {
    assert_eq!(Register::PuCtrl.address(), 0x00);
    assert_eq!(Register::Ctrl1.address(), 0x01);
    assert_eq!(Register::Ctrl2.address(), 0x02);
    assert_eq!(Register::OCal1B2.address(), 0x03);
    assert_eq!(Register::GCal1B3.address(), 0x06);
    assert_eq!(Register::OCal2B2.address(), 0x0A);
    assert_eq!(Register::GCal2B0.address(), 0x10);
    assert_eq!(Register::I2CControl.address(), 0x11);
    assert_eq!(Register::AdcOB2.address(), 0x12);
    assert_eq!(Register::AdcOB0.address(), 0x14);
    assert_eq!(Register::AdcOtpB2.address(), 0x15);
    assert_eq!(Register::OtpB0.address(), 0x17);
    assert_eq!(Register::Pga.address(), 0x1B);
    assert_eq!(Register::PowerCtrl.address(), 0x1C);
    assert_eq!(Register::DeviceRev.address(), 0x1F);
}

#[test]
fn gain_codes_round_trip() {
    let all = [Gain::G1, Gain::G2, Gain::G4, Gain::G8, Gain::G16, Gain::G32, Gain::G64, Gain::G128];
    for (i, g) in all.iter().enumerate() {
        assert_eq!(g.code(), i as u8);
        assert_eq!(Gain::try_from(g.code()), Ok(*g));
    }
    assert_eq!(Gain::try_from(8), Err(()));
}

#[test]
fn ldo_codes_round_trip() {
    let all = [Ldo::L4v5, Ldo::L4v2, Ldo::L3v9, Ldo::L3v6, Ldo::L3v3, Ldo::L3v0, Ldo::L2v7, Ldo::L2v4];
    for (i, l) in all.iter().enumerate() {
        assert_eq!(l.code(), i as u8);
        assert_eq!(Ldo::try_from(l.code()), Ok(*l));
    }
    assert_eq!(Ldo::try_from(8), Err(()));
}

#[test]
fn sample_rate_codes_round_trip() {
    let all = [
        (SampleRate::SPS10, 0),
        (SampleRate::SPS20, 1),
        (SampleRate::SPS40, 2),
        (SampleRate::SPS80, 3),
        (SampleRate::SPS320, 7),
    ];
    for (s, code) in all.iter() {
        assert_eq!(s.code(), *code);
        assert_eq!(SampleRate::try_from(s.code()), Ok(*s));
    }
}

#[test]
fn reserved_sample_rate_codes_are_refused() {
    for code in 4u8..=6 {
        assert_eq!(SampleRate::try_from(code), Err(()));
    }
    let state = chip(0x0F);
    let mut d = device(&state);
    for code in 4u8..=6 {
        state.borrow_mut().regs[0x02] = code << 4;
        assert_eq!(d.get_sample_rate(), Err(Error::InvalidData));
    }
}

#[test]
fn calibration_mode_codes() {
    assert_eq!(CalibrationMode::Internal.code(), 0);
    assert_eq!(CalibrationMode::Offset.code(), 2);
    assert_eq!(CalibrationMode::Gain.code(), 3);
}

#[test]
fn field_accessors() {
    assert_eq!(get_field(0b0111_0000, 4, 3), 0b111);
    assert_eq!(get_field(0b1010_1100, 2, 2), 0b11);
    assert_eq!(set_field(0xFF, 0, 3, 0), 0xF8);
    assert_eq!(set_field(0x00, 3, 3, 0b101), 0b0010_1000);
    assert_eq!(set_field(0xFF, 4, 2, 0b01), 0xDF);
    assert!(get_bit(0x80, 7));
    assert!(!get_bit(0x7F, 7));
    assert_eq!(set_bit(0xFF, 6, false), 0xBF);
    assert_eq!(set_bit(0x00, 0, true), 0x01);
}

#[test]
fn setters_keep_unrelated_bits() {
    let state = chip(0x0F);
    let mut d = device(&state);

    state.borrow_mut().regs[0x01] = 0xFF;
    d.set_gain(Gain::G1).unwrap();
    assert_eq!(state.borrow().regs[0x01], 0xF8);

    state.borrow_mut().regs[0x02] = 0xFF;
    d.set_sample_rate(SampleRate::SPS20).unwrap();
    assert_eq!(state.borrow().regs[0x02], 0x9F);

    state.borrow_mut().regs[0x01] = 0xFF;
    d.set_ldo(Ldo::L4v5).unwrap();
    assert_eq!(state.borrow().regs[0x01], 0xC7);
}

#[test]
fn getters_report_written_values() {
    let state = chip(0x0F);
    let mut d = device(&state);
    d.set_gain(Gain::G16).unwrap();
    assert_eq!(d.get_gain(), Ok(Gain::G16));
    d.set_sample_rate(SampleRate::SPS320).unwrap();
    assert_eq!(d.get_sample_rate(), Ok(SampleRate::SPS320));
}

fn read_output(bytes: [u8; 3]) -> i32 {
    let state = chip(0x0F);
    let mut d = device(&state);
    state.borrow_mut().regs[0x12..0x15].copy_from_slice(&bytes);
    d.read().unwrap()
}

#[test]
fn read_sign_extends() {
    assert_eq!(read_output([0x00, 0x00, 0x01]), 1);
    assert_eq!(read_output([0xFF, 0xFF, 0xFF]), -1);
    assert_eq!(read_output([0x80, 0x00, 0x00]), -8388608);
    assert_eq!(read_output([0x7F, 0xFF, 0xFF]), 8388607);
    assert_eq!(read_output([0x12, 0x34, 0x56]), 0x123456);
}

#[test]
fn revision_mismatch_fails_construction() {
    for revision in [0x00u8, 0x0E] {
        let state = chip(revision);
        match Nau7802::new(Bus(state.clone()), Bus(state.clone())) {
            Err(e) => assert_eq!(e, Error::InvalidRevisionId(revision)),
            Ok(_) => panic!("construction accepted revision {}", revision),
        }
    }
}

#[test]
fn revision_is_the_low_nibble() {
    let state = chip(0x3F);
    assert!(Nau7802::new(Bus(state.clone()), Bus(state.clone())).is_ok());
}

#[test]
fn construction_applies_options_and_trims() {
    let state = chip(0x0F);
    {
        let mut s = state.borrow_mut();
        s.regs[0x15] = 0x00;
        s.regs[0x1B] = 0xFF;
        s.regs[0x1C] = 0x00;
    }
    let d = Nau7802::new_with_options(
        Bus(state.clone()),
        Bus(state.clone()),
        Ldo::L2v4,
        Gain::G4,
        SampleRate::SPS40,
    );
    assert!(d.is_ok());
    let s = state.borrow();
    assert_eq!(s.regs[0x15] & 0x30, 0x30);
    assert_eq!(s.regs[0x1B], 0xBF);
    assert_eq!(s.regs[0x1C], 0x80);
    assert_eq!((s.regs[0x01] >> 3) & 0x7, 7);
    assert_eq!(s.regs[0x01] & 0x7, 2);
    assert_eq!((s.regs[0x02] >> 4) & 0x7, 2);
    assert_ne!(s.regs[0x00] & 0x80, 0);
    assert_eq!(s.delays, vec![10, 1, 600]);
}

#[test]
fn reset_fails_when_not_ready() {
    let state = chip(0x0F);
    let mut d = device(&state);
    state.borrow_mut().ready = false;
    assert_eq!(d.reset(), Err(Error::NotReady));
    state.borrow_mut().ready = true;
    assert_eq!(d.reset(), Ok(()));
}

#[test]
fn construction_fails_when_not_ready() {
    let state = chip(0x0F);
    state.borrow_mut().ready = false;
    match Nau7802::new(Bus(state.clone()), Bus(state.clone())) {
        Err(e) => assert_eq!(e, Error::NotReady),
        Ok(_) => panic!("construction succeeded without a ready chip"),
    }
}

#[test]
fn enable_powers_down_and_up() {
    let state = chip(0x0F);
    let mut d = device(&state);
    state.borrow_mut().regs[0x00] = 0xFF;
    d.enable(false).unwrap();
    assert_eq!(state.borrow().regs[0x00], 0xF9);
    state.borrow_mut().delays.clear();
    d.enable(true).unwrap();
    assert_eq!(state.borrow().regs[0x00] & 0x16, 0x16);
    assert_eq!(state.borrow().delays, vec![600]);
    state.borrow_mut().ready = false;
    assert_eq!(d.enable(true), Err(Error::NotReady));
}

#[test]
fn ldo_round_trip() {
    let state = chip(0x0F);
    let mut d = device(&state);
    d.set_ldo(Ldo::External).unwrap();
    assert_eq!(d.get_ldo(), Ok(Ldo::External));
    d.set_ldo(Ldo::L3v3).unwrap();
    assert_eq!(d.get_ldo(), Ok(Ldo::L3v3));
}

#[test]
fn available_reports_conversion_ready() {
    let state = chip(0x0F);
    let mut d = device(&state);
    state.borrow_mut().regs[0x00] |= 1 << 5;
    assert_eq!(d.available(), Ok(true));
    state.borrow_mut().regs[0x00] &= !(1 << 5);
    assert_eq!(d.available(), Ok(false));
}

#[test]
fn calibrate_waits_once_per_busy_poll() {
    let state = chip(0x0F);
    let mut d = device(&state);
    {
        let mut s = state.borrow_mut();
        s.delays.clear();
        s.busy_polls = 3;
        s.regs[0x02] = 0xF0;
    }
    assert_eq!(d.calibrate(CalibrationMode::Offset), Ok(()));
    let s = state.borrow();
    assert_eq!(s.delays, vec![10, 10, 10]);
    assert_eq!(s.regs[0x02] & 0x03, 2);
    assert_eq!(s.regs[0x02] & 0xF0, 0xF0);
}

#[test]
fn calibrate_reports_error_flag_of_last_poll() {
    let state = chip(0x0F);
    let mut d = device(&state);
    {
        let mut s = state.borrow_mut();
        s.delays.clear();
        s.busy_polls = 2;
        s.cal_error = true;
    }
    assert_eq!(d.calibrate(CalibrationMode::Offset), Err(Error::CalibrationError));
    assert_eq!(state.borrow().delays, vec![10, 10]);
}

#[test]
fn calibrate_without_busy_polls_does_not_wait() {
    let state = chip(0x0F);
    let mut d = device(&state);
    state.borrow_mut().delays.clear();
    assert_eq!(d.calibrate(CalibrationMode::Gain), Ok(()));
    assert!(state.borrow().delays.is_empty());
}

#[test]
fn bus_errors_propagate() {
    let state = chip(0x0F);
    let mut d = device(&state);
    let kind = ErrorKind::NoAcknowledge(NoAcknowledgeSource::Address);
    state.borrow_mut().fail = Some(kind);
    assert_eq!(d.read(), Err(Error::I2CError(kind)));
    assert_eq!(d.set_gain(Gain::G2), Err(Error::I2CError(kind)));
    assert_eq!(d.calibrate(CalibrationMode::Internal), Err(Error::I2CError(kind)));
    let fresh = chip(0x0F);
    fresh.borrow_mut().fail = Some(ErrorKind::Bus);
    match Nau7802::new(Bus(fresh.clone()), Bus(fresh.clone())) {
        Err(e) => assert_eq!(e, Error::I2CError(ErrorKind::Bus)),
        Ok(_) => panic!("construction succeeded on a failing bus"),
    }
}

#[test]
fn check_revision_accepts_only_0xf() {
    assert_eq!(check_revision(0xF), Ok(()));
    assert_eq!(check_revision(0x0), Err(Error::InvalidRevisionId(0x0)));
    assert_eq!(check_revision(0xE), Err(Error::InvalidRevisionId(0xE)));
}

#[test]
fn initialize_again_reports_revision_and_readiness() {
    let state = chip(0x0F);
    let mut d = device(&state);
    state.borrow_mut().regs[0x1F] = 0x0E;
    assert_eq!(
        d.initialize(Ldo::L3v3, Gain::G128, SampleRate::SPS80),
        Err(Error::InvalidRevisionId(0x0E))
    );
    state.borrow_mut().regs[0x1F] = 0xAF;
    assert_eq!(d.initialize(Ldo::External, Gain::G2, SampleRate::SPS10), Ok(()));
    assert_eq!(d.get_ldo(), Ok(Ldo::External));
    state.borrow_mut().ready = false;
    assert_eq!(d.initialize(Ldo::L3v3, Gain::G128, SampleRate::SPS80), Err(Error::NotReady));
}

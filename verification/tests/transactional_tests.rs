use max7301::Expander;
use max7301::ExpanderInterface;
use max7301::RegisterAddress;
use max7301::Strategy;
use std::sync::Arc;
use std::sync::Mutex;

#[derive(Clone, Copy, Debug, PartialEq)]
pub enum TestRegister {
    Forbidden,
    IgnoreWrite(u8),
    ResetValue(u8),
    WrittenValue(u8),
}

use TestRegister as TR;

pub struct TestSpyInterface {
    registers: Arc<Mutex<Vec<TestRegister>>>,
    reads: Arc<Mutex<Vec<u8>>>,
}

impl TestSpyInterface {
    pub fn new() -> Self {
        let mut new = Self {
            registers: Arc::new(Mutex::new(Vec::new())),
            reads: Arc::new(Mutex::new(Vec::new())),
        };
        new.reset();
        new
    }

    pub fn reset(&mut self) {
        self.reads.lock().unwrap().clear();
        let mut regs = self.registers.lock().unwrap();
        regs.clear();
        regs.resize(0x60, TR::Forbidden);
        regs[0x00] = TR::IgnoreWrite(0x00);
        regs[0x04] = TR::ResetValue(0b00000001);
        regs[0x06] = TR::ResetValue(0x00);
        for addr in 0x09..=0x0F {
            regs[addr] = TR::ResetValue(0b10101010);
        }
        for addr in 0x20..=0x5F {
            regs[addr] = TR::ResetValue(0x00);
        }
    }

    pub fn split(&self) -> Self {
        Self { registers: self.registers.clone(), reads: self.reads.clone() }
    }

    pub fn get(&self, addr: u8) -> TestRegister {
        self.registers.lock().unwrap()[addr as usize]
    }

    pub fn set(&mut self, addr: u8, val: TestRegister) {
        self.registers.lock().unwrap()[addr as usize] = val;
    }

    pub fn reads(&self) -> Vec<u8> {
        self.reads.lock().unwrap().clone()
    }
}

impl ExpanderInterface for TestSpyInterface {
    type Error = ();

    fn state(&self) -> max7301::interface::DeviceState {
        unreachable!()
    }

    fn ops(&self) -> vstd::seq::Seq<max7301::interface::BusOp> {
        unreachable!()
    }

    fn write_register(&mut self, addr: RegisterAddress, value: u8) -> Result<(), ()> {
        let mut regs = self.registers.lock().unwrap();
        let enc_addr = addr.0;
        assert!(enc_addr <= 0x5F);
        match regs[enc_addr as usize] {
            TestRegister::Forbidden => panic!("write to forbidden register {}", enc_addr),
            TestRegister::IgnoreWrite(_) => {},
            ref mut m => *m = TestRegister::WrittenValue(value),
        };
        Ok(())
    }

    fn read_register(&mut self, addr: RegisterAddress) -> Result<u8, ()> {
        self.reads.lock().unwrap().push(addr.0);
        let regs = self.registers.lock().unwrap();
        let enc_addr = addr.0;
        assert!(enc_addr <= 0x5F);
        match regs[enc_addr as usize] {
            TestRegister::Forbidden => panic!("read from forbidden register {}", enc_addr),
            TestRegister::IgnoreWrite(v) => Ok(v),
            TestRegister::ResetValue(v) => Ok(v),
            TestRegister::WrittenValue(v) => Ok(v),
        }
    }
}

#[test]
fn refresh_reads_minimal_windows_and_serves_reads() {
    let mut ei = TestSpyInterface::new();
    ei.set(0x4B, TR::ResetValue(0x01));
    ei.set(0x53, TR::ResetValue(0x01));
    let mut io = Expander::new(ei.split()).into_transactional();
    let pin_eleven = io.port_pin(11);
    let pin_nineteen = io.port_pin(19);

    assert!(io.refresh().is_ok());
    assert_eq!(ei.reads(), vec![0x4B, 0x53]);
    assert_eq!(pin_eleven.is_high(&mut io), Ok(true));
    assert_eq!(pin_nineteen.is_high(&mut io), Ok(true));
}

#[test]
fn write_back_exact_batches_contiguous_pins() {
    let ei = TestSpyInterface::new();
    let mut io = Expander::new(ei.split()).into_transactional();
    let pins: Vec<_> = (11..=18).map(|p| io.port_pin(p)).collect();
    for pin in &pins {
        assert!(pin.set_high(&mut io).is_ok());
    }

    assert!(io.write_back(Strategy::Exact).is_ok());
    assert_eq!(ei.get(0x4B), TR::WrittenValue(0xFF));
    assert_eq!(ei.reads(), vec![]);
    for p in 4..=10u8 {
        assert_eq!(ei.get(0x20 + p), TR::ResetValue(0x00));
    }
    for p in 19..=31u8 {
        assert_eq!(ei.get(0x20 + p), TR::ResetValue(0x00));
    }
}

#[test]
fn write_back_stomp_clean_avoids_blind_batches() {
    let ei = TestSpyInterface::new();
    let mut io = Expander::new(ei.split()).into_transactional();
    let _pin_fourteen = io.port_pin(14);
    assert!(io.refresh().is_ok());
    let pin_twelve = io.port_pin(12);
    assert!(pin_twelve.set_high(&mut io).is_ok());

    assert!(io.write_back(Strategy::StompClean).is_ok());
    assert_eq!(ei.get(0x2C), TR::WrittenValue(0x01));
    for a in 0x44..=0x5Fu8 {
        assert_eq!(ei.get(a), TR::ResetValue(0x00));
    }
}

#[test]
fn write_back_exact_single_pins_write_singly() {
    let ei = TestSpyInterface::new();
    let mut io = Expander::new(ei.split()).into_transactional();
    let pin_five = io.port_pin(5);
    let pin_twenty = io.port_pin(20);
    assert!(pin_five.set_high(&mut io).is_ok());
    assert!(pin_twenty.set_low(&mut io).is_ok());

    assert!(io.write_back(Strategy::Exact).is_ok());
    assert_eq!(ei.get(0x25), TR::WrittenValue(0x01));
    assert_eq!(ei.get(0x34), TR::WrittenValue(0x00));
    assert_eq!(ei.get(0x26), TR::ResetValue(0x00));
}

#[test]
fn write_back_stomp_any_batches_one_dirty_pin() {
    let ei = TestSpyInterface::new();
    let mut io = Expander::new(ei.split()).into_transactional();
    let pin_nine = io.port_pin(9);
    assert!(pin_nine.set_high(&mut io).is_ok());

    assert!(io.write_back(Strategy::StompAny).is_ok());
    assert_eq!(ei.get(0x49), TR::WrittenValue(0b00000001));
}

#[test]
fn write_back_clears_pending_writes() {
    let mut ei = TestSpyInterface::new();
    let mut io = Expander::new(ei.split()).into_transactional();
    let pin_seven = io.port_pin(7);
    assert!(pin_seven.set_high(&mut io).is_ok());
    assert!(io.write_back(Strategy::Exact).is_ok());
    assert_eq!(ei.get(0x27), TR::WrittenValue(0x01));
    ei.set(0x27, TR::ResetValue(0x00));

    assert!(io.write_back(Strategy::Exact).is_ok());
    assert_eq!(ei.get(0x27), TR::ResetValue(0x00));
    assert_eq!(ei.reads(), vec![]);
}

#[test]
fn pin_write_makes_pin_readable_without_refresh() {
    let ei = TestSpyInterface::new();
    let mut io = Expander::new(ei.split()).into_transactional();
    let pin_six = io.port_pin(6);
    assert!(pin_six.set_high(&mut io).is_ok());
    assert_eq!(pin_six.is_high(&mut io), Ok(true));
    assert_eq!(pin_six.is_low(&mut io), Ok(false));
    assert!(pin_six.set_low(&mut io).is_ok());
    assert_eq!(pin_six.is_high(&mut io), Ok(false));
}

#[test]
fn refresh_discards_pending_writes() {
    let ei = TestSpyInterface::new();
    let mut io = Expander::new(ei.split()).into_transactional();
    let pin_eight = io.port_pin(8);
    assert!(pin_eight.set_high(&mut io).is_ok());
    assert!(io.refresh().is_ok());
    assert!(io.write_back(Strategy::Exact).is_ok());
    assert_eq!(ei.get(0x28), TR::ResetValue(0x00));
    assert_eq!(pin_eight.is_high(&mut io), Ok(false));
}

/// An interface whose bus has failed: every transaction errors out.
pub struct BrokenInterface;

impl ExpanderInterface for BrokenInterface {
    type Error = ();

    fn state(&self) -> max7301::interface::DeviceState {
        unreachable!()
    }

    fn ops(&self) -> max7301::interface::BusTrace {
        unreachable!()
    }

    fn write_register(&mut self, _addr: RegisterAddress, _value: u8) -> Result<(), ()> {
        Err(())
    }

    fn read_register(&mut self, _addr: RegisterAddress) -> Result<u8, ()> {
        Err(())
    }
}

#[test]
fn write_back_error_keeps_pending_writes() {
    let mut io = Expander::new(BrokenInterface).into_transactional();
    let pin_five = io.port_pin(5);
    assert!(pin_five.set_high(&mut io).is_ok());
    assert_eq!(io.write_back(Strategy::Exact), Err(()));
    assert_ne!(io.dirty, 0);
    assert_eq!(io.refresh(), Err(()));
    assert_eq!(io.dirty, 0);
}

use max7301::Expander;
use max7301::ExpanderInterface;
use max7301::RegisterAddress;
use std::sync::Arc;
use std::sync::Mutex;

#[derive(Clone, Copy, Debug, PartialEq)]
pub enum TestRegister {
    Forbidden,
    IgnoreWrite(u8),
    ResetValue(u8),
    WrittenValue(u8),
}

use TestRegister as TR;

pub struct TestSpyInterface {
    registers: Arc<Mutex<Vec<TestRegister>>>,
    reads: Arc<Mutex<Vec<u8>>>,
}

impl TestSpyInterface {
    pub fn new() -> Self {
        let mut new = Self {
            registers: Arc::new(Mutex::new(Vec::new())),
            reads: Arc::new(Mutex::new(Vec::new())),
        };
        new.reset();
        new
    }

    pub fn reset(&mut self) {
        self.reads.lock().unwrap().clear();
        let mut regs = self.registers.lock().unwrap();
        regs.clear();
        regs.resize(0x60, TR::Forbidden);
        regs[0x00] = TR::IgnoreWrite(0x00);
        regs[0x04] = TR::ResetValue(0b00000001);
        regs[0x06] = TR::ResetValue(0x00);
        for addr in 0x09..=0x0F {
            regs[addr] = TR::ResetValue(0b10101010);
        }
        for addr in 0x20..=0x5F {
            regs[addr] = TR::ResetValue(0x00);
        }
    }

    pub fn split(&self) -> Self {
        Self { registers: self.registers.clone(), reads: self.reads.clone() }
    }

    pub fn get(&self, addr: u8) -> TestRegister {
        self.registers.lock().unwrap()[addr as usize]
    }

    pub fn set(&mut self, addr: u8, val: TestRegister) {
        self.registers.lock().unwrap()[addr as usize] = val;
    }
}

impl ExpanderInterface for TestSpyInterface {
    type Error = ();

    fn state(&self) -> max7301::interface::DeviceState {
        unreachable!()
    }

    fn ops(&self) -> vstd::seq::Seq<max7301::interface::BusOp> {
        unreachable!()
    }

    fn write_register(&mut self, addr: RegisterAddress, value: u8) -> Result<(), ()> {
        let mut regs = self.registers.lock().unwrap();
        let enc_addr = addr.0;
        assert!(enc_addr <= 0x5F);
        match regs[enc_addr as usize] {
            TestRegister::Forbidden => panic!("write to forbidden register {}", enc_addr),
            TestRegister::IgnoreWrite(_) => {},
            ref mut m => *m = TestRegister::WrittenValue(value),
        };
        Ok(())
    }

    fn read_register(&mut self, addr: RegisterAddress) -> Result<u8, ()> {
        self.reads.lock().unwrap().push(addr.0);
        let regs = self.registers.lock().unwrap();
        let enc_addr = addr.0;
        assert!(enc_addr <= 0x5F);
        match regs[enc_addr as usize] {
            TestRegister::Forbidden => panic!("read from forbidden register {}", enc_addr),
            TestRegister::IgnoreWrite(v) => Ok(v),
            TestRegister::ResetValue(v) => Ok(v),
            TestRegister::WrittenValue(v) => Ok(v),
        }
    }
}

#[test]
fn single_pin_write() {
    let ei = TestSpyInterface::new();
    let mut io = Expander::new(ei.split()).into_immediate();
    let pin_twelve = io.port_pin(12);

    assert!(pin_twelve.set_high(&mut io).is_ok());
    assert_eq!(ei.get(0x2C), TR::WrittenValue(0x01));
}

#[test]
fn single_pin_read() {
    let mut ei = TestSpyInterface::new();
    let mut io = Expander::new(ei.split()).into_immediate();
    let pin_twelve = io.port_pin(12);

    ei.set(0x2C, TR::ResetValue(0x00));
    assert_eq!(pin_twelve.is_high(&mut io), Ok(false));

    ei.set(0x2C, TR::ResetValue(0x01));
    assert_eq!(pin_twelve.is_high(&mut io), Ok(true));
}

#[test]
fn multi_pin_read_write() {
    let mut ei = TestSpyInterface::new();
    let mut io = Expander::new(ei.split()).into_immediate();
    let pin_twelve = io.port_pin(12);
    let pin_sixteen = io.port_pin(16);
    let pin_twenty = io.port_pin(20);

    ei.set(0x34, TR::ResetValue(0x01));
    assert!(pin_twelve.set_high(&mut io).is_ok());
    assert!(pin_sixteen.set_low(&mut io).is_ok());
    assert_eq!(pin_twenty.is_low(&mut io), Ok(false));
    assert_eq!(ei.get(0x2C), TR::WrittenValue(0x01));
    assert_eq!(ei.get(0x30), TR::WrittenValue(0x00));
}

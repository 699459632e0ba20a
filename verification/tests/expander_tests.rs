use max7301::Expander;
use max7301::ExpanderInterface;
use max7301::PortMode;
use max7301::RegisterAddress;
use max7301::config::ExpanderConfig;
use std::sync::Arc;
use std::sync::Mutex;

#[derive(Clone, Copy, Debug, PartialEq)]
pub enum TestRegister {
    Forbidden,
    IgnoreWrite(u8),
    ResetValue(u8),
    WrittenValue(u8),
}

use TestRegister as TR;

pub struct TestSpyInterface {
    registers: Arc<Mutex<Vec<TestRegister>>>,
    reads: Arc<Mutex<Vec<u8>>>,
}

impl TestSpyInterface {
    pub fn new() -> Self {
        let mut new = Self {
            registers: Arc::new(Mutex::new(Vec::new())),
            reads: Arc::new(Mutex::new(Vec::new())),
        };
        new.reset();
        new
    }

    pub fn reset(&mut self) {
        self.reads.lock().unwrap().clear();
        let mut regs = self.registers.lock().unwrap();
        regs.clear();
        regs.resize(0x60, TR::Forbidden);

        regs[0x00] = TR::IgnoreWrite(0x00);
        regs[0x04] = TR::ResetValue(0b00000001);
        regs[0x06] = TR::ResetValue(0x00);

        for addr in 0x09..=0x0F {
            regs[addr] = TR::ResetValue(0b10101010);
        }

        for addr in 0x20..=0x5F {
            regs[addr] = TR::ResetValue(0x00);
        }
    }

    pub fn split(&self) -> Self {
        Self { registers: self.registers.clone(), reads: self.reads.clone() }
    }

    pub fn get(&self, addr: u8) -> TestRegister {
        self.registers.lock().unwrap()[addr as usize]
    }

    pub fn set(&mut self, addr: u8, val: TestRegister) {
        self.registers.lock().unwrap()[addr as usize] = val;
    }

    pub fn reads(&self) -> Vec<u8> {
        self.reads.lock().unwrap().clone()
    }
}

impl ExpanderInterface for TestSpyInterface {
    type Error = ();

    fn state(&self) -> max7301::interface::DeviceState {
        unreachable!()
    }

    fn ops(&self) -> vstd::seq::Seq<max7301::interface::BusOp> {
        unreachable!()
    }

    fn write_register(&mut self, addr: RegisterAddress, value: u8) -> Result<(), ()> {
        let mut regs = self.registers.lock().unwrap();
        let enc_addr = addr.0;
        assert!(enc_addr <= 0x5F);
        match regs[enc_addr as usize] {
            TestRegister::Forbidden => panic!("write to forbidden register {}", enc_addr),
            TestRegister::IgnoreWrite(_) => {},
            ref mut m => *m = TestRegister::WrittenValue(value),
        };
        Ok(())
    }

    fn read_register(&mut self, addr: RegisterAddress) -> Result<u8, ()> {
        self.reads.lock().unwrap().push(addr.0);
        let regs = self.registers.lock().unwrap();
        let enc_addr = addr.0;
        assert!(enc_addr <= 0x5F);
        match regs[enc_addr as usize] {
            TestRegister::Forbidden => panic!("read from forbidden register {}", enc_addr),
            TestRegister::IgnoreWrite(v) => Ok(v),
            TestRegister::ResetValue(v) => Ok(v),
            TestRegister::WrittenValue(v) => Ok(v),
        }
    }
}

#[test]
fn expander_write_config() {
    let ei = TestSpyInterface::new();
    let mut ex = Expander::new(ei.split());
    assert!(
        ex.write_config(ExpanderConfig { shutdown: false, transition_detect: false }).is_ok()
    );
    assert_eq!(ei.get(0x04), TR::WrittenValue(0b00000001));
}

#[test]
fn expander_expander_configure_noop() {
    let ei = TestSpyInterface::new();
    let mut ex = Expander::new(ei.split());
    assert!(ex.configure().commit().is_ok());
    assert_eq!(
        (0x09..0x10).into_iter().map(|a| ei.get(a)).collect::<Vec<_>>(),
        vec![TR::ResetValue(0b10101010); 7]
    );
}

#[test]
fn expander_expander_configure_port_single_read_modify() {
    let ei = TestSpyInterface::new();
    let mut ex = Expander::new(ei.split());
    assert!(ex.configure().port(4, PortMode::Output).commit().is_ok());
    assert_eq!(
        (0x09..0x10).into_iter().map(|a| ei.get(a)).collect::<Vec<_>>(),
        vec![
            TR::WrittenValue(0b10101001),
            TR::ResetValue(0b10101010),
            TR::ResetValue(0b10101010),
            TR::ResetValue(0b10101010),
            TR::ResetValue(0b10101010),
            TR::ResetValue(0b10101010),
            TR::ResetValue(0b10101010),
        ]
    );
    assert_eq!(ei.reads(), vec![0x09]);
}

#[test]
fn expander_expander_configure_ports_read_modify() {
    let ei = TestSpyInterface::new();
    let mut ex = Expander::new(ei.split());
    assert!(ex.configure().ports(&[4, 5, 6], PortMode::Output).commit().is_ok());
    assert_eq!(
        (0x09..0x10).into_iter().map(|a| ei.get(a)).collect::<Vec<_>>(),
        vec![
            TR::WrittenValue(0b10010101),
            TR::ResetValue(0b10101010),
            TR::ResetValue(0b10101010),
            TR::ResetValue(0b10101010),
            TR::ResetValue(0b10101010),
            TR::ResetValue(0b10101010),
            TR::ResetValue(0b10101010),
        ]
    );
    assert_eq!(ei.reads(), vec![0x09]);
}

#[test]
fn expander_expander_configure_ports_overwrite() {
    let ei = TestSpyInterface::new();
    let mut ex = Expander::new(ei.split());
    assert!(ex.configure().ports(&[4, 5, 6, 7], PortMode::Output).commit().is_ok());
    assert_eq!(
        (0x09..0x10).into_iter().map(|a| ei.get(a)).collect::<Vec<_>>(),
        vec![
            TR::WrittenValue(0b01010101),
            TR::ResetValue(0b10101010),
            TR::ResetValue(0b10101010),
            TR::ResetValue(0b10101010),
            TR::ResetValue(0b10101010),
            TR::ResetValue(0b10101010),
            TR::ResetValue(0b10101010),
        ]
    );
    assert_eq!(ei.reads(), vec![]);
}

#[test]
fn expander_expander_configure_ports_spanning() {
    let ei = TestSpyInterface::new();
    let mut ex = Expander::new(ei.split());
    assert!(
        ex.configure().ports(&[6, 7, 8, 9, 10, 11, 12, 13], PortMode::Output).commit().is_ok()
    );
    assert_eq!(
        (0x09..0x10).into_iter().map(|a| ei.get(a)).collect::<Vec<_>>(),
        vec![
            TR::WrittenValue(0b01011010),
            TR::WrittenValue(0b01010101),
            TR::WrittenValue(0b10100101),
            TR::ResetValue(0b10101010),
            TR::ResetValue(0b10101010),
            TR::ResetValue(0b10101010),
            TR::ResetValue(0b10101010),
        ]
    );
    assert_eq!(ei.reads(), vec![0x09, 0x0B]);
}

#[test]
fn expander_expander_configure_ports_port_overlapping() {
    let ei = TestSpyInterface::new();
    let mut ex = Expander::new(ei.split());
    assert!(
        ex.configure()
            .ports(&[4, 5, 6, 7, 8, 9, 10, 11], PortMode::Output)
            .port(7, PortMode::InputPullup)
            .commit()
            .is_ok()
    );
    assert_eq!(
        (0x09..0x10).into_iter().map(|a| ei.get(a)).collect::<Vec<_>>(),
        vec![
            TR::WrittenValue(0b11010101),
            TR::WrittenValue(0b01010101),
            TR::ResetValue(0b10101010),
            TR::ResetValue(0b10101010),
            TR::ResetValue(0b10101010),
            TR::ResetValue(0b10101010),
            TR::ResetValue(0b10101010),
        ]
    );
    assert_eq!(ei.reads(), vec![]);
}

#[test]
fn mod_expander_configure_noop() {
    let ei = TestSpyInterface::new();
    let mut ex = Expander::new(ei.split());
    assert!(ex.configure().commit().is_ok());
    assert_eq!(
        (0x09..0x10).into_iter().map(|a| ei.get(a)).collect::<Vec<_>>(),
        vec![TR::ResetValue(0b10101010); 7]
    );
}

#[test]
fn expander_configure_shutdown() {
    let ei = TestSpyInterface::new();
    let mut ex = Expander::new(ei.split());
    assert!(ex.configure().shutdown(false).commit().is_ok());
    assert_eq!(ei.get(0x04), TR::WrittenValue(0b00000001));
}

#[test]
fn expander_configure_detect_transitions() {
    let ei = TestSpyInterface::new();
    let mut ex = Expander::new(ei.split());
    assert!(ex.configure().detect_transitions(true).commit().is_ok());
    assert_eq!(ei.get(0x04), TR::WrittenValue(0b10000000));
}

#[test]
fn expander_configure_port_single_read_modify() {
    let ei = TestSpyInterface::new();
    let mut ex = Expander::new(ei.split());
    assert!(ex.configure().port(4, PortMode::Output).commit().is_ok());
    assert_eq!(
        (0x09..0x10).into_iter().map(|a| ei.get(a)).collect::<Vec<_>>(),
        vec![
            TR::WrittenValue(0b10101001),
            TR::ResetValue(0b10101010),
            TR::ResetValue(0b10101010),
            TR::ResetValue(0b10101010),
            TR::ResetValue(0b10101010),
            TR::ResetValue(0b10101010),
            TR::ResetValue(0b10101010),
        ]
    );
    assert_eq!(ei.reads(), vec![0x09]);
}

#[test]
fn expander_configure_ports_read_modify() {
    let ei = TestSpyInterface::new();
    let mut ex = Expander::new(ei.split());
    assert!(ex.configure().ports(&[4, 5, 6], PortMode::Output).commit().is_ok());
    assert_eq!(
        (0x09..0x10).into_iter().map(|a| ei.get(a)).collect::<Vec<_>>(),
        vec![
            TR::WrittenValue(0b10010101),
            TR::ResetValue(0b10101010),
            TR::ResetValue(0b10101010),
            TR::ResetValue(0b10101010),
            TR::ResetValue(0b10101010),
            TR::ResetValue(0b10101010),
            TR::ResetValue(0b10101010),
        ]
    );
    assert_eq!(ei.reads(), vec![0x09]);
}

#[test]
fn expander_configure_ports_overwrite() {
    let ei = TestSpyInterface::new();
    let mut ex = Expander::new(ei.split());
    assert!(ex.configure().ports(&[4, 5, 6, 7], PortMode::Output).commit().is_ok());
    assert_eq!(
        (0x09..0x10).into_iter().map(|a| ei.get(a)).collect::<Vec<_>>(),
        vec![
            TR::WrittenValue(0b01010101),
            TR::ResetValue(0b10101010),
            TR::ResetValue(0b10101010),
            TR::ResetValue(0b10101010),
            TR::ResetValue(0b10101010),
            TR::ResetValue(0b10101010),
            TR::ResetValue(0b10101010),
        ]
    );
    assert_eq!(ei.reads(), vec![]);
}

#[test]
fn expander_configure_ports_spanning() {
    let ei = TestSpyInterface::new();
    let mut ex = Expander::new(ei.split());
    assert!(
        ex.configure().ports(&[6, 7, 8, 9, 10, 11, 12, 13], PortMode::Output).commit().is_ok()
    );
    assert_eq!(
        (0x09..0x10).into_iter().map(|a| ei.get(a)).collect::<Vec<_>>(),
        vec![
            TR::WrittenValue(0b01011010),
            TR::WrittenValue(0b01010101),
            TR::WrittenValue(0b10100101),
            TR::ResetValue(0b10101010),
            TR::ResetValue(0b10101010),
            TR::ResetValue(0b10101010),
            TR::ResetValue(0b10101010),
        ]
    );
    assert_eq!(ei.reads(), vec![0x09, 0x0B]);
}

#[test]
fn expander_configure_ports_port_overlapping() {
    let ei = TestSpyInterface::new();
    let mut ex = Expander::new(ei.split());
    assert!(
        ex.configure()
            .ports(&[4, 5, 6, 7, 8, 9, 10, 11], PortMode::Output)
            .port(7, PortMode::InputPullup)
            .commit()
            .is_ok()
    );
    assert_eq!(
        (0x09..0x10).into_iter().map(|a| ei.get(a)).collect::<Vec<_>>(),
        vec![
            TR::WrittenValue(0b11010101),
            TR::WrittenValue(0b01010101),
            TR::ResetValue(0b10101010),
            TR::ResetValue(0b10101010),
            TR::ResetValue(0b10101010),
            TR::ResetValue(0b10101010),
            TR::ResetValue(0b10101010),
        ]
    );
    assert_eq!(ei.reads(), vec![]);
}

#[test]
fn expander_configure_ports_and_shutdown() {
    let ei = TestSpyInterface::new();
    let mut ex = Expander::new(ei.split());
    assert!(
        ex.configure().ports(&[4, 5, 6, 7], PortMode::Output).shutdown(false).commit().is_ok()
    );
    assert_eq!(ei.get(0x04), TR::WrittenValue(0b00000001));
    assert_eq!(ei.get(0x09), TR::WrittenValue(0b01010101));
}

#[test]
fn expander_raw_port_access() {
    let mut ei = TestSpyInterface::new();
    let mut ex = Expander::new(ei.split());
    assert!(ex.write_port(7, true).is_ok());
    assert_eq!(ei.get(0x27), TR::WrittenValue(0x01));
    ei.set(0x2A, TR::ResetValue(0x01));
    assert_eq!(ex.read_port(10), Ok(true));
    assert_eq!(ex.read_port(7), Ok(true));
    assert!(ex.write_ports(8, 0b00001111).is_ok());
    assert_eq!(ei.get(0x48), TR::WrittenValue(0b00001111));
    ei.set(0x4C, TR::ResetValue(0b10110001));
    assert_eq!(ex.read_ports(12), Ok(0b10110001));
}

#[test]
fn expander_configure_every_port_blind_writes_all_banks() {
    let ei = TestSpyInterface::new();
    let mut ex = Expander::new(ei.split());
    let all_ports: Vec<u8> = (4..=31).collect();
    assert!(ex.configure().ports(&all_ports, PortMode::InputFloating).commit().is_ok());
    for a in 0x09..=0x0Fu8 {
        assert_eq!(ei.get(a), TR::WrittenValue(0b10101010));
    }
    assert_eq!(ei.reads(), vec![]);
}

//! The register addresses within the MAX7301.

use vstd::prelude::*;

verus! {

/// A register address within the MAX7301. Values are produced by
/// `RegisterAddress::from`, which is the only place in the crate that turns a
/// semantic register identifier into a concrete device address.
#[derive(Clone, Copy, PartialEq, Eq, Structural)]
pub struct RegisterAddress(pub u8);

/// A semantic register identifier within the MAX7301.
#[derive(Clone, Copy)]
pub enum Register {
    /// The no-op register. Reading or writing this register has no effect.
    Noop,
    /// Global configuration register, holding the shutdown control bit and the
    /// transition detection enable bit.
    Configuration,
    /// Transition detect mask register, selecting which of ports 24 through 31
    /// take part in transition detection.
    TransitionDetectMask,
    /// Port bank configuration register for one bank of 4 consecutive GPIO
    /// ports. Banks are numbered 0 through 6.
    BankConfig(u8),
    /// Single-port register: the value of one port, readable and writable as
    /// the least significant bit.
    SinglePort(u8),
    /// Port range register: the values of 8 consecutive ports starting with
    /// the named one, port `p + k` appearing in bit `k`.
    PortRange(u8),
}

/// The set of device addresses that `RegisterAddress::from` can produce.
pub open spec fn addr_wf(a: u8) -> bool {
    a == 0x00 || a == 0x04 || a == 0x06 || (0x09 <= a <= 0x0F) || (0x24 <= a <= 0x3F) || (0x44
        <= a <= 0x5F)
}

impl Register {
    /// The bank or port argument is within the range the device provides.
    pub open spec fn wf(self) -> bool {
        match self {
            Register::Noop => true,
            Register::Configuration => true,
            Register::TransitionDetectMask => true,
            Register::BankConfig(bank) => bank <= 6,
            Register::SinglePort(port) => 4 <= port <= 31,
            Register::PortRange(start_port) => 4 <= start_port <= 31,
        }
    }

    /// The device address this identifier encodes to.
    pub open spec fn spec_addr(self) -> u8 {
        match self {
            Register::Noop => 0x00,
            Register::Configuration => 0x04,
            Register::TransitionDetectMask => 0x06,
            Register::BankConfig(bank) => (0x09 + bank) as u8,
            Register::SinglePort(port) => (0x20 + port) as u8,
            Register::PortRange(start_port) => (0x40 + start_port) as u8,
        }
    }
}

impl RegisterAddress {
    pub open spec fn wf(self) -> bool {
        addr_wf(self.0)
    }

    /// Convert a `Register` into a `RegisterAddress`.
    pub fn from(reg: Register) -> (r: RegisterAddress)
        requires
            reg.wf(),
        ensures
            r.0 == reg.spec_addr(),
            r.wf(),
    {
        match reg {
            Register::Noop => RegisterAddress(0x00),
            Register::Configuration => RegisterAddress(0x04),
            Register::TransitionDetectMask => RegisterAddress(0x06),
            Register::BankConfig(bank) => RegisterAddress(valid_bank(bank) + 0x09),
            Register::SinglePort(port) => RegisterAddress(valid_port(port) + 0x20),
            Register::PortRange(start_port) => RegisterAddress(valid_port(start_port) + 0x40),
        }
    }
}

/// Range-check a port number. The MAX7301 provides ports 4 through 31 only;
/// anything else is a programming error, which callers rule out up front.
pub fn valid_port(port: u8) -> (r: u8)
    requires
        4 <= port <= 31,
    ensures
        r == port,
{
    port
}

/// Range-check a bank number. The MAX7301 has banks 0 through 6 only.
pub fn valid_bank(bank: u8) -> (r: u8)
    requires
        bank <= 6,
    ensures
        r == bank,
{
    bank
}

} // verus!

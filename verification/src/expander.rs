//! The port expander device API. This provides the `Expander` type which is a
//! direct abstraction of the MAX7301. It allows direct use of all operations
//! available on the device.

use vstd::prelude::*;

pub mod immediate;
pub mod pin;
pub mod transactional;

use crate::config::BankConfig;
use crate::expander::immediate::ImmediateIO;
use crate::expander::transactional::TransactionalIO;
use crate::config::Configurator;
use crate::config::ExpanderConfig;
use crate::config::spec_config_byte;
use crate::config::spec_merge;
use crate::interface::BusOp;
use crate::interface::ExpanderInterface;
use crate::interface::spec_reg_read;
use crate::interface::spec_reg_write;
use crate::registers::Register;
use crate::registers::RegisterAddress;

verus! {

/// The port expander device itself: the bus interface it owns, and the
/// in-memory copy of the device's global configuration.
pub struct Expander<EI: ExpanderInterface> {
    /// The interface used to reach the device.
    pub iface: EI,
    /// The in-memory copy of the global configuration, written to the device
    /// on demand.
    pub config: ExpanderConfig,
}

impl<EI: ExpanderInterface> Expander<EI> {
    /// Create a new `Expander`.
    ///
    /// Takes ownership of the `ExpanderInterface` which it should use to
    /// communicate with the MAX7301. The in-memory configuration starts out
    /// matching the device's post-reset state.
    pub fn new(iface: EI) -> (r: Self)
        ensures
            r.iface == iface,
            r.config == (ExpanderConfig { shutdown: true, transition_detect: false }),
    {
        Self { iface, config: ExpanderConfig::default() }
    }

    /// Begin (re)configuring the port expander hardware by returning a
    /// [`Configurator`], a builder that accumulates port mode and global
    /// configuration changes and transmits them on `commit`.
    pub fn configure<'e>(&'e mut self) -> (c: Configurator<'e, EI>)
        ensures
            *c.expander == *old(self),
            *final(self) == *final(c.expander),
            c.expander_config_dirty == false,
            forall|b: int| 0 <= b < 7 ==> c.banks[b].0 == 0,
    {
        Configurator::new(self)
    }

    /// Convert this expander into an immediate-mode I/O adapter.
    ///
    /// The adapter can be used to generate individual `PortPin`s for the
    /// GPIOs on the expander, with every pin operation immediately
    /// triggering a bus transaction. See [`ImmediateIO`] for detail.
    pub fn into_immediate(self) -> (r: ImmediateIO<EI>)
        ensures
            r.expander == self,
    {
        ImmediateIO::new(self)
    }

    /// Convert this expander into a transactional I/O adapter.
    ///
    /// The adapter can be used to generate individual `PortPin`s for the
    /// GPIOs on the expander; unlike immediate mode, pin operations are
    /// buffered in a write-back cache. See [`TransactionalIO`] for detail.
    pub fn into_transactional(self) -> (r: TransactionalIO<EI>)
        ensures
            r.expander == self,
            r.issued == 0u32,
            r.cache == 0u32,
            r.dirty == 0u32,
            r.fresh == 0u32,
            r.wf(),
    {
        TransactionalIO::new(self)
    }

    /// Perform a read of the current value of a single I/O port on the
    /// expander.
    pub fn read_port(&mut self, port: u8) -> (r: Result<bool, EI::Error>)
        requires
            4 <= port <= 31,
        ensures
            r is Ok ==> r == Ok::<bool, EI::Error>(crate::interface::bit(
                old(self).iface.state().pins,
                port as u32,
            )),
            r is Ok ==> final(self).iface.state() == old(self).iface.state(),
            r is Ok ==> final(self).iface.ops() == old(self).iface.ops().push(
                BusOp::Read { addr: (0x20 + port) as u8 },
            ),
            final(self).config == old(self).config,
    {
        match self.iface.read_register(RegisterAddress::from(Register::SinglePort(port))) {
            Ok(v) => Ok(v == 0x01),
            Err(e) => Err(e),
        }
    }

    /// Perform a read of the current value of 8 consecutive I/O ports on the
    /// expander in a single bus transaction.
    ///
    /// There is no alignment requirement; `start_port` may be any valid port,
    /// and that port along with up to 7 following ports is read in one
    /// transaction. The LSB of the result is the value of `start_port` and
    /// each higher bit `k` is the value of port `start_port + k`; bits for
    /// ports past 31 are unset.
    pub fn read_ports(&mut self, start_port: u8) -> (r: Result<u8, EI::Error>)
        requires
            4 <= start_port <= 31,
        ensures
            r is Ok ==> r == Ok::<u8, EI::Error>(
                ((old(self).iface.state().pins >> (start_port as u32)) & 0xFF) as u8,
            ),
            r is Ok ==> final(self).iface.state() == old(self).iface.state(),
            r is Ok ==> final(self).iface.ops() == old(self).iface.ops().push(
                BusOp::Read { addr: (0x40 + start_port) as u8 },
            ),
            final(self).config == old(self).config,
    {
        self.iface.read_register(RegisterAddress::from(Register::PortRange(start_port)))
    }

    /// Write a value to a single I/O port on the expander.
    pub fn write_port(&mut self, port: u8, bit: bool) -> (r: Result<(), EI::Error>)
        requires
            4 <= port <= 31,
        ensures
            r is Ok ==> final(self).iface.state() == spec_reg_write(
                old(self).iface.state(),
                (0x20 + port) as u8,
                if bit {
                    0x01u8
                } else {
                    0x00u8
                },
            ),
            r is Ok ==> final(self).iface.ops() == old(self).iface.ops().push(
                BusOp::Write {
                    addr: (0x20 + port) as u8,
                    value: if bit {
                        0x01u8
                    } else {
                        0x00u8
                    },
                },
            ),
            final(self).config == old(self).config,
    {
        self.iface.write_register(
            RegisterAddress::from(Register::SinglePort(port)),
            if bit {
                0x01
            } else {
                0x00
            },
        )
    }

    /// Write a value to 8 consecutive I/O ports on the expander in a single
    /// bus transaction.
    ///
    /// There is no alignment requirement; `start_port` may be any valid port.
    /// The LSB of `bits` is written to `start_port` and each higher bit `k`
    /// to port `start_port + k`; bits for ports past 31 are ignored by the
    /// device.
    pub fn write_ports(&mut self, start_port: u8, bits: u8) -> (r: Result<(), EI::Error>)
        requires
            4 <= start_port <= 31,
        ensures
            r is Ok ==> final(self).iface.state() == spec_reg_write(
                old(self).iface.state(),
                (0x40 + start_port) as u8,
                bits,
            ),
            r is Ok ==> final(self).iface.ops() == old(self).iface.ops().push(
                BusOp::Write { addr: (0x40 + start_port) as u8, value: bits },
            ),
            final(self).config == old(self).config,
    {
        self.iface.write_register(RegisterAddress::from(Register::PortRange(start_port)), bits)
    }

    /// Write the global configuration register from `cfg`, and keep `cfg` as
    /// the in-memory copy once the write has succeeded.
    pub fn write_config(&mut self, cfg: ExpanderConfig) -> (r: Result<(), EI::Error>)
        ensures
            r is Ok ==> final(self).iface.state() == spec_reg_write(
                old(self).iface.state(),
                0x04,
                spec_config_byte(cfg),
            ),
            r is Ok ==> final(self).iface.ops() == old(self).iface.ops().push(
                BusOp::Write { addr: 0x04, value: spec_config_byte(cfg) },
            ),
            r is Ok ==> final(self).config == cfg,
            r is Err ==> final(self).config == old(self).config,
    {
        let byte = u8::from(cfg);
        match self.iface.write_register(RegisterAddress::from(Register::Configuration), byte) {
            Ok(()) => {
                self.config = cfg;
                Ok(())
            },
            Err(e) => Err(e),
        }
    }

    /// Write one bank configuration register from `cfg`.
    pub(crate) fn write_bank_config(&mut self, bank: u8, cfg: BankConfig) -> (r: Result<
        (),
        EI::Error,
    >)
        requires
            bank <= 6,
        ensures
            r is Ok ==> final(self).iface.state() == spec_reg_write(
                old(self).iface.state(),
                (0x09 + bank) as u8,
                cfg.0,
            ),
            r is Ok ==> final(self).iface.ops() == old(self).iface.ops().push(
                BusOp::Write { addr: (0x09 + bank) as u8, value: cfg.0 },
            ),
            final(self).config == old(self).config,
    {
        self.iface.write_register(RegisterAddress::from(Register::BankConfig(bank)), u8::from(cfg))
    }

    /// Read one bank configuration register, merge `cfg` over the value read,
    /// and write the result back.
    pub(crate) fn read_modify_bank_config(&mut self, bank: u8, cfg: BankConfig) -> (r: Result<
        (),
        EI::Error,
    >)
        requires
            bank <= 6,
        ensures
            r is Ok ==> final(self).iface.state() == spec_reg_write(
                old(self).iface.state(),
                (0x09 + bank) as u8,
                spec_merge(cfg.0, old(self).iface.state().regs[(0x09 + bank) as u8]),
            ),
            r is Ok ==> final(self).iface.ops() == old(self).iface.ops().push(
                BusOp::Read { addr: (0x09 + bank) as u8 },
            ).push(
                BusOp::Write {
                    addr: (0x09 + bank) as u8,
                    value: spec_merge(cfg.0, old(self).iface.state().regs[(0x09 + bank) as u8]),
                },
            ),
            final(self).config == old(self).config,
    {
        let addr = RegisterAddress::from(Register::BankConfig(bank));
        let current = self.iface.read_register(addr)?;
        self.iface.write_register(addr, u8::from(cfg.merge(current)))
    }
}

/// What a batch read packs into its byte: bit `k` holds the value of port
/// `start_port + k` for ports up to 31, and every higher bit reads as zero.
pub proof fn lemma_read_ports_bits(pins: u32, start_port: u8, k: u32)
    requires
        4 <= start_port <= 31,
        k < 8,
    ensures
        ((((pins >> (start_port as u32)) & 0xFF) as u8 >> (k as u8)) & 1u8 == 1u8) == (start_port
            + k <= 31 && crate::interface::bit(pins, (start_port as u32 + k) as u32)),
{
    let s = start_port as u32;
    assert((4 <= s && s <= 31 && k < 8) ==> ((((((pins >> s) & 0xFFu32) as u8) >> (k as u8)) & 1u8
        == 1u8) == (s + k <= 31 && (((pins >> (s + k)) & 1u32) == 1u32)))) by (bit_vector);
}

} // verus!

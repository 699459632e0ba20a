//! Immediate-mode I/O adapter.

use vstd::prelude::*;

use crate::expander::Expander;
use crate::expander::pin::ExpanderIO;
use crate::expander::pin::PortPin;
use crate::interface::BusOp;
use crate::interface::ExpanderInterface;
use crate::interface::spec_reg_write;
use crate::registers::valid_port;

verus! {

/// This I/O adapter captures the `Expander` and provides a factory for
/// generating GPIO pins. Each operation on such a pin immediately issues a
/// bus transaction to get or set the value of that I/O port.
pub struct ImmediateIO<EI: ExpanderInterface> {
    /// The captured expander; every pin operation goes straight through it.
    pub expander: Expander<EI>,
}

impl<EI: ExpanderInterface> ImmediateIO<EI> {
    pub(crate) fn new(expander: Expander<EI>) -> (r: Self)
        ensures
            r.expander == expander,
    {
        ImmediateIO { expander }
    }

    /// Create a `PortPin` corresponding to one of the ports on the MAX7301.
    /// Using any of the pin operations on it triggers a bus transaction to
    /// immediately read or write the value of that I/O port.
    pub fn port_pin(&self, port: u8) -> (r: PortPin)
        requires
            4 <= port <= 31,
        ensures
            r.port == port,
    {
        PortPin::new(valid_port(port))
    }
}

impl<EI: ExpanderInterface> ExpanderIO for ImmediateIO<EI> {
    type Error = EI::Error;

    /// Immediate mode believes exactly what the device holds.
    open spec fn pin_view(&self) -> u32 {
        self.expander.iface.state().pins
    }

    /// Any valid port may be read at any time.
    open spec fn can_read(&self, port: u8) -> bool {
        true
    }

    /// A successful write reaches the device as one single-port register
    /// write; the in-memory configuration is never touched.
    open spec fn write_effect(&self, pre: Self, port: u8, bit: bool, ok: bool) -> bool {
        &&& self.expander.config == pre.expander.config
        &&& ok ==> self.expander.iface.state() == spec_reg_write(
            pre.expander.iface.state(),
            (0x20 + port) as u8,
            if bit {
                0x01u8
            } else {
                0x00u8
            },
        )
        &&& ok ==> self.expander.iface.ops() == pre.expander.iface.ops().push(
            BusOp::Write {
                addr: (0x20 + port) as u8,
                value: if bit {
                    0x01u8
                } else {
                    0x00u8
                },
            },
        )
    }

    /// A successful read leaves the device as it was and appends one
    /// single-port register read to the trace.
    open spec fn read_effect(&self, pre: Self, port: u8, ok: bool) -> bool {
        &&& self.expander.config == pre.expander.config
        &&& ok ==> self.expander.iface.state() == pre.expander.iface.state()
        &&& ok ==> self.expander.iface.ops() == pre.expander.iface.ops().push(
            BusOp::Read { addr: (0x20 + port) as u8 },
        )
    }

    fn write_port(&mut self, port: u8, bit: bool) -> (r: Result<(), EI::Error>) {
        let r = self.expander.write_port(port, bit);
        proof {
            crate::interface::lemma_single_port_write_bits();
        }
        r
    }

    fn read_port(&mut self, port: u8) -> (r: Result<bool, EI::Error>) {
        self.expander.read_port(port)
    }
}

} // verus!

//! I/O pins of the MAX7301 as small capability values.

use vstd::prelude::*;

use crate::interface::bit;

verus! {

/// An indirection between I/O pin abstractions and the expander itself.
/// Implementations either reach the hardware at once for every operation or
/// work against a write-back cache; see the adapters for both.
///
/// `pin_view` is the implementation's current belief about the pin values
/// (bit `p` for port `p`); `can_read` says which ports may be read at all.
/// The two effect predicates are defined by each implementation and spell out
/// everything else an operation does to it.
pub trait ExpanderIO: Sized {
    /// The error type for reading and writing expander ports.
    type Error;

    /// Bit `p` is the value this adapter would currently report for port `p`.
    spec fn pin_view(&self) -> u32;

    /// Whether a read of `port` is permitted in the adapter's current state.
    spec fn can_read(&self, port: u8) -> bool;

    /// What a `write_port` call does to the adapter beyond updating
    /// `pin_view`, with `ok` telling whether the call succeeded.
    spec fn write_effect(&self, pre: Self, port: u8, bit: bool, ok: bool) -> bool;

    /// What a `read_port` call does to the adapter, with `ok` telling whether
    /// the call succeeded.
    spec fn read_effect(&self, pre: Self, port: u8, ok: bool) -> bool;

    /// Write the value of an I/O port. `port` is a port number between 4 and
    /// 31; `bit` is the value to set the port to.
    fn write_port(&mut self, port: u8, bit: bool) -> (r: Result<(), Self::Error>)
        requires
            4 <= port <= 31,
        ensures
            r is Ok ==> final(self).pin_view() == (if bit {
                old(self).pin_view() | (1u32 << (port as u32))
            } else {
                old(self).pin_view() & !(1u32 << (port as u32))
            }),
            final(self).write_effect(*old(self), port, bit, r is Ok),
    ;

    /// Read the value of an I/O port. `port` is a port number between 4 and
    /// 31 whose value the adapter is in a position to report.
    fn read_port(&mut self, port: u8) -> (r: Result<bool, Self::Error>)
        requires
            4 <= port <= 31,
            old(self).can_read(port),
        ensures
            r is Ok ==> r == Ok::<bool, Self::Error>(bit(old(self).pin_view(), port as u32)),
            final(self).read_effect(*old(self), port, r is Ok),
    ;
}

/// A single I/O pin on the MAX7301: a cheap value carrying only its port
/// number. Every operation takes the adapter the pin was issued from, so any
/// number of pins of one adapter can live side by side.
#[derive(Clone, Copy)]
pub struct PortPin {
    /// The port this pin stands for, between 4 and 31.
    pub port: u8,
}

impl PortPin {
    pub(crate) fn new(port: u8) -> (r: Self)
        requires
            4 <= port <= 31,
        ensures
            r.port == port,
    {
        Self { port }
    }

    /// Drive the pin to logic high.
    pub fn set_high<IO: ExpanderIO>(&self, io: &mut IO) -> (r: Result<(), IO::Error>)
        requires
            4 <= self.port <= 31,
        ensures
            r is Ok ==> final(io).pin_view() == old(io).pin_view() | (1u32 << (self.port as u32)),
            final(io).write_effect(*old(io), self.port, true, r is Ok),
    {
        io.write_port(self.port, true)
    }

    /// Drive the pin to logic low.
    pub fn set_low<IO: ExpanderIO>(&self, io: &mut IO) -> (r: Result<(), IO::Error>)
        requires
            4 <= self.port <= 31,
        ensures
            r is Ok ==> final(io).pin_view() == old(io).pin_view() & !(1u32 << (self.port as u32)),
            final(io).write_effect(*old(io), self.port, false, r is Ok),
    {
        io.write_port(self.port, false)
    }

    /// Report whether the pin reads as logic high.
    pub fn is_high<IO: ExpanderIO>(&self, io: &mut IO) -> (r: Result<bool, IO::Error>)
        requires
            4 <= self.port <= 31,
            old(io).can_read(self.port),
        ensures
            r is Ok ==> r == Ok::<bool, IO::Error>(bit(old(io).pin_view(), self.port as u32)),
            final(io).read_effect(*old(io), self.port, r is Ok),
    {
        io.read_port(self.port)
    }

    /// Report whether the pin reads as logic low; the negation of `is_high`.
    pub fn is_low<IO: ExpanderIO>(&self, io: &mut IO) -> (r: Result<bool, IO::Error>)
        requires
            4 <= self.port <= 31,
            old(io).can_read(self.port),
        ensures
            r is Ok ==> r == Ok::<bool, IO::Error>(!bit(old(io).pin_view(), self.port as u32)),
            final(io).read_effect(*old(io), self.port, r is Ok),
    {
        match io.read_port(self.port) {
            Ok(hi) => Ok(!hi),
            Err(e) => Err(e),
        }
    }
}

} // verus!

//! The bus interface the expander core drives, together with the ghost model
//! of the device that its contract is stated against.

use vstd::prelude::*;

use crate::registers::RegisterAddress;

verus! {

/// One completed bus transaction, as recorded in an interface's ghost trace.
pub enum BusOp {
    /// A register write of `value` to device address `addr`.
    Write { addr: u8, value: u8 },
    /// A register read from device address `addr`.
    Read { addr: u8 },
}

/// The ghost model of a MAX7301 behind an interface: the GPIO ports as a bit
/// per port (bit `p` is port `p`, ports 4 through 31), and the remaining
/// registers as a map from device address to byte.
#[verifier::ext_equal]
pub struct DeviceState {
    /// Bit `p` holds the value of port `p`.
    pub pins: u32,
    /// The non-port registers, keyed by device address.
    pub regs: Map<u8, u8>,
}

/// The trace of completed bus transactions, oldest first.
pub type BusTrace = Seq<BusOp>;

/// Whether bit `i` of `m` is set.
pub open spec fn bit(m: u32, i: u32) -> bool {
    (m >> i) & 1u32 == 1u32
}

/// What a read of device address `a` returns: single-port registers yield the
/// port bit in the least significant position, port-range registers pack port
/// `p + k` into bit `k` (ports past 31 read as 0), and every other register
/// yields its stored byte. The no-op register reads as zero.
pub open spec fn spec_reg_read(s: DeviceState, a: u8) -> u8 {
    if 0x24 <= a <= 0x3F {
        if bit(s.pins, (a - 0x20) as u32) {
            1u8
        } else {
            0u8
        }
    } else if 0x44 <= a <= 0x5F {
        ((s.pins >> ((a - 0x40) as u32)) & 0xFF) as u8
    } else if a == 0x00 {
        0u8
    } else {
        s.regs[a]
    }
}

/// What a write of `v` to device address `a` does: single-port registers set
/// the port to the least significant bit of `v`, port-range registers spread
/// the bits of `v` over ports `p` through `p + 7` (bits for ports past 31 are
/// ignored), the no-op register discards the write, and every other register
/// stores the byte.
pub open spec fn spec_reg_write(s: DeviceState, a: u8, v: u8) -> DeviceState {
    if 0x24 <= a <= 0x3F {
        let p = (a - 0x20) as u32;
        DeviceState {
            pins: if v & 1 == 1 {
                s.pins | (1u32 << p)
            } else {
                s.pins & !(1u32 << p)
            },
            regs: s.regs,
        }
    } else if 0x44 <= a <= 0x5F {
        let p = (a - 0x40) as u32;
        DeviceState { pins: (s.pins & !(0xFFu32 << p)) | ((v as u32) << p), regs: s.regs }
    } else if a == 0x00 {
        s
    } else {
        DeviceState { pins: s.pins, regs: s.regs.insert(a, v) }
    }
}

/// The two bytes a single-port write can carry, `0x00` and `0x01`, land on
/// the port bit exactly as their least significant bit says.
pub proof fn lemma_single_port_write_bits()
    ensures
        0x01u8 & 1u8 == 1u8,
        0x00u8 & 1u8 == 0u8,
{
    assert(0x01u8 & 1u8 == 1u8 && 0x00u8 & 1u8 == 0u8) by (bit_vector);
}

/// An interface for the MAX7301 implements this trait, which provides the
/// basic operations for sending pre-encoded register accesses to the chip.
///
/// The two spec functions give the implementation's view of the device it
/// stands in front of and the trace of transactions it has completed; the
/// method contracts oblige an implementation to move bytes faithfully, with
/// the register semantics of the device. Nothing is promised after an error:
/// a failed transaction may have partially reached the device.
pub trait ExpanderInterface: Sized {
    /// The type of error that register reads and writes may return.
    type Error;

    /// The implementation's view of the device's register state.
    spec fn state(&self) -> DeviceState;

    /// The transactions completed so far, oldest first.
    spec fn ops(&self) -> Seq<BusOp>;

    /// Issue a write command to the expander to write `value` into the
    /// register at `addr`.
    fn write_register(&mut self, addr: RegisterAddress, value: u8) -> (r: Result<
        (),
        Self::Error,
    >)
        requires
            addr.wf(),
        ensures
            r is Ok ==> final(self).state() == spec_reg_write(old(self).state(), addr.0, value),
            r is Ok ==> final(self).ops() == old(self).ops().push(
                BusOp::Write { addr: addr.0, value },
            ),
    ;

    /// Issue a read command to the expander to fetch the value of the
    /// register at `addr`. Port reads have no side effect on the device.
    fn read_register(&mut self, addr: RegisterAddress) -> (r: Result<u8, Self::Error>)
        requires
            addr.wf(),
        ensures
            r is Ok ==> r == Ok::<u8, Self::Error>(spec_reg_read(old(self).state(), addr.0)),
            r is Ok ==> final(self).state() == old(self).state(),
            r is Ok ==> final(self).ops() == old(self).ops().push(BusOp::Read { addr: addr.0 }),
    ;
}

/// The union of all errors that may occur on the SPI interface: one variant
/// for each of the error types of the chip select GPIO, the SPI write, and
/// the SPI transfer, plus a protocol error for a bad echoed address.
#[derive(Debug, PartialEq)]
pub enum SpiInterfaceError<CSE, WE, TE> {
    /// The chip select GPIO threw an error.
    CSError(CSE),
    /// An error occurred during SPI write.
    WriteError(WE),
    /// An error occurred during SPI transfer.
    TransferError(TE),
    /// The device echoed back a register address that does not match what
    /// was sent; probably a hardware issue.
    AddressError,
}

impl<CSE, WE, TE> SpiInterfaceError<CSE, WE, TE> {
    /// Wrap a chip-select error.
    pub fn from_cs(e: CSE) -> (r: Self)
        ensures
            r == SpiInterfaceError::<CSE, WE, TE>::CSError(e),
    {
        Self::CSError(e)
    }

    /// Wrap an SPI write error.
    pub fn from_write(e: WE) -> (r: Self)
        ensures
            r == SpiInterfaceError::<CSE, WE, TE>::WriteError(e),
    {
        Self::WriteError(e)
    }

    /// Wrap an SPI transfer error.
    pub fn from_transfer(e: TE) -> (r: Self)
        ensures
            r == SpiInterfaceError::<CSE, WE, TE>::TransferError(e),
    {
        Self::TransferError(e)
    }
}

/// The pair of devices a 4-wire serial transport drives: the SPI master
/// connected to the MAX7301 and the GPIO output pin wired to its chip select
/// line. The on-the-wire framing the transport must use is given by
/// `spi_write_frame`, `spi_read_request_frame` and `spi_read_result`.
pub struct SpiInterface<SPI, CS> {
    /// The SPI master device connected to the MAX7301.
    pub spi: SPI,
    /// A GPIO output pin connected to the CS pin of the MAX7301.
    pub cs: CS,
}

impl<SPI, CS> SpiInterface<SPI, CS> {
    /// Create a new SPI interface to communicate with the port expander.
    /// `spi` is the SPI master device, and `cs` is the GPIO output pin
    /// connected to the CS pin of the MAX7301.
    pub fn new(spi: SPI, cs: CS) -> (r: Self)
        ensures
            r.spi == spi,
            r.cs == cs,
    {
        Self { spi, cs }
    }
}

/// The 16-bit frame that writes `value` into the register at `addr`: the
/// address goes in the upper byte with its most significant bit clear, the
/// value in the lower byte.
pub fn spi_write_frame(addr: RegisterAddress, value: u8) -> (r: (u8, u8))
    requires
        addr.wf(),
    ensures
        r.0 == addr.0,
        r.0 < 0x80,
        r.1 == value,
{
    (addr.0, value)
}

/// The 16-bit frame that requests a read of the register at `addr`: the
/// address goes in the upper byte with its most significant bit set, and the
/// lower byte is don't-care. The device latches the register value when chip
/// select rises, and a following no-op frame clocks it out.
pub fn spi_read_request_frame(addr: RegisterAddress) -> (r: (u8, u8))
    requires
        addr.wf(),
    ensures
        r.0 == addr.0 | 0x80u8,
        r.1 == 0,
{
    (addr.0 | 0x80, 0)
}

/// Check the reply frame of a register read: the upper byte must echo the
/// requested address word, and the lower byte then carries the register
/// value. A mismatch is reported as `AddressError`.
pub fn spi_read_result<CSE, WE, TE>(addr_word: u8, echoed: u8, data: u8) -> (r: Result<
    u8,
    SpiInterfaceError<CSE, WE, TE>,
>)
    ensures
        echoed == addr_word ==> r == Ok::<u8, SpiInterfaceError<CSE, WE, TE>>(data),
        echoed != addr_word ==> r == Err::<u8, SpiInterfaceError<CSE, WE, TE>>(
            SpiInterfaceError::AddressError,
        ),
{
    if echoed != addr_word {
        Err(SpiInterfaceError::AddressError)
    } else {
        Ok(data)
    }
}

/// An interface wired to no hardware at all: register accesses are performed
/// against an in-memory image of the device and go nowhere else. It doubles
/// as a verified witness that the `ExpanderInterface` contract can be met.
pub struct NoopInterface {
    pins: u32,
    regs: [u8; 32],
    trace: Ghost<Seq<BusOp>>,
}

impl NoopInterface {
    /// A fresh image with every port low and every register zero.
    pub fn new() -> (r: Self)
        ensures
            r.state().pins == 0,
            forall|a: u8| a < 0x20 ==> r.state().regs[a] == 0u8,
            r.ops() == Seq::<BusOp>::empty(),
    {
        NoopInterface { pins: 0, regs: [0u8; 32], trace: Ghost(Seq::empty()) }
    }
}

impl ExpanderInterface for NoopInterface {
    type Error = ();

    closed spec fn state(&self) -> DeviceState {
        DeviceState {
            pins: self.pins,
            regs: Map::new(|a: u8| a < 0x20, |a: u8| self.regs[a as int]),
        }
    }

    closed spec fn ops(&self) -> Seq<BusOp> {
        self.trace@
    }

    fn write_register(&mut self, addr: RegisterAddress, value: u8) -> (r: Result<(), ()>)
        ensures
            r is Ok,
    {
        let ghost pre = self.state();
        let a = addr.0;
        if 0x24 <= a && a <= 0x3F {
            let p: u32 = (a - 0x20) as u32;
            if value & 1 == 1 {
                self.pins = self.pins | (1u32 << p);
            } else {
                self.pins = self.pins & !(1u32 << p);
            }
        } else if 0x44 <= a && a <= 0x5F {
            let p: u32 = (a - 0x40) as u32;
            self.pins = (self.pins & !(0xFFu32 << p)) | ((value as u32) << p);
        } else if a == 0x00 {
        } else {
            self.regs[a as usize] = value;
        }
        self.trace = Ghost(self.trace@.push(BusOp::Write { addr: a, value }));
        proof {
            assert(self.state().regs =~= spec_reg_write(pre, a, value).regs);
            assert(self.state() =~= spec_reg_write(pre, a, value));
        }
        Ok(())
    }

    fn read_register(&mut self, addr: RegisterAddress) -> (r: Result<u8, ()>)
        ensures
            r is Ok,
    {
        let ghost pre = self.state();
        let a = addr.0;
        let v: u8 = if 0x24 <= a && a <= 0x3F {
            let p: u32 = (a - 0x20) as u32;
            if (self.pins >> p) & 1 == 1 {
                1u8
            } else {
                0u8
            }
        } else if 0x44 <= a && a <= 0x5F {
            let p: u32 = (a - 0x40) as u32;
            ((self.pins >> p) & 0xFF) as u8
        } else if a == 0x00 {
            0u8
        } else {
            self.regs[a as usize]
        };
        self.trace = Ghost(self.trace@.push(BusOp::Read { addr: a }));
        proof {
            assert(self.state() =~= pre);
        }
        Ok(v)
    }
}

} // verus!

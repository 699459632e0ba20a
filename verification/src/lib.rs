//! Driver core for the Maxim MAX7301 serial I/O port expander, verified with
//! Verus.
//!
//! The MAX7301 provides 28 GPIO ports, numbered 4 through 31 and
//! software-configurable as push-pull output, floating input, or input with
//! weak pull-up. The core here is the register-access and transactional
//! write-back engine:
//!
//! - [`registers`] encodes semantic register identifiers into device
//!   addresses, the only place concrete addresses are produced;
//! - [`interface`] states, as the contract of [`ExpanderInterface`], what a
//!   bus transport must do with each register access, against a ghost model
//!   of the device's ports and registers;
//! - [`Expander`] offers raw single-port and 8-port batch access;
//! - [`Configurator`] accumulates per-pin mode requests into 4-pin banks and
//!   commits them with the fewest transactions the requests allow, choosing
//!   per bank between no traffic, one blind write, and a read-modify-write;
//! - [`ImmediateIO`] turns every pin operation into one bus transaction,
//!   while [`TransactionalIO`] caches pin reads and writes in 32-bit masks
//!   and moves them in batches under a caller-chosen [`Strategy`].
//!
//! An adapter owns its expander, and every pin operation takes the adapter
//! exclusively; [`PortPin`] itself is a plain value naming a port. A host
//! that shares one adapter between execution contexts wraps it in an
//! [`IOMutex`] of its choosing and hands out pins through that — the
//! concurrency discipline lives with the host, outside these proofs.
//!
//! Every function above is verified: its contract pins down the exact bus
//! transactions issued, the registers and ports they change, and the cache
//! and freshness bookkeeping of the transactional adapter. The public proof
//! functions state the driver-wide laws, such as which classification each
//! bank takes and which ports a write-back may touch. What Verus cannot
//! check — the electrical transport behind [`ExpanderInterface`] — is kept
//! outside, behind that trait's contract.

pub mod config;
pub mod expander;
pub mod interface;
pub mod mutex;
pub mod registers;

pub use config::Configurator;
pub use config::PortMode;
pub use expander::Expander;
pub use expander::immediate::ImmediateIO;
pub use expander::pin::ExpanderIO;
pub use expander::pin::PortPin;
pub use expander::transactional::Strategy;
pub use expander::transactional::TransactionalIO;
pub use interface::ExpanderInterface;
pub use interface::NoopInterface;
pub use interface::SpiInterface;
pub use interface::SpiInterfaceError;
pub use mutex::IOMutex;
pub use registers::Register;
pub use registers::RegisterAddress;
pub use registers::valid_bank;
pub use registers::valid_port;

//! Direction control for a half-duplex RS-485 transceiver such as the MAX485.
//!
//! The transceiver sits between a serial port and the bus, and one output pin
//! selects its direction: high to drive the bus, low to listen. This crate
//! decides which calls are made on the pin and on the serial port, in which
//! order, and what their answers amount to. It makes none of those calls
//! itself: every operation is a small machine that names the next call and is
//! resumed with that call's answer, so that the whole discipline is stated and
//! proved here, and the code that owns the hardware only carries calls out.

use nb::Error as NbError;
use vstd::prelude::*;

pub mod adapter;
pub mod receive;
pub mod text;
pub mod trace;
pub mod transmit;

pub use adapter::Max485;

verus! {

/// Makes `nb::Error` known to the verifier, with the two variants that `nb`
/// gives it: `Other` carries a failure, `WouldBlock` says that the operation
/// could not complete yet and may be tried again. Nothing is assumed of the
/// type beyond its definition.
#[verifier::external_type_specification]
#[verifier::reject_recursive_types(E)]
pub struct ExNbError<E>(NbError<E>);

/// Makes `std::fmt::Error` known to the verifier: a type with one value,
/// which says that writing text failed and nothing more.
#[verifier::external_type_specification]
pub struct ExFmtError(std::fmt::Error);

/// Why an operation of the adapter failed.
#[derive(Debug, Clone, Copy, PartialEq, Eq)]
pub enum Error {
    /// The direction pin refused to change level.
    PinError,
    /// The serial port reported a failure other than "would block".
    SerialError,
}

} // verus!

//! Sending: a word or a flush, bracketed by the direction pin.
//!
//! The pin goes high, the payload goes to the serial port, the pin goes low.
//! When the port is not ready the operation ends with "would block" and the
//! pin stays high, so that a caller who tries again does not toggle the
//! transceiver between attempts. In every other case in which the pin went
//! high it is asked to go low again before the operation ends, whether the
//! port took the payload or failed.

use crate::trace::{pin_reply, port_reply, run, Call, Machine, PinReply, PortReply};
use crate::Error;
use nb::Error as NbError;
use vstd::prelude::*;

verus! {

/// What is handed to the serial port while the bus is driven.
#[derive(Debug, Clone, Copy, PartialEq, Eq)]
pub enum Payload {
    /// One word to send.
    Word(u8),
    /// A request to push out what the port still buffers.
    Flush,
}

/// The next step of a write or a flush. Each variant but the last names one
/// call and holds what to resume with that call's answer.
#[derive(Debug, Clone, Copy, PartialEq, Eq)]
pub enum Transmit {
    /// Set the pin high.
    SetHigh(Driving),
    /// Send this word on the serial port.
    Write(u8, Forwarding),
    /// Flush the serial port.
    Flush(Forwarding),
    /// Set the pin low.
    SetLow(Releasing),
    /// Nothing is left to do: this is the result of the operation.
    Finish(Result<(), NbError<Error>>),
}

/// Waiting for the pin to have gone high.
#[derive(Debug, Clone, Copy, PartialEq, Eq)]
pub struct Driving {
    /// What to hand to the serial port once the bus is driven.
    pub payload: Payload,
}

/// Waiting for the serial port to have dealt with the payload.
#[derive(Debug, Clone, Copy, PartialEq, Eq)]
pub struct Forwarding {}

/// Waiting for the pin to have gone low again.
#[derive(Debug, Clone, Copy, PartialEq, Eq)]
pub struct Releasing {
    /// Whether the serial port took the payload.
    pub sent: bool,
}

impl Driving {
    /// With the pin high the payload goes to the serial port. If the pin
    /// refused, the operation ends at once: the port is not called, and the
    /// pin is not touched again.
    pub open spec fn resumed(self, reply: PinReply) -> Transmit {
        match reply {
            PinReply::Done => match self.payload {
                Payload::Word(word) => Transmit::Write(word, Forwarding {  }),
                Payload::Flush => Transmit::Flush(Forwarding {  }),
            },
            PinReply::Failed => Transmit::Finish(Err(NbError::Other(Error::PinError))),
        }
    }

    /// The step after the pin was asked to go high and answered `reply`.
    pub fn resume<E>(self, reply: Result<(), E>) -> (next: Transmit)
        ensures
            next == self.resumed(pin_reply(reply)),
    {
        match reply {
            Ok(_) => match self.payload {
                Payload::Word(word) => Transmit::Write(word, Forwarding {  }),
                Payload::Flush => Transmit::Flush(Forwarding {  }),
            },
            Err(_) => Transmit::Finish(Err(NbError::Other(Error::PinError))),
        }
    }
}

impl Forwarding {
    /// A port that is not ready ends the operation with the pin still high.
    /// Otherwise the pin is asked to go low, whether the port took the payload
    /// or failed.
    pub open spec fn resumed(self, reply: PortReply) -> Transmit {
        match reply {
            PortReply::Done => Transmit::SetLow(Releasing { sent: true }),
            PortReply::WouldBlock => Transmit::Finish(Err(NbError::WouldBlock)),
            PortReply::Failed => Transmit::SetLow(Releasing { sent: false }),
        }
    }

    /// The step after the serial port was handed the payload and answered
    /// `reply`.
    pub fn resume<E>(self, reply: Result<(), NbError<E>>) -> (next: Transmit)
        ensures
            next == self.resumed(port_reply(reply)),
    {
        match reply {
            Ok(_) => Transmit::SetLow(Releasing { sent: true }),
            Err(NbError::WouldBlock) => Transmit::Finish(Err(NbError::WouldBlock)),
            Err(NbError::Other(_)) => Transmit::SetLow(Releasing { sent: false }),
        }
    }
}

impl Releasing {
    /// A pin that refused to go low is reported in any case, even though the
    /// payload may have been sent: the bus may still be driven. With the pin
    /// low the operation ends as the serial port left it.
    pub open spec fn resumed(self, reply: PinReply) -> Transmit {
        match reply {
            PinReply::Done => if self.sent {
                Transmit::Finish(Ok(()))
            } else {
                Transmit::Finish(Err(NbError::Other(Error::SerialError)))
            },
            PinReply::Failed => Transmit::Finish(Err(NbError::Other(Error::PinError))),
        }
    }

    /// The step after the pin was asked to go low and answered `reply`.
    pub fn resume<E>(self, reply: Result<(), E>) -> (next: Transmit)
        ensures
            next == self.resumed(pin_reply(reply)),
    {
        match reply {
            Ok(_) => if self.sent {
                Transmit::Finish(Ok(()))
            } else {
                Transmit::Finish(Err(NbError::Other(Error::SerialError)))
            },
            Err(_) => Transmit::Finish(Err(NbError::Other(Error::PinError))),
        }
    }
}

impl Transmit {
    /// The step at which sending `payload` starts.
    pub open spec fn start(payload: Payload) -> Transmit {
        Transmit::SetHigh(Driving { payload })
    }
}

impl Machine for Transmit {
    open spec fn answer(self, call: Call) -> Option<Transmit> {
        match (self, call) {
            (Transmit::SetHigh(held), Call::SetHigh(reply)) => Some(held.resumed(reply)),
            (Transmit::Write(word, held), Call::Write(sent, reply)) => if sent == word {
                Some(held.resumed(reply))
            } else {
                None
            },
            (Transmit::Flush(held), Call::Flush(reply)) => Some(held.resumed(reply)),
            (Transmit::SetLow(held), Call::SetLow(reply)) => Some(held.resumed(reply)),
            _ => None,
        }
    }
}

/// Starts a non-blocking write of one word.
pub fn write(word: u8) -> (first: Transmit)
    ensures
        first == Transmit::start(Payload::Word(word)),
{
    Transmit::SetHigh(Driving { payload: Payload::Word(word) })
}

/// Starts a non-blocking flush.
pub fn flush() -> (first: Transmit)
    ensures
        first == Transmit::start(Payload::Flush),
{
    Transmit::SetHigh(Driving { payload: Payload::Flush })
}

/// The call that hands `payload` to the serial port, answered with `reply`.
pub open spec fn forward(payload: Payload, reply: PortReply) -> Call {
    match payload {
        Payload::Word(word) => Call::Write(word, reply),
        Payload::Flush => Call::Flush(reply),
    }
}

/// The result in which sending `payload` ends after exactly the history
/// `calls`; `None` if `calls` is not the history of a whole operation.
pub open spec fn completed(payload: Payload, calls: Seq<Call>) -> Option<
    Result<(), NbError<Error>>,
> {
    let high = Call::SetHigh(PinReply::Done);
    let low = Call::SetLow(PinReply::Done);
    let stuck = Call::SetLow(PinReply::Failed);
    if calls == seq![Call::SetHigh(PinReply::Failed)] {
        Some(Err(NbError::Other(Error::PinError)))
    } else if calls == seq![high, forward(payload, PortReply::WouldBlock)] {
        Some(Err(NbError::WouldBlock))
    } else if calls == seq![high, forward(payload, PortReply::Failed), low] {
        Some(Err(NbError::Other(Error::SerialError)))
    } else if calls == seq![high, forward(payload, PortReply::Failed), stuck] {
        Some(Err(NbError::Other(Error::PinError)))
    } else if calls == seq![high, forward(payload, PortReply::Done), low] {
        Some(Ok(()))
    } else if calls == seq![high, forward(payload, PortReply::Done), stuck] {
        Some(Err(NbError::Other(Error::PinError)))
    } else {
        None
    }
}

/// A write or a flush ends after a history exactly when `completed` lists
/// that history, and then with the result listed there.
pub proof fn lemma_transmit_histories(payload: Payload, calls: Seq<Call>)
    ensures
        match run(Transmit::start(payload), calls) {
            Some(Transmit::Finish(result)) => completed(payload, calls) == Some(result),
            _ => completed(payload, calls) is None,
        },
{
    reveal_with_fuel(run, 5);
    if run(Transmit::start(payload), calls) matches Some(Transmit::Finish(result)) {
        if calls.len() == 1 {
            assert(calls =~= seq![calls[0]]);
        } else if calls.len() == 2 {
            assert(calls =~= seq![calls[0], calls[1]]);
        } else {
            assert(calls =~= seq![calls[0], calls[1], calls[2]]);
        }
    }
}

/// A write that succeeded made three calls and no other: the pin high, the
/// word to the serial port, the pin low, in this order.
pub proof fn lemma_write_done(word: u8, calls: Seq<Call>)
    requires
        run(Transmit::start(Payload::Word(word)), calls) == Some(Transmit::Finish(Ok(()))),
    ensures
        calls == seq![
            Call::SetHigh(PinReply::Done),
            Call::Write(word, PortReply::Done),
            Call::SetLow(PinReply::Done),
        ],
{
    lemma_transmit_histories(Payload::Word(word), calls);
}

/// When the pin refuses to go high, that call stays the only one: nothing
/// reaches the serial port, the pin is not asked to go low, and the operation
/// has ended with `PinError`.
pub proof fn lemma_refused_drive_sends_nothing(payload: Payload, calls: Seq<Call>)
    requires
        run(Transmit::start(payload), calls) is Some,
        calls.len() > 0,
        calls[0] == Call::SetHigh(PinReply::Failed),
    ensures
        calls.len() == 1,
        run(Transmit::start(payload), calls) == Some(
            Transmit::Finish(Err(NbError::Other(Error::PinError))),
        ),
{
    reveal_with_fuel(run, 3);
}

/// When the serial port is not ready, the operation ends there with "would
/// block": the pin is left high, however often this happens in a row.
pub proof fn lemma_would_block_holds_pin(payload: Payload, calls: Seq<Call>)
    requires
        run(Transmit::start(payload), calls) is Some,
        calls.len() >= 2,
        calls[1] == forward(payload, PortReply::WouldBlock),
    ensures
        calls == seq![Call::SetHigh(PinReply::Done), forward(payload, PortReply::WouldBlock)],
        run(Transmit::start(payload), calls) == Some(Transmit::Finish(Err(NbError::WouldBlock))),
{
    reveal_with_fuel(run, 4);
}

/// When the serial port fails, the next call sets the pin low, and the
/// operation is not over before that call is made. It is the last one. The
/// port's failure is reported if the pin went low, the pin's if it did not.
pub proof fn lemma_failure_releases_pin(payload: Payload, calls: Seq<Call>)
    requires
        run(Transmit::start(payload), calls) is Some,
        calls.len() >= 2,
        calls[1] == forward(payload, PortReply::Failed),
    ensures
        calls[0] == Call::SetHigh(PinReply::Done),
        calls.len() == 2 ==> run(Transmit::start(payload), calls) == Some(
            Transmit::SetLow(Releasing { sent: false }),
        ),
        calls.len() > 2 ==> calls.len() == 3 && calls[2] is SetLow && run(
            Transmit::start(payload),
            calls,
        ) == Some(
            Transmit::Finish(
                Err(
                    NbError::Other(
                        if calls[2] == Call::SetLow(PinReply::Done) {
                            Error::SerialError
                        } else {
                            Error::PinError
                        },
                    ),
                ),
            ),
        ),
{
    reveal_with_fuel(run, 5);
}

/// Whatever a write or a flush has called so far, the payload went to the
/// serial port only as the second call, after the pin had gone high, and the
/// pin was set low only as the third call, after the port had taken the
/// payload or failed. There is no fourth call.
pub proof fn lemma_payload_inside_bracket(payload: Payload, calls: Seq<Call>)
    requires
        run(Transmit::start(payload), calls) is Some,
    ensures
        calls.len() <= 3,
        calls.len() >= 1 ==> calls[0] is SetHigh,
        calls.len() >= 2 ==> calls[0] == Call::SetHigh(PinReply::Done) && exists|reply: PortReply|
            calls[1] == forward(payload, reply),
        calls.len() == 3 ==> calls[1] != forward(payload, PortReply::WouldBlock) && calls[2]
            is SetLow,
{
    reveal_with_fuel(run, 5);
    if calls.len() >= 2 {
        match calls[1] {
            Call::Write(_, reply) => {
                assert(calls[1] == forward(payload, reply));
            },
            Call::Flush(reply) => {
                assert(calls[1] == forward(payload, reply));
            },
            _ => {},
        }
    }
}

} // verus!

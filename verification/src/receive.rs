//! Receiving: the pin is forced low, then one word is read.
//!
//! The pin is set low before every read, also when a read is tried again
//! after "would block": what level the pin was left at is never assumed.
//! Nothing follows the read, since low is the level at which the bus rests.

use crate::trace::{pin_reply, read_reply, run, Call, Machine, PinReply, ReadReply};
use crate::Error;
use nb::Error as NbError;
use vstd::prelude::*;

verus! {

/// The next step of a read. Each variant but the last names one call and
/// holds what to resume with that call's answer.
#[derive(Debug, Clone, Copy, PartialEq, Eq)]
pub enum Receive {
    /// Set the pin low.
    SetLow(Settling),
    /// Read a word from the serial port.
    Read(Reading),
    /// Nothing is left to do: this is the result of the operation.
    Finish(Result<u8, NbError<Error>>),
}

/// Waiting for the pin to have gone low.
#[derive(Debug, Clone, Copy, PartialEq, Eq)]
pub struct Settling {}

/// Waiting for the serial port to have answered the read.
#[derive(Debug, Clone, Copy, PartialEq, Eq)]
pub struct Reading {}

impl Settling {
    /// With the pin low the serial port is read; if the pin refused, the
    /// operation ends at once and the port is not called.
    pub open spec fn resumed(self, reply: PinReply) -> Receive {
        match reply {
            PinReply::Done => Receive::Read(Reading {  }),
            PinReply::Failed => Receive::Finish(Err(NbError::Other(Error::PinError))),
        }
    }

    /// The step after the pin was asked to go low and answered `reply`.
    pub fn resume<E>(self, reply: Result<(), E>) -> (next: Receive)
        ensures
            next == self.resumed(pin_reply(reply)),
    {
        match reply {
            Ok(_) => Receive::Read(Reading {  }),
            Err(_) => Receive::Finish(Err(NbError::Other(Error::PinError))),
        }
    }
}

impl Reading {
    /// The operation ends as the serial port answered: with the word, with
    /// "would block", or with `SerialError` for any failure of the port.
    pub open spec fn resumed(self, reply: ReadReply) -> Receive {
        match reply {
            ReadReply::Word(word) => Receive::Finish(Ok(word)),
            ReadReply::WouldBlock => Receive::Finish(Err(NbError::WouldBlock)),
            ReadReply::Failed => Receive::Finish(Err(NbError::Other(Error::SerialError))),
        }
    }

    /// The step after the serial port was asked for a word and answered
    /// `reply`.
    pub fn resume<E>(self, reply: Result<u8, NbError<E>>) -> (next: Receive)
        ensures
            next == self.resumed(read_reply(reply)),
    {
        match reply {
            Ok(word) => Receive::Finish(Ok(word)),
            Err(NbError::WouldBlock) => Receive::Finish(Err(NbError::WouldBlock)),
            Err(NbError::Other(_)) => Receive::Finish(Err(NbError::Other(Error::SerialError))),
        }
    }
}

impl Receive {
    /// The step at which a read starts.
    pub open spec fn start() -> Receive {
        Receive::SetLow(Settling {  })
    }
}

impl Machine for Receive {
    open spec fn answer(self, call: Call) -> Option<Receive> {
        match (self, call) {
            (Receive::SetLow(held), Call::SetLow(reply)) => Some(held.resumed(reply)),
            (Receive::Read(held), Call::Read(reply)) => Some(held.resumed(reply)),
            _ => None,
        }
    }
}

/// Starts a non-blocking read of one word.
pub fn read() -> (first: Receive)
    ensures
        first == Receive::start(),
{
    Receive::SetLow(Settling {  })
}

/// The result in which a read ends after exactly the history `calls`; `None`
/// if `calls` is not the history of a whole read.
pub open spec fn completed(calls: Seq<Call>) -> Option<Result<u8, NbError<Error>>> {
    if calls == seq![Call::SetLow(PinReply::Failed)] {
        Some(Err(NbError::Other(Error::PinError)))
    } else if calls.len() == 2 && calls[0] == Call::SetLow(PinReply::Done) {
        match calls[1] {
            Call::Read(ReadReply::Word(word)) => Some(Ok(word)),
            Call::Read(ReadReply::WouldBlock) => Some(Err(NbError::WouldBlock)),
            Call::Read(ReadReply::Failed) => Some(Err(NbError::Other(Error::SerialError))),
            _ => None,
        }
    } else {
        None
    }
}

/// A read ends after a history exactly when `completed` lists that history,
/// and then with the result listed there.
pub proof fn lemma_receive_histories(calls: Seq<Call>)
    ensures
        match run(Receive::start(), calls) {
            Some(Receive::Finish(result)) => completed(calls) == Some(result),
            _ => completed(calls) is None,
        },
{
    reveal_with_fuel(run, 4);
    if calls.len() == 1 {
        assert(calls =~= seq![calls[0]]);
    }
}

/// Whatever a read has called so far, the first call set the pin low, and the
/// serial port was read only as the second call, after the pin had gone low.
pub proof fn lemma_read_settles_first(calls: Seq<Call>)
    requires
        run(Receive::start(), calls) is Some,
    ensures
        calls.len() <= 2,
        calls.len() >= 1 ==> calls[0] is SetLow,
        calls.len() == 2 ==> calls[0] == Call::SetLow(PinReply::Done) && calls[1] is Read,
{
    reveal_with_fuel(run, 4);
}

} // verus!

//! Histories of calls, and what it means for a machine to have made one.
//!
//! The adapter never looks at the detail of a failure, so a history records
//! of each answer only what the adapter decides on.

use nb::Error as NbError;
use vstd::prelude::*;

verus! {

/// How a call on the pin ended.
#[derive(Debug, Clone, Copy, PartialEq, Eq)]
pub enum PinReply {
    /// The pin took the level.
    Done,
    /// The pin reported an error.
    Failed,
}

/// How a write or a flush on the serial port ended.
#[derive(Debug, Clone, Copy, PartialEq, Eq)]
pub enum PortReply {
    /// The port took the word, or has nothing buffered any more.
    Done,
    /// The port is not ready yet.
    WouldBlock,
    /// The port reported an error.
    Failed,
}

/// How a read on the serial port ended.
#[derive(Debug, Clone, Copy, PartialEq, Eq)]
pub enum ReadReply {
    /// The port handed out this word.
    Word(u8),
    /// The port has no word yet.
    WouldBlock,
    /// The port reported an error.
    Failed,
}

/// What the adapter sees in the result of a pin call.
pub open spec fn pin_reply<E>(result: Result<(), E>) -> PinReply {
    match result {
        Ok(_) => PinReply::Done,
        Err(_) => PinReply::Failed,
    }
}

/// What the adapter sees in the result of a write or a flush.
pub open spec fn port_reply<E>(result: Result<(), NbError<E>>) -> PortReply {
    match result {
        Ok(_) => PortReply::Done,
        Err(NbError::WouldBlock) => PortReply::WouldBlock,
        Err(NbError::Other(_)) => PortReply::Failed,
    }
}

/// What the adapter sees in the result of a read.
pub open spec fn read_reply<E>(result: Result<u8, NbError<E>>) -> ReadReply {
    match result {
        Ok(word) => ReadReply::Word(word),
        Err(NbError::WouldBlock) => ReadReply::WouldBlock,
        Err(NbError::Other(_)) => ReadReply::Failed,
    }
}

/// One call made on the pin or on the serial port, together with its answer.
#[derive(Debug, Clone, Copy, PartialEq, Eq)]
pub enum Call {
    /// The pin was asked to go high.
    SetHigh(PinReply),
    /// The pin was asked to go low.
    SetLow(PinReply),
    /// The serial port was asked to send a word.
    Write(u8, PortReply),
    /// The serial port was asked to flush.
    Flush(PortReply),
    /// The serial port was asked for a word.
    Read(ReadReply),
}

/// A step of an operation: either it names the one call to make next, or the
/// operation is over.
pub trait Machine: Sized {
    /// The step that follows once `call` has been made and answered, provided
    /// `call` is the call that this step names; `None` otherwise, and always
    /// `None` once the operation is over.
    spec fn answer(self, call: Call) -> Option<Self>;
}

/// The step reached from `first` when `calls` is the history so far, or
/// `None` if the machine would not have made these calls in this order.
pub open spec fn run<M: Machine>(first: M, calls: Seq<Call>) -> Option<M>
    decreases calls.len(),
{
    if calls.len() == 0 {
        Some(first)
    } else {
        match first.answer(calls[0]) {
            Some(next) => run(next, calls.drop_first()),
            None => None,
        }
    }
}

/// The words that the serial port took, in the order in which it took them.
pub open spec fn delivered(calls: Seq<Call>) -> Seq<u8>
    decreases calls.len(),
{
    if calls.len() == 0 {
        Seq::empty()
    } else {
        match calls[0] {
            Call::Write(word, PortReply::Done) => seq![word] + delivered(calls.drop_first()),
            _ => delivered(calls.drop_first()),
        }
    }
}

/// A history may be cut anywhere: what follows the cut is run from the step
/// that the part before it has reached.
pub proof fn lemma_run_split<M: Machine>(first: M, head: Seq<Call>, tail: Seq<Call>)
    ensures
        run(first, head + tail) == match run(first, head) {
            Some(reached) => run(reached, tail),
            None => None,
        },
    decreases head.len(),
{
    if head.len() > 0 {
        assert((head + tail).drop_first() =~= head.drop_first() + tail);
        match first.answer(head[0]) {
            Some(next) => {
                lemma_run_split(next, head.drop_first(), tail);
            },
            None => {},
        }
    }
}

} // verus!

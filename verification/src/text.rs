//! Writing text: all bytes of a string inside one bracket of the pin.
//!
//! The pin goes high once, every byte is offered to the serial port until the
//! port takes it, and the pin goes low once. A port that is not ready is
//! simply asked again, so this operation never reports "would block". Any
//! failure, of the pin or of the port, is reported as the one error that
//! text output knows; after a failure of the port the pin is still asked to
//! go low, so that the bus is not left driven.

use crate::trace::{
    delivered, lemma_run_split, pin_reply, port_reply, run, Call, Machine, PinReply, PortReply,
};
use nb::Error as NbError;
use vstd::prelude::*;
use vstd::string::StringSliceAdditionalSpecFns;

verus! {

/// The next step of writing a text. Each variant but the last names one call
/// and holds what to resume with that call's answer.
#[derive(Debug, Clone, Copy, PartialEq, Eq)]
pub enum Text<'a> {
    /// Set the pin high.
    SetHigh(Opening<'a>),
    /// Send this byte on the serial port.
    Write(u8, Sending<'a>),
    /// Set the pin low.
    SetLow(Closing),
    /// Nothing is left to do: this is the result of the operation.
    Finish(Result<(), std::fmt::Error>),
}

/// Waiting for the pin to have gone high.
#[derive(Debug, Clone, Copy, PartialEq, Eq)]
pub struct Opening<'a> {
    /// The bytes of the text.
    pub bytes: &'a [u8],
}

/// Waiting for the serial port to have dealt with one byte.
#[derive(Debug, Clone, Copy, PartialEq, Eq)]
pub struct Sending<'a> {
    /// The bytes of the text.
    pub bytes: &'a [u8],
    /// Where in `bytes` the byte stands that the port was handed.
    pub next: usize,
}

/// Waiting for the pin to have gone low again.
#[derive(Debug, Clone, Copy, PartialEq, Eq)]
pub struct Closing {
    /// Whether the serial port took every byte.
    pub sent: bool,
}

/// The step that offers the byte at `at` to the serial port or, where
/// `bytes` has no such byte, closes the bracket after a text sent in full.
pub open spec fn emitted<'a>(bytes: &'a [u8], at: int) -> Text<'a> {
    if 0 <= at < bytes@.len() {
        Text::Write(bytes@[at], Sending { bytes, next: at as usize })
    } else {
        Text::SetLow(Closing { sent: true })
    }
}

fn emit<'a>(bytes: &'a [u8], at: usize) -> (next: Text<'a>)
    ensures
        next == emitted(bytes, at as int),
{
    if at < bytes.len() {
        Text::Write(bytes[at], Sending { bytes, next: at })
    } else {
        Text::SetLow(Closing { sent: true })
    }
}

impl<'a> Opening<'a> {
    /// With the pin high the first byte is offered, or the bracket closed at
    /// once for an empty text. If the pin refused, the operation ends there:
    /// the port is not called, and the pin is not touched again.
    pub open spec fn resumed(self, reply: PinReply) -> Text<'a> {
        match reply {
            PinReply::Done => emitted(self.bytes, 0),
            PinReply::Failed => Text::Finish(Err(std::fmt::Error)),
        }
    }

    /// The step after the pin was asked to go high and answered `reply`.
    pub fn resume<E>(self, reply: Result<(), E>) -> (next: Text<'a>)
        ensures
            next == self.resumed(pin_reply(reply)),
    {
        match reply {
            Ok(_) => emit(self.bytes, 0),
            Err(_) => Text::Finish(Err(std::fmt::Error)),
        }
    }
}

impl<'a> Sending<'a> {
    /// A byte that the port took is followed by the next one, a port that is
    /// not ready is offered the same byte again, and a port that failed gets
    /// no further byte: the bracket is closed.
    pub open spec fn resumed(self, reply: PortReply) -> Text<'a> {
        match reply {
            PortReply::Done => emitted(self.bytes, self.next + 1),
            PortReply::WouldBlock => emitted(self.bytes, self.next as int),
            PortReply::Failed => Text::SetLow(Closing { sent: false }),
        }
    }

    /// The step after the serial port was offered the byte and answered
    /// `reply`.
    pub fn resume<E>(self, reply: Result<(), NbError<E>>) -> (next: Text<'a>)
        ensures
            next == self.resumed(port_reply(reply)),
    {
        match reply {
            Ok(_) => if self.next < self.bytes.len() {
                emit(self.bytes, self.next + 1)
            } else {
                Text::SetLow(Closing { sent: true })
            },
            Err(NbError::WouldBlock) => emit(self.bytes, self.next),
            Err(NbError::Other(_)) => Text::SetLow(Closing { sent: false }),
        }
    }
}

impl Closing {
    /// The text is written if the port took every byte and the pin went low;
    /// otherwise the operation has failed.
    pub open spec fn resumed(self, reply: PinReply) -> Text<'static> {
        match reply {
            PinReply::Done => if self.sent {
                Text::Finish(Ok(()))
            } else {
                Text::Finish(Err(std::fmt::Error))
            },
            PinReply::Failed => Text::Finish(Err(std::fmt::Error)),
        }
    }

    /// The step after the pin was asked to go low and answered `reply`.
    pub fn resume<E>(self, reply: Result<(), E>) -> (next: Text<'static>)
        ensures
            next == self.resumed(pin_reply(reply)),
    {
        match reply {
            Ok(_) => if self.sent {
                Text::Finish(Ok(()))
            } else {
                Text::Finish(Err(std::fmt::Error))
            },
            Err(_) => Text::Finish(Err(std::fmt::Error)),
        }
    }
}

impl<'a> Text<'a> {
    /// The step at which writing `bytes` starts.
    pub open spec fn start(bytes: &'a [u8]) -> Text<'a> {
        Text::SetHigh(Opening { bytes })
    }
}

impl<'a> Machine for Text<'a> {
    open spec fn answer(self, call: Call) -> Option<Text<'a>> {
        match (self, call) {
            (Text::SetHigh(held), Call::SetHigh(reply)) => Some(held.resumed(reply)),
            (Text::Write(word, held), Call::Write(sent, reply)) => if sent == word {
                Some(held.resumed(reply))
            } else {
                None
            },
            (Text::SetLow(held), Call::SetLow(reply)) => Some(held.resumed(reply)),
            _ => None,
        }
    }
}

/// Starts writing the bytes of `text`, waiting for the serial port where it
/// is not ready.
pub fn write_str<'a>(text: &'a str) -> (first: Text<'a>)
    ensures
        first matches Text::SetHigh(held) && held.bytes@ == text.spec_bytes(),
{
    Text::SetHigh(Opening { bytes: text.as_bytes() })
}

/// A slice is never longer than an index can tell.
proof fn lemma_length_fits(bytes: &[u8])
    ensures
        bytes@.len() <= usize::MAX,
{
    broadcast use vstd::slice::axiom_spec_len;

    assert(bytes@.len() == vstd::slice::spec_slice_len(bytes));
}

/// What holds of every history that starts where the byte at `at` is
/// offered, or where after the last byte the bracket is closed.
proof fn lemma_sending_histories(bytes: &[u8], at: int, calls: Seq<Call>)
    requires
        0 <= at <= bytes@.len(),
        run(emitted(bytes, at), calls) is Some,
    ensures
        forall|i: int| 0 <= i < calls.len() - 1 ==> calls[i] is Write,
        calls.len() >= 1 ==> calls.last() is Write || calls.last() is SetLow,
        forall|i: int|
            0 <= i < calls.len() && #[trigger] calls[i] is Write ==> {
                let taken = delivered(calls.take(i)).len();
                at + taken < bytes@.len() && calls[i]->Write_0 == bytes@[at + taken]
            },
        at + delivered(calls).len() <= bytes@.len(),
        delivered(calls) == bytes@.subrange(at, at + delivered(calls).len()),
        run(emitted(bytes, at), calls) matches Some(Text::Finish(_)) <==> calls.len() >= 1
            && calls.last() is SetLow,
        run(emitted(bytes, at), calls) == Some(Text::Finish(Ok(()))) <==> calls.len() >= 1
            && calls.last() == Call::SetLow(PinReply::Done) && at + delivered(calls).len()
            == bytes@.len(),
    decreases calls.len(),
{
    reveal_with_fuel(run, 3);
    reveal_with_fuel(delivered, 3);
    lemma_length_fits(bytes);
    if calls.len() > 0 && at < bytes@.len() {
        let tail = calls.drop_first();
        let onward = match calls[0] {
            Call::Write(_, PortReply::Done) => Some(at + 1),
            Call::Write(_, PortReply::WouldBlock) => Some(at),
            _ => None,
        };
        match onward {
            Some(from) => {
                lemma_sending_histories(bytes, from, tail);
                assert forall|i: int| 0 < i <= calls.len() implies calls.take(i)[0] == calls[0]
                    && calls.take(i).drop_first() == #[trigger] tail.take(i - 1) by {}
                assert forall|i: int| 0 <= i < calls.len() - 1 implies calls[i] is Write by {
                    if i > 0 {
                        assert(calls[i] == tail[i - 1]);
                    }
                }
                assert forall|i: int|
                    0 <= i < calls.len() && #[trigger] calls[i] is Write implies {
                    let taken = delivered(calls.take(i)).len();
                    at + taken < bytes@.len() && calls[i]->Write_0 == bytes@[at + taken]
                } by {
                    if i > 0 {
                        assert(tail[i - 1] is Write);
                    }
                }
            },
            None => {},
        }
    }
}

/// Whatever has been called so far while a text is written, the calls keep to
/// one bracket. The first call set the pin high, and only the first. Nothing
/// followed if the pin refused. Otherwise every later call offered a byte to
/// the serial port, except that the last may have set the pin low, and with
/// that call the operation is over. Each byte offered is the one that follows
/// the bytes which the port has taken, so these are the bytes of the text from
/// its start, each once and in order. The text counts as written exactly if
/// the port took all of it and the pin went low.
pub proof fn lemma_one_bracket(bytes: &[u8], calls: Seq<Call>)
    requires
        run(Text::start(bytes), calls) is Some,
    ensures
        calls.len() >= 1 ==> calls[0] is SetHigh,
        calls.len() >= 2 ==> calls[0] == Call::SetHigh(PinReply::Done) && (calls.last() is Write
            || calls.last() is SetLow),
        forall|i: int| 0 < i < calls.len() - 1 ==> calls[i] is Write,
        forall|i: int|
            0 <= i < calls.len() && #[trigger] calls[i] is Write ==> {
                let taken = delivered(calls.take(i)).len();
                taken < bytes@.len() && calls[i]->Write_0 == bytes@[taken as int]
            },
        delivered(calls).len() <= bytes@.len(),
        delivered(calls) == bytes@.subrange(0, delivered(calls).len() as int),
        run(Text::start(bytes), calls) matches Some(Text::Finish(_)) <==> calls == seq![
            Call::SetHigh(PinReply::Failed),
        ] || (calls.len() >= 2 && calls.last() is SetLow),
        run(Text::start(bytes), calls) == Some(Text::Finish(Ok(()))) <==> calls.len() >= 2
            && calls.last() == Call::SetLow(PinReply::Done) && delivered(calls) == bytes@,
{
    reveal_with_fuel(run, 3);
    reveal_with_fuel(delivered, 2);
    if calls.len() > 0 {
        let tail = calls.drop_first();
        assert forall|i: int| 0 < i <= calls.len() implies calls.take(i)[0] == calls[0]
            && calls.take(i).drop_first() == #[trigger] tail.take(i - 1) by {}
        if calls[0] == Call::SetHigh(PinReply::Done) {
            lemma_sending_histories(bytes, 0, tail);
            assert forall|i: int| 0 < i < calls.len() - 1 implies calls[i] is Write by {
                assert(calls[i] == tail[i - 1]);
            }
            assert(bytes@.subrange(0, bytes@.len() as int) =~= bytes@);
            assert forall|i: int| 0 <= i < calls.len() && #[trigger] calls[i] is Write implies {
                let taken = delivered(calls.take(i)).len();
                taken < bytes@.len() && calls[i]->Write_0 == bytes@[taken as int]
            } by {
                assert(tail[i - 1] is Write);
            }
        } else {
            assert(calls =~= seq![calls[0]]);
        }
    }
}

/// Writing an empty text calls the serial port not once. Written with
/// success, it made two calls: the pin high, the pin low.
pub proof fn lemma_empty_text(bytes: &[u8], calls: Seq<Call>)
    requires
        bytes@.len() == 0,
        run(Text::start(bytes), calls) is Some,
    ensures
        forall|i: int| 0 <= i < calls.len() ==> !(calls[i] is Write),
        run(Text::start(bytes), calls) == Some(Text::Finish(Ok(()))) <==> calls == seq![
            Call::SetHigh(PinReply::Done),
            Call::SetLow(PinReply::Done),
        ],
{
    reveal_with_fuel(run, 4);
    if calls.len() >= 2 {
        assert(calls =~= seq![calls[0], calls[1]]);
    }
}

/// The history of a text that the serial port took byte by byte without
/// delay: the pin high, each byte once and in order, the pin low.
pub open spec fn smooth(bytes: Seq<u8>) -> Seq<Call> {
    seq![Call::SetHigh(PinReply::Done)] + Seq::new(
        bytes.len(),
        |i: int| Call::Write(bytes[i], PortReply::Done),
    ) + seq![Call::SetLow(PinReply::Done)]
}

/// Where the serial port is never found busy, a text is written with success
/// by exactly one history: one bracket of the pin around all bytes, not one
/// around each.
pub proof fn lemma_smooth_text(bytes: &[u8], calls: Seq<Call>)
    requires
        forall|i: int, word: u8|
            0 <= i < calls.len() ==> calls[i] != Call::Write(word, PortReply::WouldBlock),
    ensures
        run(Text::start(bytes), calls) == Some(Text::Finish(Ok(()))) <==> calls == smooth(bytes@),
{
    reveal_with_fuel(run, 2);
    let tail = calls.drop_first();
    let inner = smooth(bytes@).drop_first();
    assert(inner =~= Seq::new(
        (bytes@.len() - 0) as nat,
        |i: int| Call::Write(bytes@[0 + i], PortReply::Done),
    ) + seq![Call::SetLow(PinReply::Done)]);
    if calls.len() > 0 && calls[0] == Call::SetHigh(PinReply::Done) {
        lemma_smooth_sending(bytes, 0, tail);
        if tail == inner {
            assert(calls =~= seq![calls[0]] + tail);
            assert(smooth(bytes@) =~= seq![calls[0]] + inner);
        }
    }
}

/// From the byte at `at` on, a port that is never busy leaves one way to the
/// end with success: the bytes that are left, then the pin low.
proof fn lemma_smooth_sending(bytes: &[u8], at: int, calls: Seq<Call>)
    requires
        0 <= at <= bytes@.len(),
        forall|i: int, word: u8|
            0 <= i < calls.len() ==> calls[i] != Call::Write(word, PortReply::WouldBlock),
    ensures
        run(emitted(bytes, at), calls) == Some(Text::Finish(Ok(()))) <==> calls == Seq::new(
            (bytes@.len() - at) as nat,
            |i: int| Call::Write(bytes@[at + i], PortReply::Done),
        ) + seq![Call::SetLow(PinReply::Done)],
    decreases bytes@.len() - at,
{
    reveal_with_fuel(run, 3);
    lemma_length_fits(bytes);
    let tail = calls.drop_first();
    let rest = Seq::new(
        (bytes@.len() - at) as nat,
        |i: int| Call::Write(bytes@[at + i], PortReply::Done),
    ) + seq![Call::SetLow(PinReply::Done)];
    if at < bytes@.len() {
        let after = Seq::new(
            (bytes@.len() - (at + 1)) as nat,
            |i: int| Call::Write(bytes@[at + 1 + i], PortReply::Done),
        ) + seq![Call::SetLow(PinReply::Done)];
        assert(rest.drop_first() =~= after);
        if calls.len() > 0 {
            lemma_smooth_sending(bytes, at + 1, tail);
            if calls[0] == rest[0] && tail == after {
                assert(calls =~= seq![calls[0]] + tail);
                assert(rest =~= seq![rest[0]] + after);
            }
        }
    } else if calls.len() == 1 {
        assert(calls =~= seq![calls[0]]);
    }
}

/// The history of a one-byte text where the serial port was found busy
/// `retries` times before it took the byte.
pub open spec fn retried(word: u8, retries: nat) -> Seq<Call> {
    seq![Call::SetHigh(PinReply::Done)] + Seq::new(
        retries,
        |i: int| Call::Write(word, PortReply::WouldBlock),
    ) + seq![Call::Write(word, PortReply::Done), Call::SetLow(PinReply::Done)]
}

/// As long as the serial port is busy the same byte is offered again, and
/// nothing else happens.
pub proof fn lemma_busy_port_is_asked_again(bytes: &[u8], at: int, retries: nat)
    requires
        0 <= at < bytes@.len(),
    ensures
        run(
            emitted(bytes, at),
            Seq::new(retries, |i: int| Call::Write(bytes@[at], PortReply::WouldBlock)),
        ) == Some(emitted(bytes, at)),
    decreases retries,
{
    reveal_with_fuel(run, 2);
    lemma_length_fits(bytes);
    let calls = Seq::new(retries, |i: int| Call::Write(bytes@[at], PortReply::WouldBlock));
    if retries > 0 {
        lemma_busy_port_is_asked_again(bytes, at, (retries - 1) as nat);
        assert(calls.drop_first() =~= Seq::new(
            (retries - 1) as nat,
            |i: int| Call::Write(bytes@[at], PortReply::WouldBlock),
        ));
    }
}

/// However often the serial port is busy before it takes the byte, writing a
/// one-byte text comes to an end with success, and the port has taken the
/// byte once.
pub proof fn lemma_retries_end(bytes: &[u8], retries: nat)
    requires
        bytes@.len() == 1,
    ensures
        run(Text::start(bytes), retried(bytes@[0], retries)) == Some(Text::Finish(Ok(()))),
        delivered(retried(bytes@[0], retries)) == seq![bytes@[0]],
{
    reveal_with_fuel(run, 4);
    lemma_length_fits(bytes);
    let word = bytes@[0];
    let busy = Seq::new(retries, |i: int| Call::Write(word, PortReply::WouldBlock));
    let end = seq![Call::Write(word, PortReply::Done), Call::SetLow(PinReply::Done)];
    let calls = retried(word, retries);
    assert(calls.drop_first() =~= busy + end);
    lemma_busy_port_is_asked_again(bytes, 0, retries);
    lemma_run_split(emitted(bytes, 0), busy, end);
    lemma_one_bracket(bytes, calls);
}

/// The calls from the byte at `at` on where the serial port is found busy
/// `waits(i)` times before it takes the byte at `i`, and the pin goes low in
/// the end.
pub open spec fn patient(bytes: Seq<u8>, waits: spec_fn(int) -> nat, at: int) -> Seq<Call>
    decreases bytes.len() - at,
{
    if 0 <= at < bytes.len() {
        Seq::new(waits(at), |i: int| Call::Write(bytes[at], PortReply::WouldBlock)) + seq![
            Call::Write(bytes[at], PortReply::Done),
        ] + patient(bytes, waits, at + 1)
    } else {
        seq![Call::SetLow(PinReply::Done)]
    }
}

/// Waiting pays: if the serial port takes every byte in the end, however
/// often it is busy before each, the text is written.
pub proof fn lemma_patience_pays(bytes: &[u8], waits: spec_fn(int) -> nat)
    ensures
        run(Text::start(bytes), seq![Call::SetHigh(PinReply::Done)] + patient(bytes@, waits, 0))
            == Some(Text::Finish(Ok(()))),
{
    reveal_with_fuel(run, 2);
    let calls = seq![Call::SetHigh(PinReply::Done)] + patient(bytes@, waits, 0);
    assert(calls.drop_first() =~= patient(bytes@, waits, 0));
    lemma_patient_sending(bytes, waits, 0);
}

/// From the byte at `at` on, a port that takes every byte in the end lets the
/// text be written.
proof fn lemma_patient_sending(bytes: &[u8], waits: spec_fn(int) -> nat, at: int)
    requires
        0 <= at <= bytes@.len(),
    ensures
        run(emitted(bytes, at), patient(bytes@, waits, at)) == Some(Text::Finish(Ok(()))),
    decreases bytes@.len() - at,
{
    reveal_with_fuel(run, 3);
    lemma_length_fits(bytes);
    if at < bytes@.len() {
        let busy = Seq::new(waits(at), |i: int| Call::Write(bytes@[at], PortReply::WouldBlock));
        let rest = patient(bytes@, waits, at + 1);
        let taken = seq![Call::Write(bytes@[at], PortReply::Done)] + rest;
        assert(patient(bytes@, waits, at) =~= busy + taken);
        assert(taken.drop_first() =~= rest);
        lemma_busy_port_is_asked_again(bytes, at, waits(at));
        lemma_run_split(emitted(bytes, at), busy, taken);
        lemma_patient_sending(bytes, waits, at + 1);
    } else {
    }
}

} // verus!

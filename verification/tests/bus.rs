//! Whole operations, carried out on a pin and a serial port that record what
//! was asked of them.

use embedded_hal::digital::v2::OutputPin;
use embedded_hal::serial::{Read, Write};
use max485::receive::Receive;
use max485::text::Text;
use max485::transmit::Transmit;
use max485::{Error, Max485};
use std::cell::RefCell;
use std::collections::VecDeque;
use std::rc::Rc;

#[derive(Debug, Clone, Copy, PartialEq, Eq)]
enum Asked {
    High,
    Low,
    Write(u8),
    Flush,
    Read,
}

type Log = Rc<RefCell<Vec<Asked>>>;

struct Pin {
    log: Log,
    high_fails: bool,
    low_fails: bool,
}

impl OutputPin for Pin {
    type Error = &'static str;

    fn set_low(&mut self) -> Result<(), Self::Error> {
        self.log.borrow_mut().push(Asked::Low);
        if self.low_fails {
            Err("low")
        } else {
            Ok(())
        }
    }

    fn set_high(&mut self) -> Result<(), Self::Error> {
        self.log.borrow_mut().push(Asked::High);
        if self.high_fails {
            Err("high")
        } else {
            Ok(())
        }
    }
}

/// Answers from its scripts, and with success once a script has run out.
struct Port {
    log: Log,
    writes: VecDeque<nb::Result<(), u32>>,
    reads: VecDeque<nb::Result<u8, u32>>,
    baud: u32,
}

impl Write<u8> for Port {
    type Error = u32;

    fn write(&mut self, word: u8) -> nb::Result<(), Self::Error> {
        self.log.borrow_mut().push(Asked::Write(word));
        self.writes.pop_front().unwrap_or(Ok(()))
    }

    fn flush(&mut self) -> nb::Result<(), Self::Error> {
        self.log.borrow_mut().push(Asked::Flush);
        self.writes.pop_front().unwrap_or(Ok(()))
    }
}

impl Read<u8> for Port {
    type Error = u32;

    fn read(&mut self) -> nb::Result<u8, Self::Error> {
        self.log.borrow_mut().push(Asked::Read);
        self.reads.pop_front().unwrap_or(Ok(0))
    }
}

fn bus() -> (Log, Max485<Port, Pin>) {
    let log: Log = Rc::new(RefCell::new(Vec::new()));
    let port = Port { log: log.clone(), writes: VecDeque::new(), reads: VecDeque::new(), baud: 9600 };
    let pin = Pin { log: log.clone(), high_fails: false, low_fails: false };
    (log, Max485::new(port, pin))
}

fn asked(log: &Log) -> Vec<Asked> {
    log.borrow().clone()
}

fn transmit(adapter: &mut Max485<Port, Pin>, first: Transmit) -> nb::Result<(), Error> {
    let (port, pin) = adapter.peripherals();
    let mut step = first;
    loop {
        step = match step {
            Transmit::SetHigh(held) => held.resume(pin.set_high()),
            Transmit::Write(word, held) => held.resume(port.write(word)),
            Transmit::Flush(held) => held.resume(port.flush()),
            Transmit::SetLow(held) => held.resume(pin.set_low()),
            Transmit::Finish(result) => return result,
        };
    }
}

fn write(adapter: &mut Max485<Port, Pin>, word: u8) -> nb::Result<(), Error> {
    transmit(adapter, max485::transmit::write(word))
}

fn flush(adapter: &mut Max485<Port, Pin>) -> nb::Result<(), Error> {
    transmit(adapter, max485::transmit::flush())
}

fn read(adapter: &mut Max485<Port, Pin>) -> nb::Result<u8, Error> {
    let (port, pin) = adapter.peripherals();
    let mut step = max485::receive::read();
    loop {
        step = match step {
            Receive::SetLow(held) => held.resume(pin.set_low()),
            Receive::Read(held) => held.resume(port.read()),
            Receive::Finish(result) => return result,
        };
    }
}

fn write_str(adapter: &mut Max485<Port, Pin>, text: &str) -> std::fmt::Result {
    let (port, pin) = adapter.peripherals();
    let mut step = max485::text::write_str(text);
    loop {
        step = match step {
            Text::SetHigh(held) => held.resume(pin.set_high()),
            Text::Write(byte, held) => held.resume(port.write(byte)),
            Text::SetLow(held) => held.resume(pin.set_low()),
            Text::Finish(result) => return result,
        };
    }
}

#[test]
fn successful_write_brackets_the_word() {
    let (log, mut adapter) = bus();
    assert_eq!(write(&mut adapter, 0x42), Ok(()));
    assert_eq!(asked(&log), vec![Asked::High, Asked::Write(0x42), Asked::Low]);
}

#[test]
fn every_word_gets_its_own_bracket() {
    let (log, mut adapter) = bus();
    assert_eq!(write(&mut adapter, 1), Ok(()));
    assert_eq!(write(&mut adapter, 2), Ok(()));
    assert_eq!(
        asked(&log),
        vec![
            Asked::High,
            Asked::Write(1),
            Asked::Low,
            Asked::High,
            Asked::Write(2),
            Asked::Low
        ]
    );
}

#[test]
fn successful_flush_is_bracketed() {
    let (log, mut adapter) = bus();
    assert_eq!(flush(&mut adapter), Ok(()));
    assert_eq!(asked(&log), vec![Asked::High, Asked::Flush, Asked::Low]);
}

#[test]
fn read_sets_pin_low_first() {
    let (log, mut adapter) = bus();
    adapter.peripherals().0.reads.push_back(Ok(0x7E));
    assert_eq!(read(&mut adapter), Ok(0x7E));
    assert_eq!(asked(&log), vec![Asked::Low, Asked::Read]);
}

#[test]
fn read_sets_pin_low_whatever_came_before() {
    let (log, mut adapter) = bus();
    adapter.peripherals().0.writes.push_back(Err(nb::Error::WouldBlock));
    adapter.peripherals().0.reads.push_back(Err(nb::Error::WouldBlock));
    adapter.peripherals().0.reads.push_back(Ok(5));
    assert_eq!(write(&mut adapter, 9), Err(nb::Error::WouldBlock));
    assert_eq!(read(&mut adapter), Err(nb::Error::WouldBlock));
    assert_eq!(read(&mut adapter), Ok(5));
    assert_eq!(
        asked(&log),
        vec![
            Asked::High,
            Asked::Write(9),
            Asked::Low,
            Asked::Read,
            Asked::Low,
            Asked::Read
        ]
    );
}

#[test]
fn read_with_stuck_pin_does_not_touch_the_port() {
    let (log, mut adapter) = bus();
    adapter.peripherals().1.low_fails = true;
    assert_eq!(read(&mut adapter), Err(nb::Error::Other(Error::PinError)));
    assert_eq!(asked(&log), vec![Asked::Low]);
}

#[test]
fn failed_read_is_a_serial_error() {
    let (log, mut adapter) = bus();
    adapter.peripherals().0.reads.push_back(Err(nb::Error::Other(13)));
    assert_eq!(read(&mut adapter), Err(nb::Error::Other(Error::SerialError)));
    assert_eq!(asked(&log), vec![Asked::Low, Asked::Read]);
}

#[test]
fn refused_drive_sends_nothing() {
    let (log, mut adapter) = bus();
    adapter.peripherals().1.high_fails = true;
    assert_eq!(write(&mut adapter, 0x42), Err(nb::Error::Other(Error::PinError)));
    assert_eq!(flush(&mut adapter), Err(nb::Error::Other(Error::PinError)));
    assert_eq!(asked(&log), vec![Asked::High, Asked::High]);
}

#[test]
fn busy_port_leaves_pin_high_every_time() {
    let (log, mut adapter) = bus();
    for _ in 0..3 {
        adapter.peripherals().0.writes.push_back(Err(nb::Error::WouldBlock));
    }
    for _ in 0..3 {
        assert_eq!(write(&mut adapter, 7), Err(nb::Error::WouldBlock));
    }
    assert_eq!(write(&mut adapter, 7), Ok(()));
    assert_eq!(
        asked(&log),
        vec![
            Asked::High,
            Asked::Write(7),
            Asked::High,
            Asked::Write(7),
            Asked::High,
            Asked::Write(7),
            Asked::High,
            Asked::Write(7),
            Asked::Low
        ]
    );
}

#[test]
fn busy_flush_leaves_pin_high() {
    let (log, mut adapter) = bus();
    adapter.peripherals().0.writes.push_back(Err(nb::Error::WouldBlock));
    assert_eq!(flush(&mut adapter), Err(nb::Error::WouldBlock));
    assert_eq!(asked(&log), vec![Asked::High, Asked::Flush]);
}

#[test]
fn failed_port_releases_the_bus_every_time() {
    let (log, mut adapter) = bus();
    for _ in 0..2 {
        adapter.peripherals().0.writes.push_back(Err(nb::Error::Other(4)));
    }
    for _ in 0..2 {
        assert_eq!(write(&mut adapter, 7), Err(nb::Error::Other(Error::SerialError)));
    }
    assert_eq!(
        asked(&log),
        vec![
            Asked::High,
            Asked::Write(7),
            Asked::Low,
            Asked::High,
            Asked::Write(7),
            Asked::Low
        ]
    );
}

#[test]
fn failed_flush_releases_the_bus() {
    let (log, mut adapter) = bus();
    adapter.peripherals().0.writes.push_back(Err(nb::Error::Other(4)));
    assert_eq!(flush(&mut adapter), Err(nb::Error::Other(Error::SerialError)));
    assert_eq!(asked(&log), vec![Asked::High, Asked::Flush, Asked::Low]);
}

#[test]
fn stuck_pin_after_sent_word_is_a_pin_error() {
    let (log, mut adapter) = bus();
    adapter.peripherals().1.low_fails = true;
    assert_eq!(write(&mut adapter, 0x42), Err(nb::Error::Other(Error::PinError)));
    assert_eq!(asked(&log), vec![Asked::High, Asked::Write(0x42), Asked::Low]);
}

#[test]
fn stuck_pin_after_failed_port_is_a_pin_error() {
    let (log, mut adapter) = bus();
    adapter.peripherals().1.low_fails = true;
    adapter.peripherals().0.writes.push_back(Err(nb::Error::Other(4)));
    assert_eq!(write(&mut adapter, 0x42), Err(nb::Error::Other(Error::PinError)));
    assert_eq!(asked(&log), vec![Asked::High, Asked::Write(0x42), Asked::Low]);
}

#[test]
fn rebuilt_adapter_behaves_like_a_fresh_one() {
    let (fresh_log, mut fresh) = bus();
    let (log, used) = bus();
    let (port, pin) = used.take_peripherals();
    let mut rebuilt = Max485::new(port, pin);
    assert_eq!(write(&mut rebuilt, 0x10), write(&mut fresh, 0x10));
    assert_eq!(read(&mut rebuilt), read(&mut fresh));
    assert_eq!(write_str(&mut rebuilt, "ok"), write_str(&mut fresh, "ok"));
    assert_eq!(asked(&log), asked(&fresh_log));
}

#[test]
fn released_resources_are_the_ones_taken() {
    let (log, adapter) = bus();
    let (port, pin) = adapter.take_peripherals();
    assert_eq!(port.baud, 9600);
    assert!(!pin.high_fails && !pin.low_fails);
    assert_eq!(asked(&log), vec![]);
}

#[test]
fn release_leaves_pin_as_it_was() {
    let (log, mut adapter) = bus();
    adapter.peripherals().0.writes.push_back(Err(nb::Error::WouldBlock));
    assert_eq!(write(&mut adapter, 1), Err(nb::Error::WouldBlock));
    let _ = adapter.take_peripherals();
    assert_eq!(asked(&log), vec![Asked::High, Asked::Write(1)]);
}

#[test]
fn reconfigured_port_is_changed_in_place() {
    let (log, mut adapter) = bus();
    adapter.reconfig_port(|port: &mut Port| port.baud = 115_200);
    assert_eq!(asked(&log), vec![]);
    let (port, _) = adapter.take_peripherals();
    assert_eq!(port.baud, 115_200);
}

#[test]
fn empty_text_is_one_bracket_without_bytes() {
    let (log, mut adapter) = bus();
    assert_eq!(write_str(&mut adapter, ""), Ok(()));
    assert_eq!(asked(&log), vec![Asked::High, Asked::Low]);
}

#[test]
fn text_is_one_bracket_around_all_bytes() {
    let (log, mut adapter) = bus();
    assert_eq!(write_str(&mut adapter, "AB"), Ok(()));
    assert_eq!(
        asked(&log),
        vec![Asked::High, Asked::Write(b'A'), Asked::Write(b'B'), Asked::Low]
    );
}

#[test]
fn busy_port_is_polled_until_it_takes_the_byte() {
    for retries in [0usize, 1, 5, 100] {
        let (log, mut adapter) = bus();
        for _ in 0..retries {
            adapter.peripherals().0.writes.push_back(Err(nb::Error::WouldBlock));
        }
        assert_eq!(write_str(&mut adapter, "x"), Ok(()));
        let mut expected = vec![Asked::High];
        for _ in 0..retries + 1 {
            expected.push(Asked::Write(b'x'));
        }
        expected.push(Asked::Low);
        assert_eq!(asked(&log), expected);
        assert!(adapter.peripherals().0.writes.is_empty());
    }
}

#[test]
fn busy_port_in_mid_text_repeats_only_that_byte() {
    let (log, mut adapter) = bus();
    adapter.peripherals().0.writes.push_back(Ok(()));
    adapter.peripherals().0.writes.push_back(Err(nb::Error::WouldBlock));
    adapter.peripherals().0.writes.push_back(Err(nb::Error::WouldBlock));
    assert_eq!(write_str(&mut adapter, "hi!"), Ok(()));
    assert_eq!(
        asked(&log),
        vec![
            Asked::High,
            Asked::Write(b'h'),
            Asked::Write(b'i'),
            Asked::Write(b'i'),
            Asked::Write(b'i'),
            Asked::Write(b'!'),
            Asked::Low
        ]
    );
}

#[test]
fn text_with_refused_drive_sends_nothing() {
    let (log, mut adapter) = bus();
    adapter.peripherals().1.high_fails = true;
    assert_eq!(write_str(&mut adapter, "AB"), Err(std::fmt::Error));
    assert_eq!(asked(&log), vec![Asked::High]);
}

#[test]
fn text_with_failed_port_stops_and_releases_the_bus() {
    let (log, mut adapter) = bus();
    adapter.peripherals().0.writes.push_back(Ok(()));
    adapter.peripherals().0.writes.push_back(Err(nb::Error::Other(4)));
    assert_eq!(write_str(&mut adapter, "ABC"), Err(std::fmt::Error));
    assert_eq!(
        asked(&log),
        vec![Asked::High, Asked::Write(b'A'), Asked::Write(b'B'), Asked::Low]
    );
}

#[test]
fn text_with_stuck_pin_fails_after_all_bytes() {
    let (log, mut adapter) = bus();
    adapter.peripherals().1.low_fails = true;
    assert_eq!(write_str(&mut adapter, "AB"), Err(std::fmt::Error));
    assert_eq!(
        asked(&log),
        vec![Asked::High, Asked::Write(b'A'), Asked::Write(b'B'), Asked::Low]
    );
}

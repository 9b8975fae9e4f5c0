//! The adapter: a serial port and a direction pin, owned together.

use vstd::prelude::*;

verus! {

/// A serial port behind an RS-485 transceiver, with the pin that selects the
/// transceiver's direction. The adapter owns both for as long as it lives and
/// keeps nothing else.
pub struct Max485<RIDO, REDE> {
    serial: RIDO,
    pin: REDE,
}

impl<RIDO, REDE> View for Max485<RIDO, REDE> {
    type V = (RIDO, REDE);

    /// The serial port and the pin that the adapter holds.
    closed spec fn view(&self) -> (RIDO, REDE) {
        (self.serial, self.pin)
    }
}

impl<RIDO, REDE> Max485<RIDO, REDE> {
    /// Takes the serial port and the pin as they are.
    pub fn new(serial: RIDO, pin: REDE) -> (adapter: Self)
        ensures
            adapter@ == (serial, pin),
    {
        Self { serial, pin }
    }

    /// Gives the serial port and the pin back, as the last operation left
    /// them.
    pub fn take_peripherals(self) -> (parts: (RIDO, REDE))
        ensures
            parts == self@,
    {
        (self.serial, self.pin)
    }

    /// Lets `config` change the serial port in place. The pin is not touched,
    /// and what becomes of the port is up to `config` alone.
    pub fn reconfig_port<F>(&mut self, config: F) where F: Fn(&mut RIDO)
        requires
            forall|port: &mut RIDO| *port == old(self)@.0 ==> call_requires(config, (port,)),
        ensures
            final(self)@.1 == old(self)@.1,
            exists|port: &mut RIDO|
                *port == old(self)@.0 && *final(port) == final(self)@.0 && call_ensures(
                    config,
                    (port,),
                    (),
                ),
    {
        config(&mut self.serial);
    }

    /// Lends out the serial port and the pin, so that the calls which an
    /// operation names can be made on them.
    pub fn peripherals(&mut self) -> (parts: (&mut RIDO, &mut REDE))
        ensures
            (*parts.0, *parts.1) == old(self)@,
            final(self)@ == (*final(parts.0), *final(parts.1)),
    {
        (&mut self.serial, &mut self.pin)
    }
}

/// An adapter is the serial port and the pin that it holds, and nothing
/// besides: one built anew from what another has given back cannot be told
/// from that other.
pub proof fn lemma_no_hidden_state<RIDO, REDE>(
    one: Max485<RIDO, REDE>,
    other: Max485<RIDO, REDE>,
)
    requires
        one@ == other@,
    ensures
        one == other,
{
}

} // verus!

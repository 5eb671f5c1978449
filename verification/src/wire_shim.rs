//! Arduino `Wire`-compatible I2C bus shared by the T-Deck keyboard
//! co-processor and the GT911 touch controller.

use vstd::prelude::*;

use crate::gt911::{
    register_byte_spec, fail_status_spec, readable_len, window_address, Gt911Controller, Gt911State,
    GT911_I2C_ADDRESS, GT911_STATUS_REGISTER,
};
use crate::i2c_keyboard::{power_on_keyboard, write_transaction_spec, I2cKeyboardBus, KeyboardState, KEYBOARD_I2C_ADDRESS};

verus! {

pub const KEYBOARD_I2C_CLOCK_HZ: u32 = 100_000;
pub const FAST_I2C_CLOCK_HZ: u32 = 400_000;

pub struct WireState {
    pub keyboard: KeyboardState,
    pub gt911: Gt911State,
    pub begun: bool,
    pub clock_hz: u32,
    pub transmit_address: Option<u8>,
    pub transmit_buffer: Seq<u8>,
    pub gt911_register: u16,
    pub read_buffer: Seq<u8>,
    pub read_position: nat,
    pub peripherals_powered: bool,
    pub sda_stuck: bool,
}

/// Powered, started, not wedged, and clocked at a supported rate.
pub open spec fn bus_ready_spec(s: WireState) -> bool {
    s.peripherals_powered && s.begun && !s.sda_stuck
        && (s.clock_hz == KEYBOARD_I2C_CLOCK_HZ || s.clock_hz == FAST_I2C_CLOCK_HZ)
}

pub open spec fn fresh_wire(keyboard: KeyboardState, gt911: Gt911State) -> WireState {
    WireState {
        keyboard,
        gt911,
        begun: false,
        clock_hz: KEYBOARD_I2C_CLOCK_HZ,
        transmit_address: None,
        transmit_buffer: Seq::empty(),
        gt911_register: 0,
        read_buffer: Seq::empty(),
        read_position: 0,
        peripherals_powered: true,
        sda_stuck: false,
    }
}

pub open spec fn cleared_reads(s: WireState) -> WireState {
    WireState { read_buffer: Seq::empty(), read_position: 0, ..s }
}

/// Outcome `(state, status)` of [`WireShim::end_transmission`]: 0 ACK,
/// 2 NACK on address, 4 other error.
pub open spec fn end_transmission_spec(s: WireState) -> (WireState, u8) {
    match s.transmit_address {
        None => (s, 4),
        Some(address) => {
            let s1 = WireState { transmit_address: None, ..s };
            if !s1.peripherals_powered || s1.sda_stuck {
                (cleared_reads(WireState { transmit_buffer: Seq::empty(), ..s1 }), 2)
            } else if !s1.begun {
                (WireState { transmit_buffer: Seq::empty(), ..s1 }, 4)
            } else {
                let bytes = s1.transmit_buffer;
                let s2 = WireState { transmit_buffer: Seq::empty(), ..s1 };
                if address == KEYBOARD_I2C_ADDRESS {
                    (WireState { keyboard: write_transaction_spec(s2.keyboard, bytes), ..s2 }, 0)
                } else if address == GT911_I2C_ADDRESS {
                    if bytes.len() == 0 {
                        (s2, 0)
                    } else if bytes.len() < 2 {
                        (s2, 4)
                    } else {
                        let register = (bytes[0] as u16 * 256 + bytes[1] as u16) as u16;
                        let gt = if bytes.len() > 2 && bytes[2] == 0 && register == GT911_STATUS_REGISTER {
                            Gt911State { frame_ready: false, int_asserted: false, ..s2.gt911 }
                        } else {
                            s2.gt911
                        };
                        (WireState { gt911_register: register, gt911: gt, ..s2 }, 0)
                    }
                } else {
                    (s2, 2)
                }
            }
        },
    }
}

/// Arduino `Wire`-compatible bus shared by the T-Deck keyboard and GT911.
pub struct WireShim {
    keyboard_bus: I2cKeyboardBus,
    gt911: Gt911Controller,
    begun: bool,
    clock_hz: u32,
    transmit_address: Option<u8>,
    transmit_buffer: Vec<u8>,
    gt911_register: u16,
    read_buffer: Vec<u8>,
    read_position: usize,
    peripherals_powered: bool,
    sda_stuck: bool,
}

impl View for WireShim {
    type V = WireState;

    closed spec fn view(&self) -> WireState {
        WireState {
            keyboard: self.keyboard_bus@,
            gt911: self.gt911@,
            begun: self.begun,
            clock_hz: self.clock_hz,
            transmit_address: self.transmit_address,
            transmit_buffer: self.transmit_buffer@,
            gt911_register: self.gt911_register,
            read_buffer: self.read_buffer@,
            read_position: self.read_position as nat,
            peripherals_powered: self.peripherals_powered,
            sda_stuck: self.sda_stuck,
        }
    }
}

impl WireShim {
    /// The attached touch controller is in its valid state space and the
    /// read cursor lies within the at most 255 bytes last requested.
    pub open spec fn wf(&self) -> bool {
        &&& crate::gt911::state_invariant(self@.gt911)
        &&& self@.read_position <= self@.read_buffer.len()
        &&& self@.read_buffer.len() <= 255
    }

    pub fn new() -> (w: Self)
        ensures
            w.wf(),
            w@ == fresh_wire(power_on_keyboard(), crate::gt911::initial_state()),
    {
        Self::with_devices(I2cKeyboardBus::new(), Gt911Controller::new())
    }

    pub fn with_keyboard(keyboard_bus: I2cKeyboardBus) -> (w: Self)
        ensures
            w.wf(),
            w@ == fresh_wire(keyboard_bus@, crate::gt911::initial_state()),
    {
        Self::with_devices(keyboard_bus, Gt911Controller::new())
    }

    pub fn with_devices(keyboard_bus: I2cKeyboardBus, gt911: Gt911Controller) -> (w: Self)
        requires
            gt911.wf(),
        ensures
            w.wf(),
            w@ == fresh_wire(keyboard_bus@, gt911@),
    {
        let w = WireShim {
            keyboard_bus,
            gt911,
            begun: false,
            clock_hz: KEYBOARD_I2C_CLOCK_HZ,
            transmit_address: None,
            transmit_buffer: Vec::new(),
            gt911_register: 0,
            read_buffer: Vec::new(),
            read_position: 0,
            peripherals_powered: true,
            sda_stuck: false,
        };
        assert(w@ =~= fresh_wire(keyboard_bus@, gt911@));
        w
    }

    pub fn begin(&mut self) -> (r: bool)
        ensures
            r,
            final(self)@ == (WireState { begun: true, ..old(self)@ }),
    {
        self.begun = true;
        true
    }

    pub fn set_clock(&mut self, clock_hz: u32)
        ensures
            final(self)@ == (WireState { clock_hz, ..old(self)@ }),
    {
        self.clock_hz = clock_hz;
    }

    pub fn clock_hz(&self) -> (r: u32)
        ensures
            r == self@.clock_hz,
    {
        self.clock_hz
    }

    /// Attach another keyboard co-processor; pending read data is dropped.
    pub fn set_keyboard(&mut self, keyboard_bus: I2cKeyboardBus)
        requires
            old(self).wf(),
        ensures
            final(self).wf(),
            final(self)@ == cleared_reads(WireState { keyboard: keyboard_bus@, ..old(self)@ }),
    {
        self.keyboard_bus = keyboard_bus;
        self.clear_read_buffer();
    }

    pub fn keyboard(&self) -> (k: &I2cKeyboardBus)
        ensures
            k@ == self@.keyboard,
    {
        &self.keyboard_bus
    }

    pub fn keyboard_mut(&mut self) -> (k: &mut I2cKeyboardBus)
        ensures
            k@ == old(self)@.keyboard,
            final(self)@ == (WireState { keyboard: final(k)@, ..old(self)@ }),
    {
        &mut self.keyboard_bus
    }

    pub fn gt911(&self) -> (g: &Gt911Controller)
        ensures
            g@ == self@.gt911,
    {
        &self.gt911
    }

    pub fn gt911_mut(&mut self) -> (g: &mut Gt911Controller)
        ensures
            g@ == old(self)@.gt911,
            final(self)@ == (WireState { gt911: final(g)@, ..old(self)@ }),
    {
        &mut self.gt911
    }

    /// Probe one address without changing the current transaction state.
    pub fn probe_address(&self, address: u8) -> (r: bool)
        ensures
            r == (bus_ready_spec(self@) && (address == KEYBOARD_I2C_ADDRESS || address == GT911_I2C_ADDRESS)),
    {
        self.bus_ready() && (address == KEYBOARD_I2C_ADDRESS || address == GT911_I2C_ADDRESS)
    }

    /// `(SDA, SCL)`: both externally pulled-up lines idle HIGH unless SDA is
    /// held low by a wedged peripheral.
    pub fn idle_levels(&self) -> (r: (u8, u8))
        ensures
            r == (if self@.sda_stuck { (0u8, 1u8) } else { (1u8, 1u8) }),
    {
        (if self.sda_stuck { 0 } else { 1 }, 1)
    }

    /// Clock SCL nine times, as the firmware recovery path does: 0 when SDA
    /// was already free, 1 when the pulses released it, 2 when an unpowered
    /// peripheral rail leaves it stuck.
    pub fn clock_out_recovery(&mut self) -> (r: u8)
        ensures
            r == (if !old(self)@.sda_stuck { 0u8 } else if !old(self)@.peripherals_powered { 2u8 } else { 1u8 }),
            final(self)@ == (WireState { sda_stuck: old(self)@.sda_stuck && r == 2, ..old(self)@ }),
    {
        if !self.sda_stuck {
            return 0;
        }
        if !self.peripherals_powered {
            return 2;
        }
        self.sda_stuck = false;
        1
    }

    /// Emit an I2C STOP and discard any incomplete transaction state.
    pub fn emit_stop(&mut self)
        requires
            old(self).wf(),
        ensures
            final(self).wf(),
            final(self)@ == cleared_reads(
                WireState { transmit_address: None, transmit_buffer: Seq::empty(), ..old(self)@ },
            ),
    {
        self.transmit_address = None;
        self.transmit_buffer.clear();
        self.clear_read_buffer();
    }

    pub fn set_sda_stuck(&mut self, stuck: bool)
        requires
            old(self).wf(),
        ensures
            final(self).wf(),
            final(self)@ == if stuck {
                cleared_reads(
                    WireState { sda_stuck: true, transmit_address: None, transmit_buffer: Seq::empty(), ..old(self)@ },
                )
            } else {
                WireState { sda_stuck: false, ..old(self)@ }
            },
    {
        self.sda_stuck = stuck;
        if stuck {
            self.emit_stop();
        }
    }

    /// Report the state of the peripheral power rail (the board's GPIO10).
    /// While it is off every transaction is NACKed.
    pub fn set_peripheral_power_check(&mut self, powered: bool)
        ensures
            final(self)@ == (WireState { peripherals_powered: powered, ..old(self)@ }),
    {
        self.peripherals_powered = powered;
    }

    pub fn begin_transmission(&mut self, address: u8)
        ensures
            final(self)@ == (WireState {
                transmit_address: Some(address),
                transmit_buffer: Seq::empty(),
                ..old(self)@
            }),
    {
        self.transmit_address = Some(address);
        self.transmit_buffer.clear();
    }

    pub fn write_byte(&mut self, byte: u8) -> (n: usize)
        ensures
            ({
                let accepted = old(self)@.transmit_address is Some && old(self)@.peripherals_powered
                    && !old(self)@.sda_stuck;
                &&& n == (if accepted { 1usize } else { 0usize })
                &&& final(self)@ == if accepted {
                    WireState { transmit_buffer: old(self)@.transmit_buffer.push(byte), ..old(self)@ }
                } else {
                    old(self)@
                }
            }),
    {
        if self.transmit_address.is_none() || !self.peripherals_powered || self.sda_stuck {
            return 0;
        }
        self.transmit_buffer.push(byte);
        1
    }

    pub fn end_transmission(&mut self) -> (status: u8)
        requires
            old(self).wf(),
        ensures
            final(self).wf(),
            (final(self)@, status) == end_transmission_spec(old(self)@),
    {
        let address = match self.transmit_address {
            Some(a) => a,
            None => return 4,
        };
        self.transmit_address = None;
        if !self.peripherals_powered || self.sda_stuck {
            self.transmit_buffer.clear();
            self.clear_read_buffer();
            return 2;
        }
        if !self.begun {
            self.transmit_buffer.clear();
            return 4;
        }
        let mut bytes: Vec<u8> = Vec::new();
        std::mem::swap(&mut bytes, &mut self.transmit_buffer);
        if address == KEYBOARD_I2C_ADDRESS {
            self.keyboard_bus.write_transaction(bytes.as_slice());
        } else if address == GT911_I2C_ADDRESS {
            // An empty write is the address-only ACK used by an I2C scan.
            if bytes.len() == 0 {
                return 0;
            }
            if bytes.len() < 2 {
                return 4;
            }
            let register: u16 = bytes[0] as u16 * 256 + bytes[1] as u16;
            self.gt911_register = register;
            if bytes.len() > 2 {
                let data = vstd::slice::slice_subrange(bytes.as_slice(), 2, bytes.len());
                self.gt911.i2c_write(register, data);
            }
        } else {
            return 2;
        }
        0
    }

    pub fn request_from(&mut self, address: u8, count: u8) -> (n: u8)
        requires
            old(self).wf(),
        ensures
            final(self).wf(),
            ({
                let s = cleared_reads(old(self)@);
                if !bus_ready_spec(old(self)@) || count == 0 {
                    n == 0 && final(self)@ == s
                } else if address == KEYBOARD_I2C_ADDRESS {
                    if old(self)@.clock_hz > KEYBOARD_I2C_CLOCK_HZ {
                        // The C3 only answers reliably at 100 kHz; faster reads time out.
                        n == 0 && final(self)@ == s
                    } else {
                        let k = s.keyboard;
                        let byte: u8 = if k.key_mode_active && k.queue.len() > 0 { k.queue[0] } else { 0 };
                        let k2 = if k.key_mode_active && k.queue.len() > 0 {
                            KeyboardState { queue: k.queue.drop_first(), ..k }
                        } else {
                            k
                        };
                        n == 1 && final(self)@ == (WireState { keyboard: k2, read_buffer: seq![byte], ..s })
                    }
                } else if address == GT911_I2C_ADDRESS {
                    let (failed, fails) = fail_status_spec(s.gt911);
                    let reg = s.gt911_register;
                    let g = if reg == GT911_STATUS_REGISTER { failed } else { s.gt911 };
                    if (reg == GT911_STATUS_REGISTER && fails) || readable_len(reg, count as nat) != count {
                        n == 0 && final(self)@ == (WireState { gt911: g, ..s })
                    } else {
                        &&& n == count
                        &&& final(self)@.gt911 == g
                        &&& final(self)@.read_buffer.len() == count
                        &&& final(self)@ == (WireState { gt911: g, read_buffer: final(self)@.read_buffer, ..s })
                        &&& forall|i: int| 0 <= i < count ==> #[trigger] final(self)@.read_buffer[i]
                            == register_byte_spec(g, window_address(reg, i))
                    }
                } else {
                    n == 0 && final(self)@ == s
                }
            }),
    {
        self.clear_read_buffer();
        if !self.bus_ready() || count == 0 {
            return 0;
        }
        if address == KEYBOARD_I2C_ADDRESS {
            if self.clock_hz > KEYBOARD_I2C_CLOCK_HZ {
                return 0;
            }
            let byte = self.keyboard_bus.read_key_byte();
            self.read_buffer.push(byte);
            assert(self.read_buffer@ =~= seq![byte]);
            1
        } else if address == GT911_I2C_ADDRESS {
            let mut buffer: Vec<u8> = vec![0u8; count as usize];
            let read = self.gt911.i2c_read(self.gt911_register, buffer.as_mut_slice());
            if read != count as usize {
                return 0;
            }
            self.read_buffer = buffer;
            count
        } else {
            0
        }
    }

    /// The next received byte, or -1 when nothing is left or the rail is off.
    pub fn read(&mut self) -> (r: i32)
        requires
            old(self).wf(),
        ensures
            final(self).wf(),
            if old(self)@.peripherals_powered && old(self)@.read_position < old(self)@.read_buffer.len() {
                &&& r == old(self)@.read_buffer[old(self)@.read_position as int] as i32
                &&& final(self)@ == (WireState { read_position: old(self)@.read_position + 1, ..old(self)@ })
            } else {
                r == -1 && final(self)@ == old(self)@
            },
    {
        if !self.peripherals_powered {
            return -1;
        }
        if self.read_position < self.read_buffer.len() {
            let byte = self.read_buffer[self.read_position];
            self.read_position = self.read_position + 1;
            byte as i32
        } else {
            -1
        }
    }

    pub fn available(&self) -> (r: i32)
        requires
            self.wf(),
        ensures
            r == (if self@.peripherals_powered { self@.read_buffer.len() - self@.read_position } else { 0 }),
    {
        if !self.peripherals_powered {
            return 0;
        }
        (self.read_buffer.len() - self.read_position) as i32
    }

    pub fn peripherals_powered(&self) -> (r: bool)
        ensures
            r == self@.peripherals_powered,
    {
        self.peripherals_powered
    }

    fn clear_read_buffer(&mut self)
        requires
            old(self).wf(),
        ensures
            final(self).wf(),
            final(self)@ == cleared_reads(old(self)@),
    {
        self.read_buffer.clear();
        self.read_position = 0;
    }

    fn bus_ready(&self) -> (r: bool)
        ensures
            r == bus_ready_spec(self@),
    {
        self.peripherals_powered && self.begun && !self.sda_stuck && (self.clock_hz == KEYBOARD_I2C_CLOCK_HZ
            || self.clock_hz == FAST_I2C_CLOCK_HZ)
    }
}

impl Default for WireShim {
    fn default() -> (w: Self)
        ensures
            w.wf(),
            w@ == fresh_wire(power_on_keyboard(), crate::gt911::initial_state()),
    {
        Self::new()
    }
}


} // verus!

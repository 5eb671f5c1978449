//! The ESP32-C3 keyboard co-processor at I2C address `0x55`.
//!
//! The real protocol is polled: each I2C read returns one key byte, with
//! `0x00` meaning that no key is waiting.

use std::collections::VecDeque;
use vstd::prelude::*;

verus! {

pub const KEYBOARD_I2C_ADDRESS: u8 = 0x55;
pub const KEYBOARD_BRIGHTNESS_COMMAND: u8 = 0x01;
pub const KEYBOARD_KEY_MODE_COMMAND: u8 = 0x04;

pub struct KeyboardState {
    /// Key bytes waiting to be polled, oldest first.
    pub queue: Seq<u8>,
    /// Whether key mode (`CMD 0x04`) has been sent.
    pub key_mode_active: bool,
    /// Last command byte written.
    pub last_command: u8,
    /// Backlight brightness (0 is off, 255 is maximum).
    pub backlight: u8,
    /// Whether the C3's brightness survives a host-side handle recreation.
    pub cross_reset_persist: bool,
    /// The brightness the C3 presents to the next host-side handle.
    pub retained_backlight: u8,
}

/// Simulates the ESP32-C3 keyboard co-processor at I2C address `0x55`.
#[derive(Debug)]
pub struct I2cKeyboardBus {
    key_queue: VecDeque<u8>,
    key_mode_active: bool,
    last_command: u8,
    backlight: u8,
    /// Whether C3 backlight state survives an S3-side handle recreation.
    pub cross_reset_persist: bool,
    retained_backlight: u8,
}

impl View for I2cKeyboardBus {
    type V = KeyboardState;

    closed spec fn view(&self) -> KeyboardState {
        KeyboardState {
            queue: self.key_queue@,
            key_mode_active: self.key_mode_active,
            last_command: self.last_command,
            backlight: self.backlight,
            cross_reset_persist: self.cross_reset_persist,
            retained_backlight: self.retained_backlight,
        }
    }
}

/// Effect of one complete host write transaction.
pub open spec fn write_transaction_spec(s: KeyboardState, bytes: Seq<u8>) -> KeyboardState {
    if bytes.len() == 0 {
        s
    } else if bytes[0] == KEYBOARD_BRIGHTNESS_COMMAND && bytes.len() >= 2 {
        KeyboardState {
            last_command: bytes[0],
            backlight: bytes[1],
            retained_backlight: if s.cross_reset_persist { bytes[1] } else { s.retained_backlight },
            ..s
        }
    } else if bytes[0] == KEYBOARD_KEY_MODE_COMMAND {
        KeyboardState { last_command: bytes[0], key_mode_active: true, ..s }
    } else {
        KeyboardState { last_command: bytes[0], ..s }
    }
}

/// A powered-on co-processor: dark backlight, idle, key mode off, with
/// brightness retention across host recreation enabled.
pub open spec fn power_on_keyboard() -> KeyboardState {
    KeyboardState {
        queue: Seq::empty(),
        key_mode_active: false,
        last_command: 0,
        backlight: 0,
        cross_reset_persist: true,
        retained_backlight: 0,
    }
}

impl I2cKeyboardBus {
    /// A powered-on co-processor: dark backlight, idle, key mode off, with
    /// brightness retention across host recreation enabled.
    pub fn new() -> (k: Self)
        ensures
            k@ == power_on_keyboard(),
    {
        let k = I2cKeyboardBus {
            key_queue: VecDeque::new(),
            key_mode_active: false,
            last_command: 0,
            backlight: 0,
            cross_reset_persist: true,
            retained_backlight: 0,
        };
        assert(k@.queue =~= Seq::<u8>::empty());
        k
    }

    /// The host-side handle recreated after an S3 restart: the C3 itself
    /// keeps running, so it presents the brightness it retained.
    pub fn recreate(&self) -> (k: Self)
        ensures
            k@ == (KeyboardState {
                queue: Seq::empty(),
                key_mode_active: false,
                last_command: 0,
                backlight: self@.retained_backlight,
                cross_reset_persist: true,
                retained_backlight: self@.retained_backlight,
            }),
    {
        let k = I2cKeyboardBus {
            key_queue: VecDeque::new(),
            key_mode_active: false,
            last_command: 0,
            backlight: self.retained_backlight,
            cross_reset_persist: true,
            retained_backlight: self.retained_backlight,
        };
        assert(k@.queue =~= Seq::<u8>::empty());
        k
    }

    /// Queue the exact byte the ESP32-C3 returns for a key press.
    pub fn inject_key_byte(&mut self, key_byte: u8)
        ensures
            final(self)@ == (KeyboardState { queue: old(self)@.queue.push(key_byte), ..old(self)@ }),
    {
        self.key_queue.push_back(key_byte);
    }

    /// Record and apply a command byte written to the co-processor.
    pub fn write_command(&mut self, byte: u8)
        ensures
            final(self)@ == (KeyboardState {
                last_command: byte,
                key_mode_active: old(self)@.key_mode_active || byte == KEYBOARD_KEY_MODE_COMMAND,
                ..old(self)@
            }),
    {
        self.last_command = byte;
        if byte == KEYBOARD_KEY_MODE_COMMAND {
            self.key_mode_active = true;
        }
    }

    /// Apply one complete host I2C write transaction.
    pub fn write_transaction(&mut self, bytes: &[u8])
        ensures
            final(self)@ == write_transaction_spec(old(self)@, bytes@),
    {
        if bytes.len() == 0 {
            return;
        }
        let command = bytes[0];
        self.last_command = command;
        if command == KEYBOARD_BRIGHTNESS_COMMAND && bytes.len() >= 2 {
            let brightness = bytes[1];
            self.backlight = brightness;
            if self.cross_reset_persist {
                self.retained_backlight = brightness;
            }
        } else if command == KEYBOARD_KEY_MODE_COMMAND {
            self.key_mode_active = true;
        }
    }

    pub fn backlight(&self) -> (r: u8)
        ensures
            r == self@.backlight,
    {
        self.backlight
    }

    pub fn key_mode_active(&self) -> (r: bool)
        ensures
            r == self@.key_mode_active,
    {
        self.key_mode_active
    }

    pub fn last_command(&self) -> (r: u8)
        ensures
            r == self@.last_command,
    {
        self.last_command
    }

    /// Configure whether this C3's brightness survives future host
    /// recreations. A non-persistent device presents power-on darkness after
    /// the next recreation, whatever it retained before.
    pub fn set_cross_reset_persist(&mut self, persist: bool)
        ensures
            final(self)@ == (KeyboardState {
                cross_reset_persist: persist,
                retained_backlight: if persist { old(self)@.backlight } else { 0 },
                ..old(self)@
            }),
    {
        self.cross_reset_persist = persist;
        if persist {
            self.retained_backlight = self.backlight;
        } else {
            self.retained_backlight = 0;
        }
    }

    /// One queued key byte, or `0x00` when key mode is inactive or idle.
    pub fn read_key_byte(&mut self) -> (b: u8)
        ensures
            if old(self)@.key_mode_active && old(self)@.queue.len() > 0 {
                &&& b == old(self)@.queue[0]
                &&& final(self)@ == (KeyboardState { queue: old(self)@.queue.drop_first(), ..old(self)@ })
            } else {
                &&& b == 0
                &&& final(self)@ == old(self)@
            },
    {
        if !self.key_mode_active {
            return 0x00;
        }
        match self.key_queue.pop_front() {
            Some(b) => {
                assert(self.key_queue@ =~= old(self)@.queue.drop_first());
                b
            },
            None => 0x00,
        }
    }

    /// How many key bytes the next poll can expose: at most one.
    pub fn available(&self) -> (n: usize)
        ensures
            n == (if self@.key_mode_active && self@.queue.len() > 0 { 1usize } else { 0usize }),
    {
        if !self.key_mode_active {
            return 0;
        }
        if self.key_queue.len() > 0 {
            1
        } else {
            0
        }
    }

    /// Host-side reset: the queue and key mode are lost; the backlight stays
    /// lit only when the C3 retains it across resets.
    pub fn reset(&mut self)
        ensures
            final(self)@ == (KeyboardState {
                queue: Seq::empty(),
                key_mode_active: false,
                last_command: 0,
                backlight: if old(self)@.cross_reset_persist { old(self)@.backlight } else { 0 },
                ..old(self)@
            }),
    {
        self.key_queue.clear();
        self.key_mode_active = false;
        self.last_command = 0;
        if !self.cross_reset_persist {
            self.backlight = 0;
        }
    }
}

impl Default for I2cKeyboardBus {
    fn default() -> (k: Self)
        ensures
            k@ == power_on_keyboard(),
    {
        Self::new()
    }
}

/// Brightness written while retention is on survives a host-side
/// recreation; once retention is switched off, the next handle is dark.
pub proof fn law_backlight_retention(s: KeyboardState, brightness: u8)
    requires
        s.cross_reset_persist,
    ensures
        write_transaction_spec(s, seq![KEYBOARD_BRIGHTNESS_COMMAND, brightness]).retained_backlight == brightness,
        write_transaction_spec(s, seq![KEYBOARD_BRIGHTNESS_COMMAND, brightness]).backlight == brightness,
{
}

} // verus!

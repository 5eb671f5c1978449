use mycelium::gt911::{GT911_CONFIG_X_REGISTER, GT911_I2C_ADDRESS, GT911_PRODUCT_ID_REGISTER, GT911_STATUS_REGISTER};
use mycelium::i2c_keyboard::{I2cKeyboardBus, KEYBOARD_BRIGHTNESS_COMMAND, KEYBOARD_I2C_ADDRESS, KEYBOARD_KEY_MODE_COMMAND};
use mycelium::wire_shim::{WireShim, FAST_I2C_CLOCK_HZ, KEYBOARD_I2C_CLOCK_HZ};

#[test]
fn key_mode_command_activates_polled_key_bytes() {
    let mut bus = I2cKeyboardBus::new();
    bus.inject_key_byte(b'q');

    assert_eq!(bus.available(), 0);
    assert_eq!(bus.read_key_byte(), 0x00);

    bus.write_command(KEYBOARD_KEY_MODE_COMMAND);

    assert!(bus.key_mode_active());
    assert_eq!(bus.last_command(), 0x04);
    assert_eq!(bus.available(), 1);
    assert_eq!(bus.read_key_byte(), b'q');
}

#[test]
fn injected_key_bytes_are_returned_fifo_one_per_poll() {
    let mut bus = I2cKeyboardBus::new();
    bus.write_command(KEYBOARD_KEY_MODE_COMMAND);
    bus.inject_key_byte(b'q');
    bus.inject_key_byte(b'W');
    bus.inject_key_byte(0x0d);

    assert_eq!(bus.available(), 1);
    assert_eq!(bus.read_key_byte(), b'q');
    assert_eq!(bus.available(), 1);
    assert_eq!(bus.read_key_byte(), b'W');
    assert_eq!(bus.read_key_byte(), 0x0d);
    assert_eq!(bus.available(), 0);
}

#[test]
fn idle_poll_returns_zero_and_reset_disables_key_mode() {
    let mut bus = I2cKeyboardBus::new();
    bus.write_command(KEYBOARD_KEY_MODE_COMMAND);

    assert_eq!(bus.read_key_byte(), 0x00);

    bus.inject_key_byte(0x08);
    bus.reset();
    assert_eq!(bus.available(), 0);
    assert_eq!(bus.read_key_byte(), 0x00);
    assert!(!bus.key_mode_active());
    assert_eq!(bus.last_command(), 0);
}

#[test]
fn brightness_survives_host_recreation_by_default() {
    let mut first = I2cKeyboardBus::new();
    first.write_transaction(&[KEYBOARD_BRIGHTNESS_COMMAND, 128]);
    assert_eq!(first.backlight(), 128);

    let mut fresh = first.recreate();
    drop(first);
    assert!(fresh.cross_reset_persist);
    assert_eq!(fresh.backlight(), 128);

    fresh.set_cross_reset_persist(false);
}

#[test]
fn disabling_cross_reset_returns_the_next_c3_to_power_on_darkness() {
    let mut bus = I2cKeyboardBus::new();
    bus.write_transaction(&[KEYBOARD_BRIGHTNESS_COMMAND, 200]);
    bus.set_cross_reset_persist(false);
    assert_eq!(bus.backlight(), 200);

    assert_eq!(bus.recreate().backlight(), 0);
}

#[test]
fn c3_backlight_survives_keyboard_handle_recreation() {
    let mut wire = WireShim::with_keyboard(I2cKeyboardBus::new());
    assert!(wire.begin());
    wire.set_clock(KEYBOARD_I2C_CLOCK_HZ);
    wire.begin_transmission(KEYBOARD_I2C_ADDRESS);
    wire.write_byte(KEYBOARD_BRIGHTNESS_COMMAND);
    wire.write_byte(127);
    assert_eq!(wire.end_transmission(), 0);
    assert_eq!(wire.keyboard().backlight(), 127);

    let recreated = wire.keyboard().recreate();
    wire.set_keyboard(recreated);
    assert_eq!(wire.keyboard().backlight(), 127);
}

fn configured_wire(keyboard: I2cKeyboardBus) -> WireShim {
    let mut wire = WireShim::with_keyboard(keyboard);
    assert!(wire.begin());
    wire.set_clock(KEYBOARD_I2C_CLOCK_HZ);
    wire
}

#[test]
fn real_wire_sequence_activates_key_mode_and_reads_fifo_bytes() {
    let mut keyboard = I2cKeyboardBus::new();
    keyboard.inject_key_byte(b'q');
    keyboard.inject_key_byte(b'W');
    let mut wire = configured_wire(keyboard);
    wire.begin_transmission(KEYBOARD_I2C_ADDRESS);
    wire.write_byte(0x04);
    assert_eq!(wire.end_transmission(), 0);
    assert_eq!(wire.request_from(KEYBOARD_I2C_ADDRESS, 1), 1);
    assert_eq!(wire.read(), i32::from(b'q'));
    assert_eq!(wire.request_from(KEYBOARD_I2C_ADDRESS, 1), 1);
    assert_eq!(wire.read(), i32::from(b'W'));
}

#[test]
fn writes_are_buffered_until_end_transmission() {
    let mut keyboard = I2cKeyboardBus::new();
    keyboard.inject_key_byte(b'a');
    let mut wire = configured_wire(keyboard);
    wire.begin_transmission(KEYBOARD_I2C_ADDRESS);
    wire.write_byte(0x04);
    assert_eq!(wire.request_from(KEYBOARD_I2C_ADDRESS, 1), 1);
    assert_eq!(wire.read(), 0);
    assert_eq!(wire.end_transmission(), 0);
    assert_eq!(wire.request_from(KEYBOARD_I2C_ADDRESS, 1), 1);
    assert_eq!(wire.read(), i32::from(b'a'));
}

#[test]
fn gt911_uses_two_byte_registers_and_clears_interrupt_via_wire() {
    let mut wire = configured_wire(I2cKeyboardBus::new());
    wire.gt911_mut().inject_touch(100, 40, true);
    wire.begin_transmission(GT911_I2C_ADDRESS);
    for byte in GT911_STATUS_REGISTER.to_be_bytes() {
        wire.write_byte(byte);
    }
    assert_eq!(wire.end_transmission(), 0);
    assert_eq!(wire.request_from(GT911_I2C_ADDRESS, 9), 9);
    let bytes: Vec<_> = (0..9).map(|_| wire.read() as u8).collect();
    assert_eq!(bytes[0], 0x81);
    assert_eq!(u16::from_le_bytes([bytes[2], bytes[3]]), 40);
    assert_eq!(u16::from_le_bytes([bytes[4], bytes[5]]), 219);

    wire.begin_transmission(GT911_I2C_ADDRESS);
    for byte in GT911_STATUS_REGISTER.to_be_bytes() {
        wire.write_byte(byte);
    }
    wire.write_byte(0);
    assert_eq!(wire.end_transmission(), 0);
    assert!(wire.gt911().gpio16_level());
}

#[test]
fn bus_scan_and_gt911_identity_diagnostics_match_the_tdeck() {
    let mut wire = configured_wire(I2cKeyboardBus::new());
    wire.set_clock(FAST_I2C_CLOCK_HZ);
    assert_eq!(wire.idle_levels(), (1, 1));
    assert!(wire.probe_address(KEYBOARD_I2C_ADDRESS));
    assert!(wire.probe_address(GT911_I2C_ADDRESS));
    assert!(!wire.probe_address(0x14));

    wire.begin_transmission(GT911_I2C_ADDRESS);
    assert_eq!(wire.end_transmission(), 0);

    wire.begin_transmission(GT911_I2C_ADDRESS);
    for byte in GT911_PRODUCT_ID_REGISTER.to_be_bytes() {
        wire.write_byte(byte);
    }
    assert_eq!(wire.end_transmission(), 0);
    assert_eq!(wire.request_from(GT911_I2C_ADDRESS, 4), 4);
    let product_id: Vec<_> = (0..4).map(|_| wire.read() as u8).collect();
    assert_eq!(&product_id, b"911\0");

    wire.begin_transmission(GT911_I2C_ADDRESS);
    for byte in GT911_CONFIG_X_REGISTER.to_be_bytes() {
        wire.write_byte(byte);
    }
    assert_eq!(wire.end_transmission(), 0);
    assert_eq!(wire.request_from(GT911_I2C_ADDRESS, 4), 4);
    let resolution: Vec<_> = (0..4).map(|_| wire.read() as u8).collect();
    assert_eq!(resolution, [64, 1, 240, 0]);
}

#[test]
fn bad_addresses_nack_and_keyboard_returns_one_byte_per_poll() {
    let mut wire = WireShim::new();
    wire.begin();
    wire.begin_transmission(0x42);
    wire.write_byte(0x04);
    assert_eq!(wire.end_transmission(), 2);
    assert_eq!(wire.request_from(0x42, 1), 0);

    wire.begin_transmission(KEYBOARD_I2C_ADDRESS);
    wire.write_byte(0x04);
    assert_eq!(wire.end_transmission(), 0);
    assert_eq!(wire.request_from(KEYBOARD_I2C_ADDRESS, 8), 1);
}

#[test]
fn devices_require_begin_and_a_supported_clock() {
    let mut wire = WireShim::new();
    assert_eq!(wire.request_from(KEYBOARD_I2C_ADDRESS, 1), 0);
    wire.begin();
    wire.set_clock(1_000_000);
    assert_eq!(wire.request_from(KEYBOARD_I2C_ADDRESS, 1), 0);
    wire.set_clock(FAST_I2C_CLOCK_HZ);
    assert_eq!(wire.request_from(KEYBOARD_I2C_ADDRESS, 1), 0);
    wire.set_clock(KEYBOARD_I2C_CLOCK_HZ);
    assert_eq!(wire.request_from(KEYBOARD_I2C_ADDRESS, 1), 1);
}

#[test]
fn fast_clock_times_out_keyboard_reads_but_not_gt911() {
    let mut keyboard = I2cKeyboardBus::new();
    keyboard.inject_key_byte(b'q');
    let mut wire = configured_wire(keyboard);
    wire.set_clock(FAST_I2C_CLOCK_HZ);

    wire.begin_transmission(KEYBOARD_I2C_ADDRESS);
    wire.write_byte(0x04);
    assert_eq!(wire.end_transmission(), 0);
    assert_eq!(wire.request_from(KEYBOARD_I2C_ADDRESS, 1), 0);
    assert_eq!(wire.read(), -1);

    wire.gt911_mut().inject_touch(10, 20, true);
    wire.begin_transmission(GT911_I2C_ADDRESS);
    for byte in GT911_STATUS_REGISTER.to_be_bytes() {
        wire.write_byte(byte);
    }
    assert_eq!(wire.end_transmission(), 0);
    assert_eq!(wire.request_from(GT911_I2C_ADDRESS, 9), 9);

    wire.set_clock(KEYBOARD_I2C_CLOCK_HZ);
    wire.begin_transmission(KEYBOARD_I2C_ADDRESS);
    wire.write_byte(0x04);
    assert_eq!(wire.end_transmission(), 0);
    assert_eq!(wire.request_from(KEYBOARD_I2C_ADDRESS, 1), 1);
    assert_eq!(wire.read(), i32::from(b'q'));
}

#[test]
fn stuck_sda_nacks_until_nine_clock_recovery_and_stop() {
    let mut wire = WireShim::new();
    wire.begin();
    wire.set_sda_stuck(true);

    assert_eq!(wire.idle_levels(), (0, 1));
    assert!(!wire.probe_address(KEYBOARD_I2C_ADDRESS));
    wire.begin_transmission(KEYBOARD_I2C_ADDRESS);
    assert_eq!(wire.write_byte(KEYBOARD_KEY_MODE_COMMAND), 0);
    assert_eq!(wire.end_transmission(), 2);
    assert_eq!(wire.request_from(KEYBOARD_I2C_ADDRESS, 1), 0);

    assert_eq!(wire.clock_out_recovery(), 1);
    wire.emit_stop();
    assert_eq!(wire.idle_levels(), (1, 1));
    assert_eq!(wire.clock_out_recovery(), 0);
    assert!(wire.probe_address(KEYBOARD_I2C_ADDRESS));
}

#[test]
fn peripheral_power_loss_nacks_all_i2c_transactions() {
    let mut wire = configured_wire(I2cKeyboardBus::new());
    wire.set_peripheral_power_check(true);

    wire.begin_transmission(KEYBOARD_I2C_ADDRESS);
    assert_eq!(wire.write_byte(0x04), 1);
    assert_eq!(wire.end_transmission(), 0);

    wire.set_peripheral_power_check(false);
    wire.begin_transmission(KEYBOARD_I2C_ADDRESS);
    assert_eq!(wire.write_byte(0x04), 0);
    assert_eq!(wire.end_transmission(), 0x02);
    assert_eq!(wire.request_from(KEYBOARD_I2C_ADDRESS, 1), 0);
    assert_eq!(wire.available(), 0);
    assert_eq!(wire.read(), -1);
}

use mycelium::gt911::{
    Gt911Controller, Gt911Fleet, Gt911Point, DEFAULT_GT911_CONTACT_SIZE, DEFAULT_GT911_MAX_X,
    DEFAULT_GT911_MAX_Y, GT911_CONFIG_X_REGISTER, GT911_FAILURE_MODE_BUS, GT911_PRODUCT_ID_REGISTER,
    GT911_STATUS_BUS_WATCHDOG_FIRED, GT911_STATUS_FRAME_WATCHDOG_FIRED, GT911_STATUS_PHANTOM_WATCHDOG_FIRED,
    GT911_STATUS_REGISTER,
};

#[test]
fn touch_is_encoded_in_gt911_register_format_with_portrait_swap() {
    let mut controller = Gt911Controller::new();
    controller.set_contact_size(321);
    controller.inject_touch(100, 40, true);
    let mut registers = [0; 9];

    assert_eq!(
        controller.i2c_read(GT911_STATUS_REGISTER, &mut registers),
        9
    );
    assert_eq!(registers[0], 0x81);
    assert_eq!(registers[1], 0);
    assert_eq!(u16::from_le_bytes([registers[2], registers[3]]), 40);
    assert_eq!(u16::from_le_bytes([registers[4], registers[5]]), 219);
    assert_eq!(u16::from_le_bytes([registers[6], registers[7]]), 321);
    assert_eq!(registers[8], 0);
    assert_eq!(controller.raw_position(), Some((100, 40)));
    assert_eq!(controller.mapped_position(), Some((40, 219)));
}

#[test]
fn product_id_and_configured_resolution_are_readable() {
    let mut controller = Gt911Controller::new();
    let mut product_id = [0; 4];
    let mut resolution = [0; 4];

    assert_eq!(
        controller.i2c_read(GT911_PRODUCT_ID_REGISTER, &mut product_id),
        4
    );
    assert_eq!(&product_id, b"911\0");
    assert_eq!(
        controller.i2c_read(GT911_CONFIG_X_REGISTER, &mut resolution),
        4
    );
    assert_eq!(
        u16::from_le_bytes([resolution[0], resolution[1]]),
        DEFAULT_GT911_MAX_X
    );
    assert_eq!(
        u16::from_le_bytes([resolution[2], resolution[3]]),
        DEFAULT_GT911_MAX_Y
    );

    controller.set_resolution(240, 320);
    controller.i2c_read(GT911_CONFIG_X_REGISTER, &mut resolution);
    assert_eq!(resolution, [240, 0, 64, 1]);
}

#[test]
fn primary_contact_size_is_configurable() {
    let mut controller = Gt911Controller::new();
    assert_eq!(controller.contact_size(), DEFAULT_GT911_CONTACT_SIZE);

    controller.set_contact_size(u16::MAX);
    controller.inject_touch(10, 20, true);

    assert_eq!(controller.touch_points()[0].unwrap().size, u16::MAX);
}

#[test]
fn interrupt_is_active_low_until_status_is_cleared() {
    let mut controller = Gt911Controller::new();
    assert!(controller.gpio16_level());

    controller.inject_touch(10, 20, true);
    assert!(!controller.gpio16_level());
    controller.i2c_write(GT911_STATUS_REGISTER, &[0]);

    assert!(controller.gpio16_level());
    assert!(!controller.frame_ready());
    let mut status = [0xff];
    controller.i2c_read(GT911_STATUS_REGISTER, &mut status);
    assert_eq!(status[0], 0);
}

#[test]
fn release_and_periodic_held_touch_frames_are_generated() {
    let mut controller = Gt911Controller::new();
    controller.inject_touch(10, 20, true);
    controller.i2c_write(GT911_STATUS_REGISTER, &[0]);
    controller.tick(9);
    assert!(!controller.frame_ready());
    controller.tick(10);
    assert!(controller.frame_ready());

    controller.i2c_write(GT911_STATUS_REGISTER, &[0]);
    controller.inject_touch(10, 20, false);
    let mut status = [0];
    controller.i2c_read(GT911_STATUS_REGISTER, &mut status);
    assert_eq!(status[0], 0x80);
}

#[test]
fn reports_up_to_five_contacts() {
    let mut controller = Gt911Controller::new();
    for track_id in 0..5 {
        assert!(controller.inject_point(
            Gt911Point {
                track_id,
                x: 10 + u16::from(track_id),
                y: 20,
                size: 30,
            },
            true,
        ));
    }
    assert!(!controller.inject_point(
        Gt911Point {
            track_id: 5,
            x: 0,
            y: 0,
            size: 0,
        },
        true,
    ));

    let mut status = [0];
    controller.i2c_read(GT911_STATUS_REGISTER, &mut status);
    assert_eq!(status[0], 0x85);
}

#[test]
fn bus_failure_mode_sets_the_watchdog_bit_after_eight_failed_status_reads() {
    let mut controller = Gt911Controller::new();
    controller.inject_touch(10, 20, true);
    controller.set_i2c_failure_rate(100);
    let mut status = [0];

    for _ in 0..7 {
        assert_eq!(controller.i2c_read(GT911_STATUS_REGISTER, &mut status), 0);
    }
    assert_eq!(controller.watchdog_status(), 0);
    assert_eq!(controller.i2c_read(GT911_STATUS_REGISTER, &mut status), 0);
    assert_eq!(
        controller.watchdog_status(),
        GT911_STATUS_BUS_WATCHDOG_FIRED
    );
}

#[test]
fn frame_stall_suppresses_scans_and_sets_the_timeout_bit() {
    let mut controller = Gt911Controller::new();
    controller.set_frame_stall_ms(500);
    controller.inject_touch(10, 20, true);
    controller.i2c_write(GT911_STATUS_REGISTER, &[0]);

    controller.tick(250);
    assert!(!controller.frame_ready());
    assert_eq!(controller.watchdog_status(), 0);
    controller.tick(251);
    assert_eq!(
        controller.watchdog_status(),
        GT911_STATUS_FRAME_WATCHDOG_FIRED
    );
    controller.tick(500);
    assert!(controller.frame_ready());
}

#[test]
fn phantom_latch_freezes_the_point_and_sets_the_ten_second_bit() {
    let mut controller = Gt911Controller::new();
    controller.set_phantom_latch(true);
    controller.inject_touch(10, 20, true);
    let frozen = controller.touch_points()[0];

    controller.inject_touch(200, 100, true);
    controller.inject_touch(200, 100, false);
    assert_eq!(controller.touch_points()[0], frozen);
    controller.tick(10_000);
    assert_eq!(controller.watchdog_status(), 0);
    controller.tick(10_001);
    assert_eq!(
        controller.watchdog_status(),
        GT911_STATUS_PHANTOM_WATCHDOG_FIRED
    );

    controller.set_phantom_latch(false);
    assert!(controller.touch_points()[0].is_none());
    let mut status = [0];
    controller.i2c_read(GT911_STATUS_REGISTER, &mut status);
    assert_eq!(status[0], 0x80);
    assert_eq!(controller.watchdog_status(), 0);
}

#[test]
fn fleet_failure_mode_reaches_every_live_controller() {
    let mut fleet = Gt911Fleet::new();
    let first = fleet.new_shared_gt911();
    let second = fleet.new_shared_gt911();
    fleet.set_global_failure_mode(GT911_FAILURE_MODE_BUS, 100);
    assert_eq!(fleet.global_watchdog_status(), 0);
    fleet.release_gt911(second);
    assert!(fleet.controller(second).is_none());
    assert!(fleet.controller(first).is_some());
    fleet.tick_all_gt911(10);
    assert_eq!(fleet.global_watchdog_status(), 0);
}

#[test]
fn writing_the_status_register_clears_the_interrupt_only() {
    let mut controller = Gt911Controller::new();
    controller.inject_touch(10, 20, true);
    assert!(controller.frame_ready());
    controller.i2c_write(GT911_STATUS_REGISTER, &[0]);
    assert!(!controller.frame_ready());
    assert_eq!(controller.raw_position(), Some((10, 20)));
}

#[test]
fn failure_rate_fails_exactly_that_many_of_a_hundred_status_reads() {
    for pct in [0u8, 1, 30, 99, 100, 200] {
        let mut controller = Gt911Controller::new();
        controller.set_i2c_failure_rate(pct);
        let mut buf = [0u8; 1];
        let failed = (0..100).filter(|_| controller.i2c_read(GT911_STATUS_REGISTER, &mut buf) == 0).count();
        assert_eq!(failed, pct.min(100) as usize);
    }
}

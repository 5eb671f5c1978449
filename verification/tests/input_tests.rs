use mycelium::gt911::DEFAULT_GT911_CONTACT_SIZE;
use mycelium::input::{
    key_mapping, portrait_event, Gt911TouchEvent, HostInput, HostKey, InputEvent, InputManager, InputRegistry,
    packed_key_event, KeyEvent, KeyboardEmulator, TouchEmulator, TrackballDirection, TrackballEmulator, TrackballEvent,
};

#[test]
fn maps_each_keyboard_row() {
    let mut keyboard = KeyboardEmulator::new();
    assert_eq!(
        keyboard.handle_key(HostKey::Q, true),
        Some(KeyEvent { row: 0, col: 0, pressed: true, key_byte: b'q' })
    );
    assert_eq!(keyboard.handle_key(HostKey::L, true).unwrap().col, 8);
    assert_eq!(keyboard.handle_key(HostKey::Period, true).unwrap().row, 2);
    assert_eq!(
        keyboard.handle_key(HostKey::Backspace, true).unwrap(),
        KeyEvent { row: 3, col: 3, pressed: true, key_byte: 0x08 }
    );
}

#[test]
fn suppresses_repeats_and_spurious_releases() {
    let mut keyboard = KeyboardEmulator::new();
    assert!(keyboard.handle_key(HostKey::A, true).is_some());
    assert!(keyboard.handle_key(HostKey::A, true).is_none());
    assert!(keyboard.handle_key(HostKey::A, false).is_some());
    assert!(keyboard.handle_key(HostKey::A, false).is_none());
    assert!(keyboard.handle_key(HostKey::Other, true).is_none());
}

#[test]
fn shift_keys_are_tracked_independently_and_uppercase_letters() {
    let mut keyboard = KeyboardEmulator::new();
    assert_eq!(keyboard.handle_key(HostKey::LShift, true).unwrap().key_byte, 0x00);
    keyboard.handle_key(HostKey::RShift, true);
    assert_eq!(keyboard.handle_key(HostKey::Q, true).unwrap().key_byte, b'Q');
    keyboard.handle_key(HostKey::Q, false);
    keyboard.handle_key(HostKey::LShift, false);
    assert_eq!(keyboard.handle_key(HostKey::W, true).unwrap().key_byte, b'W');
    keyboard.handle_key(HostKey::W, false);
    keyboard.handle_key(HostKey::RShift, false);
    assert_eq!(keyboard.handle_key(HostKey::E, true).unwrap().key_byte, b'e');
}

#[test]
fn special_keys_match_the_c3_protocol() {
    let mut keyboard = KeyboardEmulator::new();

    assert_eq!(keyboard.handle_key(HostKey::Return, true).unwrap().key_byte, 0x0d);
    assert_ne!(keyboard.get_last().unwrap().key_byte, 0x0a);
    assert_eq!(keyboard.handle_key(HostKey::Backspace, true).unwrap().key_byte, 0x08);
    assert_eq!(keyboard.handle_key(HostKey::Space, true).unwrap().key_byte, 0x20);
}

#[test]
fn comma_and_period_shift_to_angle_brackets() {
    let mut keyboard = KeyboardEmulator::new();
    keyboard.handle_key(HostKey::LShift, true);
    assert_eq!(keyboard.handle_key(HostKey::Comma, true).unwrap().key_byte, b'<');
    assert_eq!(keyboard.handle_key(HostKey::Period, true).unwrap().key_byte, b'>');
    assert!(key_mapping(HostKey::Up).is_none());
}

#[test]
fn maps_arrows_and_return_to_trackball_directions() {
    let mut trackball = TrackballEmulator::new();
    assert_eq!(trackball.handle_key(HostKey::Left, true).unwrap().direction, TrackballDirection::Left);
    assert_eq!(
        trackball.handle_key(HostKey::Return, false).unwrap(),
        TrackballEvent { direction: TrackballDirection::Center, pressed: false, timestamp_ms: 0 }
    );
    assert!(trackball.handle_key(HostKey::A, true).is_none());
    assert_eq!(trackball.get_last().unwrap().direction, TrackballDirection::Center);
}

#[test]
fn hover_is_silent_and_pressed_motion_uses_portrait_coordinates() {
    let mut touch = TouchEmulator::new(320, 240);
    assert_eq!(touch.handle_motion(159, 119), None);
    touch.handle_button(true, true);
    assert_eq!(
        touch.handle_motion(159, 119),
        Some(Gt911TouchEvent { x: 119, y: 160, pressure: DEFAULT_GT911_CONTACT_SIZE as u8, touch_id: 0 })
    );
    assert_eq!(touch.handle_motion(320, 5), None);
    assert_eq!(touch.handle_motion(-1, 10), None);
}

#[test]
fn left_button_changes_pressure_at_the_last_position() {
    let mut touch = TouchEmulator::new(320, 240);
    assert_eq!(touch.handle_motion(12, 34), None);
    assert_eq!(touch.handle_button(true, true).unwrap().pressure, DEFAULT_GT911_CONTACT_SIZE as u8);
    assert_eq!(touch.handle_button(true, false).unwrap().pressure, 0);
    assert_eq!(touch.handle_button(false, true), None);
}

#[test]
fn contact_size_drives_touch_pressure_without_breaking_packed_u8_events() {
    let mut touch = TouchEmulator::new(320, 240);
    touch.set_contact_size(300);
    assert_eq!(touch.contact_size(), 300);

    assert_eq!(touch.handle_motion(12, 34), None);
    assert_eq!(touch.handle_button(true, true).unwrap().pressure, u8::MAX);
}

#[test]
fn ignores_out_of_bounds_and_duplicate_button_presses() {
    let mut touch = TouchEmulator::new(320, 240);
    assert!(touch.handle_button_at(true, true, 320, 10).is_none());
    assert!(touch.handle_button_at(true, true, 10, 10).is_some());
    assert!(touch.handle_button_at(true, true, 10, 10).is_none());
    assert!(touch.handle_button_at(true, false, 500, 10).is_some());
}

#[test]
fn portrait_rotation_clamps_to_the_panel() {
    assert_eq!(portrait_event(0, 0, true, 50), Gt911TouchEvent { x: 0, y: 239 + 80, pressure: 50, touch_id: 0 });
    assert_eq!(portrait_event(400, -5, false, 50), Gt911TouchEvent { x: 0, y: 0, pressure: 0, touch_id: 0 });
    assert_eq!(portrait_event(-100, 500, true, 1000), Gt911TouchEvent { x: 239, y: 319, pressure: 255, touch_id: 0 });
}

#[test]
fn injected_touches_are_queued_in_portrait_coordinates() {
    let mut touch = TouchEmulator::new(320, 240);
    assert_eq!(touch.inject(320, 0, true), None);
    assert_eq!(touch.inject(100, 40, true), Some(Gt911TouchEvent { x: 40, y: 219, pressure: 50, touch_id: 0 }));
    assert_eq!(touch.last_host_position(), Some((100, 40)));
}

#[test]
fn routes_events_only_into_the_target_manager() {
    let mut first = InputManager::new("first", 0);
    let mut second = InputManager::new("second", 0);
    first.handle_host_input(HostInput::Key { key: HostKey::Q, pressed: true }, 5);
    assert_eq!(first.instance_id(), "first");
    assert_eq!(first.poll_keyboard().unwrap().row, 0);
    assert!(second.poll_keyboard().is_none());
}

#[test]
fn auto_off_uses_last_user_activity() {
    let mut manager = InputManager::new("node", 1_000);
    assert!(!manager.should_auto_off(1_500, 1_000));
    assert!(manager.should_auto_off(2_000, 1_000));
    manager.handle_host_input(HostInput::MouseMotion { x: 5, y: 5 }, 1_900);
    assert_eq!(manager.last_activity_ms(), 1_900);
    assert!(!manager.should_auto_off(2_000, 1_000));
    assert!(!manager.should_auto_off(0, 1));
}

#[test]
fn keyboard_and_trackball_events_are_queued_independently() {
    let mut manager = InputManager::new("node", 0);
    let events = manager.inject_key(HostKey::Return, true, 42);
    assert_eq!(
        events,
        vec![
            InputEvent::Keyboard(KeyEvent { row: 3, col: 2, pressed: true, key_byte: 0x0d }),
            InputEvent::Trackball(TrackballEvent { direction: TrackballDirection::Center, pressed: true, timestamp_ms: 42 }),
        ]
    );
    assert_eq!(manager.poll_trackball().unwrap().timestamp_ms, 42);
    assert!(manager.poll_trackball().is_none());
    assert_eq!(manager.poll_keyboard().unwrap().key_byte, 0x0d);
    assert!(manager.poll_keyboard().is_none());
    assert!(manager.poll_touch().is_none());
}

#[test]
fn mouse_buttons_queue_touch_transitions() {
    let mut manager = InputManager::new("node", 0);
    let down = manager.handle_host_input(HostInput::MouseButton { left: true, pressed: true, x: 10, y: 20 }, 1);
    assert_eq!(down, vec![InputEvent::Touch(Gt911TouchEvent { x: 20, y: 309, pressure: 50, touch_id: 0 })]);
    let up = manager.handle_host_input(HostInput::MouseButton { left: true, pressed: false, x: 10, y: 20 }, 2);
    assert_eq!(up.len(), 1);
    assert_eq!(manager.poll_touch().unwrap().pressure, 50);
    assert_eq!(manager.poll_touch().unwrap().pressure, 0);
    assert!(manager.handle_host_input(HostInput::Other, 3).is_empty());
    assert!(manager.inject_touch(1, 2, true, 4));
    assert!(!manager.inject_touch(320, 2, true, 5));
    assert_eq!(manager.poll_touch().unwrap(), Gt911TouchEvent { x: 2, y: 318, pressure: 50, touch_id: 0 });
}

#[test]
fn registry_replaces_and_removes_managers() {
    let mut registry = InputRegistry::new();
    registry.register_input_manager("node", 0);
    registry.get_input_manager_mut("node").unwrap().inject_key(HostKey::A, true, 1);
    assert_eq!(registry.get_input_manager("node").unwrap().last_activity_ms(), 1);
    registry.register_input_manager("node", 7);
    assert_eq!(registry.get_input_manager("node").unwrap().last_activity_ms(), 7);
    registry.remove_input_manager("node");
    assert!(registry.get_input_manager("node").is_none());
}

#[test]
fn key_events_pack_row_column_and_pressed_flag() {
    assert_eq!(packed_key_event(None), 0);
    assert_eq!(
        packed_key_event(Some(KeyEvent { row: 2, col: 5, pressed: true, key_byte: b'a' })),
        2 | (5 << 8) | (1 << 16)
    );
    assert_eq!(
        packed_key_event(Some(KeyEvent { row: 4, col: 9, pressed: false, key_byte: b'b' })),
        4 | (9 << 8)
    );
}

#[test]
fn manager_trackball_reports_its_last_event() {
    let mut manager = InputManager::new("node1", 0);
    assert_eq!(manager.trackball().get_last(), None);
    manager.inject_key(HostKey::Left, true, 40);
    assert_eq!(
        manager.trackball().get_last(),
        Some(TrackballEvent { direction: TrackballDirection::Left, pressed: true, timestamp_ms: 0 })
    );
    manager.inject_key(HostKey::A, true, 50);
    assert_eq!(manager.trackball().get_last().unwrap().direction, TrackballDirection::Left);
}

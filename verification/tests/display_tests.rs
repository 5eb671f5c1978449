use mycelium::lvgl_v8::{lvgl_v8_display_plan, lvgl_v8_flush_area, lvgl_v8_start_panel};
use mycelium::shared_spi::SharedSpiBus;
use mycelium::display_config::{DisplayBackendOptions, DisplayConfig, LvglVersion};
use mycelium::framebuffer::{
    framebuffer_size, host_rgb565_to_st7789_wire, is_t_deck_resolution, st7789_wire_to_host_rgb565,
    update_rgb565, FramebufferError, Rect, T_DECK_HEIGHT, T_DECK_WIDTH,
};
use mycelium::lvgl::LvglV9State;
use mycelium::window::{capture_screenshot, event_for_window, rgb565_len, DisplayEvent, HostWindowEvent, rgb565_to_rgb888, validate_dimensions, WindowError};

fn native_pixels(values: &[u16]) -> Vec<u8> {
    values.iter().flat_map(|value| value.to_ne_bytes()).collect()
}

#[test]
fn t_deck_defaults_target_lvgl_v9() {
    let config = DisplayConfig::default();
    assert_eq!((config.width, config.height, config.scale), (320, 240, 2));
    assert_eq!(config.lvgl_version, LvglVersion::V9);
    assert_eq!(config.window_title, "T-Deck");
    assert!(!config.show_fps);
}

#[test]
fn t_deck_geometry_is_fixed() {
    assert_eq!((T_DECK_WIDTH, T_DECK_HEIGHT), (320, 240));
}

#[test]
fn backend_defaults_use_a_partial_t_deck_buffer() {
    let options = DisplayBackendOptions::default();
    assert_eq!(options.draw_buffer_rows, 24);
    assert!(options.draw_buffer_rows < T_DECK_HEIGHT);
    assert!(!options.st7789_fidelity);
}

#[test]
fn preserves_disjoint_edge_single_pixel_and_multi_row_updates() {
    let mut framebuffer = vec![0; 5 * 4 * 2];

    update_rgb565(&mut framebuffer, 5, 4, &native_pixels(&[0xf800]), Rect { x: 0, y: 0, width: 1, height: 1 })
        .unwrap();
    update_rgb565(&mut framebuffer, 5, 4, &native_pixels(&[0x07e0]), Rect { x: 4, y: 3, width: 1, height: 1 })
        .unwrap();
    update_rgb565(
        &mut framebuffer,
        5,
        4,
        &native_pixels(&[1, 2, 3, 4, 5, 6]),
        Rect { x: 1, y: 1, width: 3, height: 2 },
    )
    .unwrap();

    let pixel = |x: usize, y: usize| {
        let offset = (y * 5 + x) * 2;
        u16::from_ne_bytes([framebuffer[offset], framebuffer[offset + 1]])
    };
    assert_eq!(pixel(0, 0), 0xf800);
    assert_eq!(pixel(4, 3), 0x07e0);
    assert_eq!((pixel(1, 1), pixel(3, 1)), (1, 3));
    assert_eq!((pixel(1, 2), pixel(3, 2)), (4, 6));
    assert_eq!(pixel(4, 0), 0);
    assert_eq!(pixel(0, 3), 0);
}

#[test]
fn converts_native_rgb565_to_big_endian_wire_bytes_and_back() {
    let host = native_pixels(&[0xf800, 0x07e0, 0x001f, 0xffff]);
    let wire = host_rgb565_to_st7789_wire(&host).unwrap();
    assert_eq!(wire, [0xf8, 0x00, 0x07, 0xe0, 0x00, 0x1f, 0xff, 0xff]);
    assert_eq!(st7789_wire_to_host_rgb565(&wire).unwrap(), host);
    assert!(host_rgb565_to_st7789_wire(&[0xff]).is_none());
}

#[test]
fn framebuffer_size_is_full_screen_rgb565() {
    assert_eq!(framebuffer_size(320, 240), Some(320 * 240 * 2));
    assert_eq!(framebuffer_size(u32::MAX, u32::MAX), None);
}

#[test]
fn rejected_updates_name_their_reason_and_leave_the_framebuffer_alone() {
    let mut framebuffer = vec![7u8; 4 * 4 * 2];
    let before = framebuffer.clone();
    let one = native_pixels(&[1]);
    assert_eq!(
        update_rgb565(&mut framebuffer, 4, 4, &one, Rect { x: 0, y: 0, width: 0, height: 1 }),
        Err(FramebufferError::EmptyArea)
    );
    assert_eq!(
        update_rgb565(&mut framebuffer, 4, 4, &one, Rect { x: u32::MAX, y: 0, width: 1, height: 1 }),
        Err(FramebufferError::AreaOverflow)
    );
    assert_eq!(
        update_rgb565(&mut framebuffer, 4, 4, &one, Rect { x: 4, y: 0, width: 1, height: 1 }),
        Err(FramebufferError::OutOfBounds)
    );
    assert!(update_rgb565(&mut framebuffer, 4, 4, &native_pixels(&[1, 2]), Rect { x: 0, y: 0, width: 1, height: 1 })
        .is_err());
    assert_eq!(framebuffer, before);
}

#[test]
fn t_deck_resolution_is_only_the_native_panel() {
    assert!(is_t_deck_resolution(320, 240));
    assert!(!is_t_deck_resolution(240, 320));
    assert!(!is_t_deck_resolution(640, 480));
}

#[test]
fn backend_options_need_a_partial_buffer_within_the_panel() {
    let options = DisplayBackendOptions::default();
    assert_eq!(options.validated(240), Some(options));
    let zero = DisplayBackendOptions { draw_buffer_rows: 0, ..options };
    assert_eq!(zero.validated(240), None);
    let tall = DisplayBackendOptions { draw_buffer_rows: 241, ..options };
    assert_eq!(tall.validated(240), None);
}

#[test]
fn window_dimensions_and_rgb565_sizes_are_validated() {
    assert_eq!(validate_dimensions(320, 240, 2), Ok(()));
    assert_eq!(validate_dimensions(0, 240, 2), Err(WindowError::ZeroDimension));
    assert_eq!(validate_dimensions(320, 240, 0), Err(WindowError::ZeroDimension));
    assert_eq!(rgb565_len(320, 240), Ok(153_600));
    assert_eq!(rgb565_len(u32::MAX, u32::MAX), Err(WindowError::FramebufferSizeOverflow));
}

#[test]
fn rgb565_pixels_expand_to_full_range_rgb888() {
    let rgb = rgb565_to_rgb888(&native_pixels(&[0xf800, 0x07e0, 0x001f, 0xffff, 0x0000]));
    assert_eq!(rgb, [255, 0, 0, 0, 255, 0, 0, 0, 255, 255, 255, 255, 0, 0, 0]);
}

#[test]
fn screenshot_capture_is_a_valid_png() {
    let pixels = [0xf800_u16.to_ne_bytes(), 0x07e0_u16.to_ne_bytes()].concat();
    let screenshot = capture_screenshot(2, 1, &pixels);
    assert!(screenshot.starts_with(b"\x89PNG\r\n\x1a\n"));
    let decoder = png::Decoder::new(std::io::Cursor::new(screenshot));
    let mut reader = decoder.read_info().unwrap();
    let mut decoded = vec![0; reader.output_buffer_size()];
    let info = reader.next_frame(&mut decoded).unwrap();
    assert_eq!((info.width, info.height), (2, 1));
    assert_eq!(&decoded[..info.buffer_size()], &[255, 0, 0, 0, 255, 0]);
}

#[test]
fn screenshot_of_a_mismatched_framebuffer_is_empty() {
    let framebuffer = native_pixels(&[0xf800]);
    assert!(capture_screenshot(2, 2, &framebuffer).is_empty());
}

#[test]
fn lvgl_v9_state_matches_only_its_own_geometry() {
    let state = LvglV9State::for_resolution(320, 240).unwrap();
    assert_eq!(state.draw_buffer_size, 153_600);
    assert!(state.is_valid(320, 240, 153_600));
    assert!(!state.is_valid(240, 320, 153_600));
    assert!(!state.is_valid(320, 240, 1));
    assert!(LvglV9State::for_resolution(-1, 240).is_none());
    assert!(LvglV9State::for_resolution(0, 240).is_none());
}

#[test]
fn window_events_are_routed_to_their_instance() {
    assert_eq!(
        event_for_window("node1", 7, HostWindowEvent::Quit),
        Some(DisplayEvent::Close { instance_id: "node1".to_owned() })
    );
    assert_eq!(
        event_for_window("node1", 7, HostWindowEvent::Close { window_id: 7 }),
        Some(DisplayEvent::Close { instance_id: "node1".to_owned() })
    );
    assert_eq!(event_for_window("node1", 7, HostWindowEvent::Close { window_id: 8 }), None);
    assert_eq!(
        event_for_window("node1", 7, HostWindowEvent::Resized { window_id: 7, width: 640, height: 480 }),
        Some(DisplayEvent::Resized { instance_id: "node1".to_owned(), width: 640, height: 480 })
    );
    assert_eq!(event_for_window("node1", 7, HostWindowEvent::Resized { window_id: 7, width: 0, height: 480 }), None);
    assert_eq!(event_for_window("node1", 7, HostWindowEvent::Resized { window_id: 9, width: 640, height: 480 }), None);
    assert_eq!(event_for_window("node1", 7, HostWindowEvent::Other), None);
}

#[test]
fn rejects_invalid_and_out_of_bounds_updates() {
    assert!(validate_dimensions(0, 1, 1).is_err());

    let mut framebuffer = vec![0u8; 2 * 2 * 2];
    assert!(update_rgb565(&mut framebuffer, 2, 2, &[0; 2], Rect { x: 2, y: 0, width: 1, height: 1 }).is_err());
    assert!(update_rgb565(&mut framebuffer, 2, 2, &[0; 1], Rect { x: 0, y: 0, width: 1, height: 1 }).is_err());
}

#[test]
fn t_deck_initializers_reject_non_native_geometry() {
    assert!(!is_t_deck_resolution(640, 480));
    assert!(!is_t_deck_resolution(320, 200));
    assert!(is_t_deck_resolution(320, 240));
}

#[test]
fn screenshots_too_large_for_memory_are_empty() {
    assert!(capture_screenshot(u32::MAX, u32::MAX, &[]).is_empty());
}

#[test]
fn flushes_known_rgb565_rectangle_captures_pixels_and_signals_ready() {
    let mut bus = SharedSpiBus::default();
    let mut panel = None;
    let mut framebuffer = vec![0u8; 4 * 3 * 2];
    let pattern = native_pixels(&[0xf800, 0x07e0, 0x001f, 0xffff]);
    let rect = lvgl_v8_flush_area(4, 3, 1, 1, 2, 2, &pattern, &mut panel, &mut bus, &mut framebuffer);
    assert_eq!(rect, Some((1, 1, 2, 2)));
    let pixel = |x: usize, y: usize| u16::from_ne_bytes([framebuffer[(y * 4 + x) * 2], framebuffer[(y * 4 + x) * 2 + 1]]);
    assert_eq!(pixel(0, 0), 0);
    assert_eq!(pixel(1, 1), 0xf800);
    assert_eq!(pixel(2, 1), 0x07e0);
    assert_eq!(pixel(1, 2), 0x001f);
    assert_eq!(pixel(2, 2), 0xffff);
}

#[test]
fn v8_flush_through_the_panel_model_lands_in_panel_memory() {
    let mut bus = SharedSpiBus::default();
    let mut panel = lvgl_v8_start_panel(4, 3, &mut bus);
    assert!(panel.is_some());
    let mut framebuffer = vec![0u8; 4 * 3 * 2];
    let pattern = native_pixels(&[0xf800, 0x07e0]);
    let rect = lvgl_v8_flush_area(4, 3, 0, 0, 1, 0, &pattern, &mut panel, &mut bus, &mut framebuffer);
    assert_eq!(rect, Some((0, 0, 2, 1)));
    assert_eq!(framebuffer, panel.as_ref().unwrap().framebuffer_host_rgb565().to_vec());
    assert!(framebuffer.iter().any(|b| *b != 0));
}

#[test]
fn v8_flush_rejects_areas_outside_the_display() {
    let mut bus = SharedSpiBus::default();
    let mut panel = None;
    let mut framebuffer = vec![0u8; 4 * 3 * 2];
    let two = native_pixels(&[1, 2]);
    assert_eq!(lvgl_v8_flush_area(4, 3, 3, 0, 4, 0, &two, &mut panel, &mut bus, &mut framebuffer), None);
    assert_eq!(lvgl_v8_flush_area(4, 3, -1, 0, 0, 0, &two, &mut panel, &mut bus, &mut framebuffer), None);
    assert_eq!(lvgl_v8_flush_area(4, 3, 1, 0, 0, 0, &two, &mut panel, &mut bus, &mut framebuffer), None);
    assert_eq!(lvgl_v8_flush_area(4, 3, 0, 0, 1, 0, &two[..2], &mut panel, &mut bus, &mut framebuffer), None);
    assert!(framebuffer.iter().all(|b| *b == 0));
}

#[test]
fn rejects_invalid_configuration_before_calling_lvgl() {
    let options = DisplayBackendOptions { draw_buffer_rows: 1, st7789_fidelity: false };
    assert_eq!(lvgl_v8_display_plan("", 4, 3, options), None);
    assert_eq!(lvgl_v8_display_plan("bad", 0, 3, options), None);
    assert_eq!(lvgl_v8_display_plan("bad", 4, -1, options), None);
    assert_eq!(lvgl_v8_display_plan("ok", 4, 3, options), Some((4, 24)));
}

#[test]
fn registers_t_deck_realistic_partial_buffer_sizes() {
    for rows in [10u32, 24, 40] {
        let options = DisplayBackendOptions { draw_buffer_rows: rows, st7789_fidelity: false };
        assert_eq!(
            lvgl_v8_display_plan("t-deck partial buffer", T_DECK_WIDTH as i32, T_DECK_HEIGHT as i32, options),
            Some((T_DECK_WIDTH * rows, (T_DECK_WIDTH * T_DECK_HEIGHT * 2) as usize))
        );
    }
    let too_many = DisplayBackendOptions { draw_buffer_rows: 241, st7789_fidelity: false };
    assert_eq!(lvgl_v8_display_plan("t-deck", 320, 240, too_many), None);
}

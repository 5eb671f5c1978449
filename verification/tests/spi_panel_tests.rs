use mycelium::framebuffer::host_rgb565_to_st7789_wire;
use mycelium::shared_spi::{owner_code, SharedSpiBus, SpiBusError, SpiBusRegistry, SpiDevice};
use mycelium::st7789::{
    parse_window, St7789Controller, St7789Error, ST7789_CASET, ST7789_INVOFF, ST7789_MADCTL, ST7789_RAMWR,
    ST7789_RASET, T_DECK_MADCTL,
};

#[test]
fn rejects_overlapping_devices_and_releases_after_transaction() {
    let mut bus = SharedSpiBus::default();
    let inside = bus.transaction(SpiDevice::Display, |held| held.owner()).unwrap();
    assert_eq!(inside, Some(SpiDevice::Display));
    assert_eq!(bus.owner(), None);
    bus.acquire(SpiDevice::Display).unwrap();
    assert_eq!(bus.owner(), Some(SpiDevice::Display));
    assert!(bus.transaction(SpiDevice::SdCard, |_| ()).is_err());
    bus.release();
    assert_eq!(bus.owner(), None);
    bus.transaction(SpiDevice::Sx1262, |_| ()).unwrap();
}

#[test]
fn instance_buses_do_not_contend_across_virtual_boards() {
    let mut registry = SpiBusRegistry::new();
    registry.spi_bus_for_instance("spi-isolation-first").acquire(SpiDevice::Display).unwrap();
    assert_eq!(registry.spi_bus_for_instance("spi-isolation-first").owner(), Some(SpiDevice::Display));
    assert!(registry.spi_bus_for_instance("spi-isolation-second").transaction(SpiDevice::SdCard, |_| ()).is_ok());
    registry.spi_bus_for_instance("spi-isolation-first").release();
    assert_eq!(registry.spi_bus_for_instance("spi-isolation-second").owner(), None);

    registry.remove_instance("spi-isolation-first");
    registry.remove_instance("spi-isolation-second");
}

#[test]
fn compatibility_bus_follows_the_current_instance_context() {
    let mut registry = SpiBusRegistry::new();
    registry.set_current_instance("spi-context-first");
    registry.global_spi_bus().acquire(SpiDevice::Display).unwrap();
    assert_eq!(registry.spi_bus_for_instance("spi-context-first").owner(), Some(SpiDevice::Display));
    registry.set_current_instance("spi-context-second");
    assert_eq!(registry.global_spi_bus().owner(), None);
    registry.spi_bus_for_instance("spi-context-first").release();

    registry.remove_instance("spi-context-first");
    registry.remove_instance("spi-context-second");
}

#[test]
fn busy_bus_reports_its_owner_and_runs_nothing() {
    let mut bus = SharedSpiBus::default();
    bus.acquire(SpiDevice::SdCard).unwrap();
    let mut ran = false;
    let result = bus.transaction(SpiDevice::Display, |_| {
        ran = true;
    });
    assert_eq!(result, Err(SpiBusError::Busy { active: SpiDevice::SdCard }));
    assert!(!ran);
    assert_eq!(bus.transaction(SpiDevice::Display, |_| 7).err(), Some(SpiBusError::Busy { active: SpiDevice::SdCard }));
}

#[test]
fn legacy_bus_is_used_without_an_instance_context() {
    let mut registry = SpiBusRegistry::new();
    registry.global_spi_bus().acquire(SpiDevice::Sx1262).unwrap();
    assert_eq!(registry.global_spi_bus().owner(), Some(SpiDevice::Sx1262));
    assert_eq!(registry.spi_bus_for_instance("any").owner(), None);
}

#[test]
fn models_t_deck_init_orientation_inversion_backlight_and_wire_pixels() {
    let mut bus = SharedSpiBus::default();
    let mut panel = St7789Controller::new(4, 3);
    assert!(panel.initialize_t_deck(&mut bus).is_err());
    panel.set_reset(false);
    panel.set_reset(true);
    panel.initialize_t_deck(&mut bus).unwrap();
    panel.set_backlight(192);
    assert!(panel.initialized());
    assert_eq!(panel.madctl(), T_DECK_MADCTL);
    assert!(panel.inverted());
    assert_eq!(panel.backlight(), 192);

    panel.write_command(&mut bus, ST7789_CASET, &[0, 0, 0, 1]).unwrap();
    panel.write_command(&mut bus, ST7789_RASET, &[0, 0, 0, 0]).unwrap();
    panel.write_command(&mut bus, ST7789_RAMWR, &[]).unwrap();
    let host: Vec<_> = [0xf800_u16, 0x07e0].into_iter().flat_map(u16::to_ne_bytes).collect();
    panel.write_pixels(&mut bus, &host_rgb565_to_st7789_wire(&host).unwrap()).unwrap();

    let pixel = |x: usize, y: usize| {
        let offset = (y * 4 + x) * 2;
        u16::from_ne_bytes([panel.framebuffer_host_rgb565()[offset], panel.framebuffer_host_rgb565()[offset + 1]])
    };
    assert_eq!(pixel(3, 2), 0xf800);
    assert_eq!(pixel(2, 2), 0x07e0);
}

#[test]
fn panel_refuses_pixels_without_setup_and_malformed_commands() {
    let mut bus = SharedSpiBus::default();
    let mut panel = St7789Controller::new(4, 3);
    assert_eq!(panel.write_pixels(&mut bus, &[0, 0]), Err(St7789Error::NotInitialized));
    assert_eq!(panel.initialize_t_deck(&mut bus), Err(St7789Error::ResetSequenceRequired));
    panel.set_reset(false);
    assert_eq!(panel.initialize_t_deck(&mut bus), Err(St7789Error::HeldInReset));
    assert_eq!(panel.write_pixels(&mut bus, &[0, 0]), Err(St7789Error::HeldInReset));
    panel.set_reset(true);
    panel.initialize_t_deck(&mut bus).unwrap();
    assert_eq!(panel.write_pixels(&mut bus, &[0, 0]), Err(St7789Error::RamWriteNotSelected));
    assert_eq!(panel.write_command(&mut bus, ST7789_MADCTL, &[]), Err(St7789Error::MadctlRequiresOneByte));
    assert_eq!(panel.write_command(&mut bus, ST7789_INVOFF, &[1]), Err(St7789Error::CommandTakesNoData { command: ST7789_INVOFF }));
    assert_eq!(panel.write_command(&mut bus, ST7789_CASET, &[0, 0, 0]), Err(St7789Error::WindowRequiresFourBytes));
    assert_eq!(panel.write_command(&mut bus, ST7789_CASET, &[0, 2, 0, 1]), Err(St7789Error::WindowOutsidePanel));
    assert_eq!(panel.write_command(&mut bus, ST7789_RASET, &[0, 0, 0, 3]), Err(St7789Error::WindowOutsidePanel));
    panel.write_command(&mut bus, ST7789_RAMWR, &[]).unwrap();
    assert_eq!(panel.write_pixels(&mut bus, &[0]), Err(St7789Error::OddByteCount));
    assert_eq!(panel.write_pixels(&mut bus, &[0, 0]), Err(St7789Error::WindowSizeMismatch));
    panel.write_command(&mut bus, ST7789_INVOFF, &[]).unwrap();
    assert!(!panel.inverted());
}

#[test]
fn swapped_orientation_can_map_the_window_outside_gram() {
    let mut bus = SharedSpiBus::default();
    let mut panel = St7789Controller::new(4, 2);
    panel.set_reset(false);
    panel.set_reset(true);
    panel.initialize_t_deck(&mut bus).unwrap();
    panel.write_command(&mut bus, ST7789_MADCTL, &[0x20]).unwrap();
    panel.write_command(&mut bus, ST7789_CASET, &[0, 0, 0, 3]).unwrap();
    panel.write_command(&mut bus, ST7789_RASET, &[0, 0, 0, 0]).unwrap();
    panel.write_command(&mut bus, ST7789_RAMWR, &[]).unwrap();
    let wire = [0x12, 0x34, 0x56, 0x78, 0x9a, 0xbc, 0xde, 0xf0];
    assert_eq!(panel.write_pixels(&mut bus, &wire), Err(St7789Error::MappedOutsideGram));
    let gram = panel.framebuffer_host_rgb565();
    let first = u16::from_ne_bytes([gram[0], gram[1]]);
    let second = u16::from_ne_bytes([gram[8], gram[9]]);
    assert_eq!((first, second), (0x1234, 0x5678));
}

#[test]
fn panel_writes_wait_for_the_shared_bus() {
    let mut bus = SharedSpiBus::default();
    bus.acquire(SpiDevice::SdCard).unwrap();
    let mut panel = St7789Controller::new(4, 3);
    panel.set_reset(false);
    panel.set_reset(true);
    assert_eq!(
        panel.initialize_t_deck(&mut bus),
        Err(St7789Error::Bus(SpiBusError::Busy { active: SpiDevice::SdCard }))
    );
    assert!(!panel.initialized());
    assert_eq!(bus.owner(), Some(SpiDevice::SdCard));
}

#[test]
fn a_transaction_sees_its_device_as_the_owner() {
    let mut bus = SharedSpiBus::default();
    let seen = bus.transaction(SpiDevice::Display, |held| held.owner()).unwrap();
    assert_eq!(seen, Some(SpiDevice::Display));
    assert_eq!(bus.owner(), None);
}

#[test]
fn address_windows_are_big_endian_and_inclusive() {
    assert_eq!(parse_window(&[0x01, 0x00, 0x01, 0x3f], 320), Ok((256, 319)));
    assert_eq!(parse_window(&[0x01, 0x00, 0x01, 0x40], 320), Err(St7789Error::WindowOutsidePanel));
    assert_eq!(parse_window(&[0, 5, 0, 4], 320), Err(St7789Error::WindowOutsidePanel));
}

#[test]
fn bus_owner_codes_name_each_device() {
    assert_eq!(owner_code(None), 0);
    assert_eq!(owner_code(Some(SpiDevice::Display)), 1);
    assert_eq!(owner_code(Some(SpiDevice::Sx1262)), 2);
    assert_eq!(owner_code(Some(SpiDevice::SdCard)), 3);
}

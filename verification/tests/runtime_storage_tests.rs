use mycelium::text::terminated_prefix;
use mycelium::board::PowerState;
use mycelium::nvs::{
    default_path, valid_name, NvsError, NvsRegistry, VirtualNvs, LAUNCHER_NVS_SIZE, NVS_NAME_MAX_BYTES,
    STANDALONE_NVS_SIZE,
};
use mycelium::nvs_image::NvsValue;
use mycelium::runtime::{
    default_battery_mv, InstanceBoardConfig, InstanceDirectory, InstanceError, InstanceResourceRegistry,
    SimulationClock,
};
use mycelium::storage::{
    instance_directory, safe_join, SdCardInfo, SpiffsInfo, StorageError, StorageManager, VirtualSdCard,
    VirtualSpiffs,
};

#[test]
fn unsafe_instance_ids_cannot_escape_the_temp_root() {
    assert_eq!(instance_directory("../../node"), "%2E%2E%2F%2E%2E%2Fnode");
    assert_eq!(instance_directory("normal-node_1"), "normal-node_1");
}

#[test]
fn dot_names_and_empty_ids_are_encoded() {
    assert_eq!(instance_directory("."), "%2E");
    assert_eq!(instance_directory(".."), "%2E%2E");
    assert_eq!(instance_directory(""), "%00");
    assert_eq!(instance_directory("a.b"), "a.b");
    assert_eq!(instance_directory("é"), "%C3%A9");
}

#[test]
fn paths_are_joined_inside_the_base_and_parent_components_refused() {
    assert_eq!(safe_join("/data/spiffs", "/config/settings.bin"), Ok("/data/spiffs/config/settings.bin".to_owned()));
    assert_eq!(safe_join("/data/spiffs/", "config"), Ok("/data/spiffs/config".to_owned()));
    assert_eq!(safe_join("/data/spiffs", "\\\\/./x"), Ok("/data/spiffs/./x".to_owned()));
    assert_eq!(safe_join("/data/spiffs", "../outside"), Err(StorageError::InvalidPath));
    assert_eq!(safe_join("/data/spiffs", "a/../../b"), Err(StorageError::InvalidPath));
    assert_eq!(safe_join("/data/spiffs", "a/.."), Err(StorageError::InvalidPath));
    assert_eq!(safe_join("/data/spiffs", "a..b/..c"), Ok("/data/spiffs/a..b/..c".to_owned()));
    assert_eq!(safe_join("/data/spiffs", ""), Ok("/data/spiffs/".to_owned()));
}

#[test]
fn paths_cannot_escape_an_instance_directory() {
    let mut spiffs = VirtualSpiffs::at_path("test", "/tmp/mycelium-path-traversal".to_owned());
    assert_eq!(spiffs.resolve("../outside"), Err(StorageError::NotMounted));
    spiffs.mark_mounted();
    assert_eq!(spiffs.resolve("../outside"), Err(StorageError::InvalidPath));
    assert_eq!(spiffs.resolve("/inside"), Ok("/tmp/mycelium-path-traversal/inside".to_owned()));
}

#[test]
fn storage_directories_live_under_the_home_directory() {
    let spiffs = VirtualSpiffs::in_home(Some("/home/user".to_owned()), "node/1");
    assert_eq!(spiffs.base_path(), "/home/user/.mycelium/instances/node%2F1/spiffs");
    assert_eq!(spiffs.instance_id(), "node/1");
    assert!(!spiffs.is_mounted());
    let sdcard = VirtualSdCard::in_home(None, "node1");
    assert_eq!(sdcard.base_path(), "./.mycelium/instances/node1/sdcard");
}

#[test]
fn storage_manager_mounts_in_order_and_unmounts_both() {
    let mut storage = StorageManager::new("node1");
    assert!(!storage.init_all(false, true));
    assert!(!storage.spiffs.is_mounted() && !storage.sdcard.is_mounted());
    assert!(!storage.init_all(true, false));
    assert!(storage.spiffs.is_mounted() && !storage.sdcard.is_mounted());
    assert!(storage.init_all(true, true));
    assert!(storage.sdcard.is_mounted());
    storage.unmount_all();
    assert!(!storage.spiffs.is_mounted() && !storage.sdcard.is_mounted());
    assert_eq!(storage.sdcard.resolve("/x"), Err(StorageError::NotMounted));
}

#[test]
fn capacity_reports_saturate_the_used_space() {
    assert_eq!(SpiffsInfo::from_space(100, 40), SpiffsInfo { total_bytes: 100, used_bytes: 60, free_bytes: 40 });
    assert_eq!(SdCardInfo::from_space(10, 40), SdCardInfo { total_bytes: 10, used_bytes: 0, free_bytes: 40 });
}

fn test_nvs(id: &str, size: u32) -> VirtualNvs {
    VirtualNvs::at_path(id, size, format!("/tmp/mycelium-nvs-{id}.json")).unwrap()
}

#[test]
fn preferences_namespaces_types_remove_and_end_match_arduino_semantics() {
    let mut nvs = test_nvs("prefs", STANDALONE_NVS_SIZE);

    assert!(!nvs.begin("missing", true));
    assert!(nvs.begin("touch", false));
    assert_eq!(nvs.put_bool("enabled", true), 1);
    assert_eq!(nvs.put_string("label", "T-Deck"), 6);
    assert!(nvs.is_key("enabled"));
    assert!(nvs.get_bool("enabled", false));
    assert_eq!(nvs.get_string("label", "fallback"), "T-Deck");
    assert_eq!(nvs.get_string("enabled", "wrong-type"), "wrong-type");
    nvs.end();
    assert!(!nvs.is_key("enabled"));
    assert!(!nvs.get_bool("enabled", false));
    assert_eq!(nvs.put_bool("closed", true), 0);

    assert!(nvs.begin("other", false));
    assert!(!nvs.is_key("enabled"));
    assert_eq!(nvs.put_bool("enabled", false), 1);
    nvs.end();

    assert!(nvs.begin("touch", true));
    assert!(nvs.get_bool("enabled", false));
    assert_eq!(nvs.put_bool("blocked", true), 0);
    assert!(!nvs.remove("enabled"));
    nvs.end();

    assert!(nvs.begin("touch", false));
    assert!(nvs.remove("enabled"));
    assert!(!nvs.is_key("enabled"));
    assert!(!nvs.remove("enabled"));
}

#[test]
fn namespace_and_key_limits_are_enforced() {
    let mut nvs = test_nvs("names", STANDALONE_NVS_SIZE);
    assert!(!nvs.begin("", false));
    assert!(!nvs.begin(&"n".repeat(NVS_NAME_MAX_BYTES + 1), false));
    assert!(nvs.begin(&"n".repeat(NVS_NAME_MAX_BYTES), false));
    assert_eq!(nvs.put_bool("", true), 0);
    assert_eq!(nvs.put_bool(&"k".repeat(NVS_NAME_MAX_BYTES + 1), true), 0);
    assert_eq!(nvs.put_bool(&"k".repeat(NVS_NAME_MAX_BYTES), true), 1);
}

#[test]
fn oversized_write_is_rejected_without_losing_the_previous_value() {
    let mut nvs = test_nvs("small", 160);
    assert!(nvs.begin("touch", false));
    assert_eq!(nvs.put_string("value", "fits"), 4);
    assert_eq!(nvs.put_string("value", &"x".repeat(512)), 0);
    assert_eq!(nvs.get_string("value", ""), "fits");
}

#[test]
fn image_is_pretty_json_in_byte_order() {
    let mut nvs = test_nvs("image", STANDALONE_NVS_SIZE);
    assert_eq!(String::from_utf8(nvs.image()).unwrap(), "{\n  \"namespaces\": {}\n}");
    assert!(nvs.begin("touch", false));
    assert_eq!(nvs.put_string("value", "fits"), 4);
    assert_eq!(nvs.put_bool("a\"b", true), 1);
    let expected = "{\n  \"namespaces\": {\n    \"touch\": {\n      \"a\\\"b\": {\n        \"type\": \"bool\",\n        \"value\": true\n      },\n      \"value\": {\n        \"type\": \"string\",\n        \"value\": \"fits\"\n      }\n    }\n  }\n}";
    assert_eq!(String::from_utf8(nvs.image()).unwrap(), expected);
}

#[test]
fn restored_values_are_readable_without_capacity_checks() {
    let mut nvs = test_nvs("restored", 1);
    nvs.restore_value("touch", "sd_mig_busy", NvsValue::Bool(true));
    nvs.restore_namespace("empty");
    assert!(nvs.begin("touch", true));
    assert!(nvs.get_bool("sd_mig_busy", false));
    assert!(nvs.begin("empty", true));
    assert!(!nvs.is_key("sd_mig_busy"));
}

#[test]
fn geometry_switch_keeps_values_and_zero_is_refused() {
    let mut nvs = test_nvs("geometry", STANDALONE_NVS_SIZE);
    assert!(nvs.begin("touch", false));
    assert_eq!(nvs.put_bool("flag", true), 1);
    assert!(!nvs.set_partition_size(0));
    assert!(nvs.set_partition_size(LAUNCHER_NVS_SIZE));
    assert_eq!(nvs.partition_size(), LAUNCHER_NVS_SIZE);
    assert!(nvs.get_bool("flag", false));
}

#[test]
fn nvs_construction_validates_arguments_and_uses_the_default_path() {
    assert_eq!(VirtualNvs::at_path("", 10, "x".to_owned()).err(), Some(NvsError::InvalidArgument));
    assert_eq!(VirtualNvs::at_path("id", 0, "x".to_owned()).err(), Some(NvsError::InvalidArgument));
    let nvs = VirtualNvs::new("node/1", "/tmp").unwrap();
    assert_eq!(nvs.partition_size(), STANDALONE_NVS_SIZE);
    assert_eq!(nvs.backing_path(), "/tmp/mycelium/instances/node%2F1/nvs.json");
    assert_eq!(default_path("/tmp/", "n"), "/tmp/mycelium/instances/n/nvs.json");
    assert!(valid_name("touch"));
    assert!(!valid_name("a\0b"));
}

#[test]
fn registry_reconfigures_live_stores_and_removes_only_the_handle() {
    let mut registry = NvsRegistry::new();
    registry.register_nvs("node", STANDALONE_NVS_SIZE, "/tmp").unwrap();
    {
        let nvs = registry.get_nvs_mut("node").unwrap();
        assert!(nvs.begin("touch", false));
        assert_eq!(nvs.put_bool("flag", true), 1);
    }
    registry.register_nvs("node", LAUNCHER_NVS_SIZE, "/tmp").unwrap();
    assert_eq!(registry.get_nvs("node").unwrap().partition_size(), LAUNCHER_NVS_SIZE);
    assert!(registry.get_nvs("node").unwrap().get_bool("flag", false));
    assert_eq!(registry.register_nvs("node", 0, "/tmp"), Err(NvsError::InvalidArgument));
    assert!(registry.remove_nvs("node").is_some());
    assert!(registry.get_nvs("node").is_none());
    assert!(registry.remove_nvs("node").is_none());
}

#[test]
fn new_manager_is_empty() {
    let manager = InstanceDirectory::new();
    assert!(manager.list().is_empty());
    assert!(!manager.contains("node1"));
}

#[test]
fn killing_an_unknown_instance_is_an_error() {
    let mut manager = InstanceDirectory::new();
    assert!(manager.kill("node1").is_err());
}

#[test]
fn generated_ids_skip_existing_ids() {
    let mut manager = InstanceDirectory::new();
    manager.set_next_id(2);
    assert_eq!(manager.next_available_id(), "node2");
    assert_eq!(manager.next_available_id(), "node3");
}

#[test]
fn generated_ids_step_over_registered_instances() {
    let mut manager = InstanceDirectory::new();
    assert!(manager.register("node1"));
    assert!(manager.register("node2"));
    assert_eq!(manager.next_available_id(), "node3");
}

#[test]
fn explicit_ids_must_be_new_and_listing_is_sorted() {
    let mut manager = InstanceDirectory::new();
    assert_eq!(manager.choose_id(Some("")), Err(InstanceError::EmptyId));
    assert_eq!(manager.choose_id(Some("beta")), Ok("beta".to_owned()));
    assert!(manager.register("beta"));
    assert!(manager.register("alpha"));
    assert!(!manager.register("alpha"));
    assert_eq!(manager.choose_id(Some("beta")), Err(InstanceError::AlreadyExists));
    assert_eq!(manager.choose_id(None), Ok("node1".to_owned()));
    assert_eq!(manager.list(), vec!["alpha".to_owned(), "beta".to_owned()]);
    assert_eq!(manager.kill("alpha"), Ok(()));
    assert_eq!(manager.kill("alpha"), Err(InstanceError::Unknown));
}

#[test]
fn simulation_clock_saturates_and_ignores_backwards_time() {
    let mut clock = SimulationClock::default();
    assert_eq!(clock.advance_by(5), 5);
    assert_eq!(clock.advance_to(3), 5);
    assert_eq!(clock.advance_to(9), 9);
    assert_eq!(clock.advance_by(u64::MAX), u64::MAX);
    assert_eq!(clock.now_ms(), u64::MAX);

    let mut manager = InstanceDirectory::new();
    assert_eq!(manager.tick_all_with_delta(16), (16, 16));
    assert_eq!(manager.tick_all_at(10), 0);
    assert_eq!(manager.tick_all_at(40), 24);
    assert_eq!(manager.simulation_now_ms(), 40);
}

#[test]
fn teardown_stops_firmware_before_releasing_resources_once() {
    let mut resources = InstanceResourceRegistry::new("node1");
    let plan = resources.teardown();
    assert!(plan.stop_firmware && plan.release_host_resources);
    let again = resources.teardown();
    assert!(!again.stop_firmware && !again.release_host_resources);
    assert_eq!(resources.id(), "node1");
}

#[test]
fn launcher_config_selects_the_launcher_nvs_geometry() {
    let launcher = InstanceBoardConfig { launcher_mode: true, ..InstanceBoardConfig::default() };
    assert_eq!(launcher.nvs_partition_size(), LAUNCHER_NVS_SIZE);
    assert_eq!(InstanceBoardConfig::default().nvs_partition_size(), STANDALONE_NVS_SIZE);
    assert_eq!(default_battery_mv(), 3_700);
}

#[test]
fn battery_voltage_can_be_read_and_set() {
    let mut board = PowerState::default();
    assert_eq!(board.get_battery_mv(), 3_900);
    board.set_battery(3_750);
    assert_eq!(board.get_battery_mv(), 3_750);
}

#[test]
fn battery_drop_saturates_and_external_power_prevents_it() {
    let mut board = PowerState::default();
    board.discharge(100);
    assert_eq!(board.get_battery_mv(), 3_800);

    board.external_powered = true;
    board.discharge(100);
    assert_eq!(board.get_battery_mv(), 3_800);

    board.external_powered = false;
    board.discharge(10_000);
    assert_eq!(board.get_battery_mv(), 0);
}

#[test]
fn executable_frame_clock_accumulates_across_multiple_frames() {
    const FRAME_INTERVAL_MS: u64 = 16;
    let mut clock = SimulationClock::default();

    assert_eq!(clock.advance_by(FRAME_INTERVAL_MS), 16);
    assert_eq!(clock.advance_by(FRAME_INTERVAL_MS), 32);
    assert_eq!(clock.advance_by(FRAME_INTERVAL_MS), 48);
    assert_eq!(clock.now_ms(), 48);
}

#[test]
fn c_buffers_receive_a_terminated_possibly_truncated_copy() {
    assert_eq!(terminated_prefix(b"hello", 0), Vec::<u8>::new());
    assert_eq!(terminated_prefix(b"hello", 1), b"\0".to_vec());
    assert_eq!(terminated_prefix(b"hello", 3), b"he\0".to_vec());
    assert_eq!(terminated_prefix(b"hello", 5), b"hell\0".to_vec());
    assert_eq!(terminated_prefix(b"hello", 6), b"hello\0".to_vec());
    assert_eq!(terminated_prefix(b"hello", 64), b"hello\0".to_vec());
}

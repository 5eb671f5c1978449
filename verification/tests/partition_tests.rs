use mycelium::partition::{
    PartitionRegistry, VirtualPartition, VirtualPartitionTable, ESP_PARTITION_SUBTYPE_APP_OTA_0,
    ESP_PARTITION_SUBTYPE_APP_OTA_1, ESP_PARTITION_SUBTYPE_APP_TEST, ESP_PARTITION_SUBTYPE_DATA_NVS,
    ESP_PARTITION_SUBTYPE_DATA_SPIFFS, ESP_PARTITION_TYPE_APP, ESP_PARTITION_TYPE_DATA,
    LAUNCHER_NVS_SIZE, LAUNCHER_OTADATA_ADDRESS, STANDALONE_OTADATA_ADDRESS,
};

#[test]
fn standalone_layout_matches_default_16mb_csv() {
    let table = VirtualPartitionTable::standalone();
    assert_eq!(table.entries().len(), 6);
    assert_eq!(
        table.find_first(ESP_PARTITION_TYPE_DATA, ESP_PARTITION_SUBTYPE_DATA_NVS),
        Some(&VirtualPartition::new(
            "nvs",
            ESP_PARTITION_TYPE_DATA,
            ESP_PARTITION_SUBTYPE_DATA_NVS,
            0x9000,
            0x5000,
        ))
    );
    assert_eq!(table.otadata_address(), Some(0xE000));
    assert_eq!(
        table.find_first(ESP_PARTITION_TYPE_APP, ESP_PARTITION_SUBTYPE_APP_OTA_0),
        Some(&VirtualPartition::new(
            "app0",
            ESP_PARTITION_TYPE_APP,
            ESP_PARTITION_SUBTYPE_APP_OTA_0,
            0x10000,
            0x640000,
        ))
    );
    assert_eq!(
        table.find_first(ESP_PARTITION_TYPE_APP, ESP_PARTITION_SUBTYPE_APP_OTA_1),
        Some(&VirtualPartition::new(
            "app1",
            ESP_PARTITION_TYPE_APP,
            ESP_PARTITION_SUBTYPE_APP_OTA_1,
            0x650000,
            0x640000,
        ))
    );
    assert_eq!(
        table.find_first(ESP_PARTITION_TYPE_DATA, ESP_PARTITION_SUBTYPE_DATA_SPIFFS),
        Some(&VirtualPartition::new(
            "spiffs",
            ESP_PARTITION_TYPE_DATA,
            ESP_PARTITION_SUBTYPE_DATA_SPIFFS,
            0xC90000,
            0x360000,
        ))
    );
    assert!(!table.is_under_launcher());
}

#[test]
fn launcher_layout_has_both_detection_signals_and_smaller_nvs() {
    let table = VirtualPartitionTable::launcher();
    assert_eq!(table.otadata_address(), Some(LAUNCHER_OTADATA_ADDRESS));
    assert_eq!(
        table
            .find_first(ESP_PARTITION_TYPE_DATA, ESP_PARTITION_SUBTYPE_DATA_NVS)
            .map(|partition| partition.size),
        Some(LAUNCHER_NVS_SIZE)
    );
    assert_eq!(
        table.find_first(ESP_PARTITION_TYPE_APP, ESP_PARTITION_SUBTYPE_APP_TEST),
        Some(&VirtualPartition::new(
            "app0",
            ESP_PARTITION_TYPE_APP,
            ESP_PARTITION_SUBTYPE_APP_TEST,
            0x10000,
            0x180000,
        ))
    );
    assert!(table.is_under_launcher());
}

#[test]
fn toggling_layout_changes_all_geometry_not_just_the_detection_flag() {
    let mut table = VirtualPartitionTable::standalone();
    table.set_launcher_mode(true);
    assert_eq!(table, VirtualPartitionTable::launcher());
    assert!(table.is_under_launcher());

    table.set_launcher_mode(false);
    assert_eq!(table, VirtualPartitionTable::standalone());
    assert!(!table.is_under_launcher());
}

#[test]
fn active_table_tracks_the_instance_about_to_run() {
    let mut registry = PartitionRegistry::new();
    let first = "partition-active-standalone";
    let second = "partition-active-launcher";
    registry.register_partition_table(first, false);
    registry.register_partition_table(second, true);

    assert!(registry.activate_partition_table(first));
    assert_eq!(
        registry.active_partition_table().otadata_address(),
        Some(STANDALONE_OTADATA_ADDRESS)
    );
    assert!(registry.activate_partition_table(second));
    assert!(registry.active_partition_table().is_under_launcher());

    registry.remove_partition_table(first);
    registry.remove_partition_table(second);
}

#[test]
fn activating_an_unknown_instance_keeps_the_active_table() {
    let mut registry = PartitionRegistry::new();
    registry.register_partition_table("known", true);
    assert!(!registry.activate_partition_table("unknown"));
    assert!(registry.active_partition_table().is_under_launcher());
    assert!(registry.get_partition_table("unknown").is_none());
    assert!(registry.remove_partition_table("known").is_some());
    assert!(registry.get_partition_table("known").is_none());
}

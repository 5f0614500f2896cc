use govee2mqtt::device_database::{compute_device_name, DeviceDatabase, DiscoverySource, PersistedDevice, StartupMode};

#[test]
fn test_compute_device_name() {
    assert_eq!(compute_device_name("H6072", "AA:BB:CC:DD:EE:FF:00:11"), "H6072_0011");
    assert_eq!(compute_device_name("H6072", "aabbccddeeff0011"), "H6072_0011");
    assert_eq!(compute_device_name("H6072", "1234"), "H6072_1234");
    assert_eq!(compute_device_name("H6072", "12"), "H6072_12");
}

#[test]
fn test_lan_discovery_new_device() {
    let mut db = DeviceDatabase::default();
    let device = db.handle_lan_discovery("AA:BB:CC:DD:EE:FF:00:11", "H6072");

    assert_eq!(device.name, "H6072_0011");
    assert_eq!(device.sku, "H6072");
    assert!(device.api_info.contains_key(DiscoverySource::Lan));
}

#[test]
fn test_api_updates_existing_device() {
    let mut db = DeviceDatabase::default();

    // First, LAN discovery
    db.handle_lan_discovery("AA:BB:CC:DD:EE:FF:00:11", "H6072");

    // Then API enriches it
    db.update_from_api(
        "AA:BB:CC:DD:EE:FF:00:11",
        "H6072",
        "Kitchen Light",
        Some("Kitchen"),
        DiscoverySource::PlatformApi,
    );

    let device = db.get("AA:BB:CC:DD:EE:FF:00:11").unwrap();
    assert_eq!(device.name, "Kitchen Light");
    assert_eq!(device.room, Some("Kitchen".to_string()));
    // Should have both LAN and Platform API entries
    assert!(device.api_info.contains_key(DiscoverySource::Lan));
    assert!(device.api_info.contains_key(DiscoverySource::PlatformApi));
}

#[test]
fn test_startup_mode_detection() {
    // Fresh install
    assert_eq!(StartupMode::detect(false, false), StartupMode::FreshInstall);
    // Upgrade (cache exists, no DB)
    assert_eq!(StartupMode::detect(false, true), StartupMode::Upgrade);
    // Normal (DB exists)
    assert_eq!(StartupMode::detect(true, true), StartupMode::Normal);
}

#[test]
fn test_last_api_sync() {
    let mut db = DeviceDatabase::default();

    // Add via LAN first
    db.handle_lan_discovery_at("AA:BB:CC:DD:EE:FF:00:11", "H6072", 1_000);
    let lan_sync = db.get("AA:BB:CC:DD:EE:FF:00:11").unwrap().last_api_sync();

    // Update via Platform API, 10 ms later
    db.update_from_api_at(
        "AA:BB:CC:DD:EE:FF:00:11",
        "H6072",
        "Test",
        None,
        DiscoverySource::PlatformApi,
        1_010,
    );
    let platform_sync = db.get("AA:BB:CC:DD:EE:FF:00:11").unwrap().last_api_sync();

    // Platform sync should be newer
    assert!(platform_sync > lan_sync);
}

#[test]
fn lan_discovery_keeps_api_name_and_room() {
    let mut db = DeviceDatabase::default();
    db.update_from_api_at("AA:BB", "H6072", "Desk", Some("Office"), DiscoverySource::UndocApi, 5);
    let d = db.handle_lan_discovery_at("AA:BB", "H6072", 9);
    assert_eq!(d.name, "Desk");
    assert_eq!(d.room, Some("Office".to_string()));
    assert!(d.api_info.contains_key(DiscoverySource::UndocApi));
    assert!(d.api_info.contains_key(DiscoverySource::Lan));
}

#[test]
fn api_update_without_room_keeps_room() {
    let mut db = DeviceDatabase::default();
    db.update_from_api_at("X1", "H1", "One", Some("Hall"), DiscoverySource::UndocApi, 1);
    db.update_from_api_at("X1", "H2", "Two", None, DiscoverySource::PlatformApi, 2);
    let d = db.get("X1").unwrap();
    assert_eq!(d.name, "Two");
    assert_eq!(d.sku, "H2");
    assert_eq!(d.room, Some("Hall".to_string()));
    assert_eq!(db.len(), 1);
    assert!(!db.is_empty());
    assert_eq!(db.get_display_name("X1"), Some("Two"));
    assert_eq!(db.get_room("X1"), Some("Hall"));
    assert!(db.contains("X1"));
    assert!(!db.contains("X2"));
}

#[test]
fn database_lists_ids_in_order() {
    let mut db = DeviceDatabase::default();
    db.update_from_api_at("B", "H1", "b", None, DiscoverySource::PlatformApi, 1);
    db.update_from_api_at("A", "H1", "a", None, DiscoverySource::PlatformApi, 1);
    assert_eq!(db.device_ids(), vec!["A", "B"]);
    assert_eq!(db.devices().len(), 2);
}

#[test]
fn insert_replaces_device_under_its_id() {
    let mut db = DeviceDatabase::with_version(2);
    db.insert("K", PersistedDevice::new_minimal_at("K", "H1", DiscoverySource::Lan, 5));
    db.insert("J", PersistedDevice::new_minimal_at("J", "H2", DiscoverySource::Lan, 6));
    db.insert("K", PersistedDevice::new_from_api_at("K", "H3", "Kay", None, DiscoverySource::PlatformApi, 7));
    assert_eq!(db.len(), 2);
    assert_eq!(db.version, 2);
    assert_eq!(db.device_ids(), vec!["J", "K"]);
    assert_eq!(db.get_display_name("K"), Some("Kay"));
    assert_eq!(db.get("K").unwrap().sku, "H3");
}

#[test]
fn persisted_devices_made_now() {
    let d = PersistedDevice::new_minimal("AA:BB:CC:DD:EE:FF:00:11", "H6072", DiscoverySource::Lan);
    assert_eq!(d.name, "H6072_0011");
    assert_eq!(d.room, None);
    assert!(d.api_info.contains_key(DiscoverySource::Lan));
    assert!(!d.api_info.contains_key(DiscoverySource::PlatformApi));
    assert_eq!(d.last_api_sync(), Some(d.first_seen));

    let d = PersistedDevice::new_from_api(
        "AA:BB:CC:DD:EE:FF:00:11",
        "H6072",
        "Desk Lamp",
        Some("Office"),
        DiscoverySource::PlatformApi,
    );
    assert_eq!(d.name, "Desk Lamp");
    assert_eq!(d.room.as_deref(), Some("Office"));
    assert!(d.api_info.contains_key(DiscoverySource::PlatformApi));
    assert_eq!(d.last_api_sync(), Some(d.first_seen));
}

use govee2mqtt::device::Device;

#[test]
fn name_compute() {
    let device = Device::new("H6000", "AA:BB:CC:DD:EE:FF:42:2A");
    assert_eq!(device.name(), "H6000_422A");
}

#[test]
fn govee_name_wins_over_computed_name() {
    let mut device = Device::new("H6000", "AA:BB:CC:DD:EE:FF:42:2A");
    device.set_govee_name("Lamp");
    device.set_room("Den");
    assert_eq!(device.name(), "Lamp");
    assert_eq!(device.computed_name(), "H6000_422A");
    assert_eq!(device.room.as_deref(), Some("Den"));
}

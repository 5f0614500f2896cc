use govee2mqtt::ble::{GoveeBlePacket, HumidifierMode, HumidifierNightlightParams};
use govee2mqtt::lan_api::{DeviceColor, DeviceStatus};
use govee2mqtt::state::{
    choose_control_route, choose_parameter_route, choose_scene_route, clears_active_scene,
    humidifier_parameter_command, nightlight_after, nightlight_command, on_discovery_failure,
    plan_poll, sort_and_dedup_scenes, status_accepts, use_cached_devices, ControlChannels,
    ControlRequest, ControlRoute, DiscoveryStage, FailureResponse, NightlightChange, PollAction,
    PollFacts, SceneRoute, resolve_device,
};
use govee2mqtt::device::Device;

fn strings(v: &[&str]) -> Vec<String> {
    v.iter().map(|s| s.to_string()).collect()
}

#[test]
fn scenes_sorted_by_lower_case_and_deduplicated() {
    let sorted = sort_and_dedup_scenes(strings(&["b", "A", "a", "B", "b", "a"]));
    assert_eq!(sorted, strings(&["A", "a", "b", "B", "b"]));
    assert_eq!(sort_and_dedup_scenes(strings(&["Sunset", "aurora", "Sunset"])), strings(&["aurora", "Sunset"]));
    let once = sort_and_dedup_scenes(strings(&["x", "Y", "x", "y"]));
    assert_eq!(sort_and_dedup_scenes(once.clone()), once);
}

fn channels(is_humidifier: bool, has_lan: bool, has_iot: bool, has_platform: bool) -> ControlChannels {
    ControlChannels { is_humidifier, has_lan, has_iot, has_platform }
}

#[test]
fn control_prefers_lan_then_iot_then_platform() {
    let b = ControlRequest::Brightness(50);
    assert_eq!(choose_control_route(b, channels(false, true, true, true)), Some(ControlRoute::Lan));
    assert_eq!(choose_control_route(b, channels(false, false, true, true)), Some(ControlRoute::Iot));
    assert_eq!(choose_control_route(b, channels(false, false, false, true)), Some(ControlRoute::Platform));
    assert_eq!(choose_control_route(b, channels(false, false, false, false)), None);
    assert_eq!(choose_control_route(b, channels(true, true, true, true)), Some(ControlRoute::Nightlight));
    assert_eq!(choose_control_route(b, channels(true, true, false, true)), None);
    assert_eq!(choose_control_route(ControlRequest::Power(true), channels(true, true, false, true)), Some(ControlRoute::Lan));
    assert!(clears_active_scene(ControlRequest::ColorTemperature(3000), ControlRoute::Platform));
    assert!(!clears_active_scene(ControlRequest::ColorTemperature(3000), ControlRoute::Iot));
    assert_eq!(choose_scene_route(false, true, true), Some(SceneRoute::Platform));
    assert_eq!(choose_scene_route(true, true, true), Some(SceneRoute::Lan));
    assert_eq!(choose_scene_route(true, true, false), None);
    assert_eq!(choose_parameter_route(false, true), Some(ControlRoute::Platform));
}

#[test]
fn lan_status_acceptance() {
    let s = DeviceStatus { on: true, brightness: 40, color: DeviceColor { r: 1, g: 2, b: 3 }, color_temperature_kelvin: 0 };
    assert!(status_accepts(ControlRequest::Power(true), &s));
    assert!(!status_accepts(ControlRequest::Brightness(41), &s));
    assert!(status_accepts(ControlRequest::ColorRgb(DeviceColor { r: 1, g: 2, b: 3 }), &s));
}

#[test]
fn nightlight_commands() {
    let p = nightlight_after(None, NightlightChange::Brightness(30));
    assert_eq!(p, HumidifierNightlightParams { on: true, r: 0, g: 0, b: 0, brightness: 30 });
    let cmd = nightlight_command(Some(p), NightlightChange::Power(false));
    let decoded = GoveeBlePacket::parse_base64(&cmd).unwrap();
    assert_eq!(
        decoded,
        GoveeBlePacket::SetHumidifierNightlight(HumidifierNightlightParams { on: false, r: 0, g: 0, b: 0, brightness: 30 })
    );
    let cmd = humidifier_parameter_command(1, 0x120);
    let bytes = GoveeBlePacket::parse_base64(&cmd).unwrap().into_vec();
    assert_eq!(&bytes[0..4], &[0x33, 0x05, 0x01, 0x20]);
    let _ = HumidifierMode { mode: 1, param: 0x20 };
}

#[test]
fn polling_keeps_quota() {
    let facts = PollFacts {
        ble_only: None,
        has_lan_device: true,
        has_lan_client: true,
        last_polled_ms: Some(0),
        state_updated_ms: Some(0),
        poll_interval_ms: 1000,
        needs_platform: false,
    };
    let plan = plan_poll(&facts, 5000);
    assert!(plan.query_lan);
    assert_eq!(plan.action, PollAction::Nothing);
    let plan = plan_poll(&PollFacts { has_lan_device: false, ..facts }, 5000);
    assert_eq!(plan.action, PollAction::IotThenPlatform);
    let plan = plan_poll(&PollFacts { needs_platform: true, ..facts }, 5000);
    assert_eq!(plan.action, PollAction::Platform);
    let plan = plan_poll(&PollFacts { needs_platform: true, ..facts }, 500);
    assert_eq!(plan.action, PollAction::Nothing);
    let plan = plan_poll(&PollFacts { ble_only: Some(true), ..facts }, 5000);
    assert!(!plan.query_lan);
}

#[test]
fn startup_failures() {
    assert_eq!(on_discovery_failure(DiscoveryStage::PlatformApi, 0, false), FailureResponse::Fatal);
    assert_eq!(on_discovery_failure(DiscoveryStage::PlatformApi, 3, false), FailureResponse::Continue);
    assert_eq!(on_discovery_failure(DiscoveryStage::UndocApi, 0, true), FailureResponse::Continue);
    assert_eq!(on_discovery_failure(DiscoveryStage::UndocApi, 0, false), FailureResponse::Fatal);
    assert!(use_cached_devices(false, 2));
    assert!(!use_cached_devices(true, 2));
}

#[test]
fn labels_resolve_to_devices() {
    let mut lamp = Device::new("H6000", "AA:BB:CC:DD:EE:FF:42:2A");
    lamp.set_govee_name("Desk Lamp");
    let strip = Device::new("H6072", "AA:BB:CC:DD:EE:FF:00:11");
    let devices = vec![lamp, strip];
    let addresses = vec![None, Some("10.0.0.7".to_string())];
    assert_eq!(resolve_device(&devices, &addresses, "AA:BB:CC:DD:EE:FF:00:11"), Some(1));
    assert_eq!(resolve_device(&devices, &addresses, "desk lamp"), Some(0));
    assert_eq!(resolve_device(&devices, &addresses, "h6072_0011"), Some(1));
    assert_eq!(resolve_device(&devices, &addresses, "aabbccddeeff422a"), Some(0));
    assert_eq!(resolve_device(&devices, &addresses, "10.0.0.7"), Some(1));
    assert_eq!(resolve_device(&devices, &addresses, "nothing"), None);
}

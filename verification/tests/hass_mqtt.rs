use govee2mqtt::device::Device;
use govee2mqtt::hass_mqtt::{
    device_type_of, entity_config_topic, ButtonConfig, CapabilitySensor, DeviceState, EntityDevice, Fan,
    GlobalFixedDiagnostic, Humidifier, LightConfig, LightFacts, LightStatePayload, SceneConfig,
    SceneModeSelect, SwitchConfig, TargetTemperatureEntity, WorkModeNumber, WorkModeSelect,
};
use govee2mqtt::platform_api::OptionValue;
use govee2mqtt::temperature::TemperatureScale;
use govee2mqtt::quirks::resolve_quirk;
use govee2mqtt::lan_api::DeviceColor;
use govee2mqtt::platform_api::{DeviceCapability, DeviceCapabilityKind, DeviceParameters, DeviceType, HttpDeviceInfo, IntegerRange};

fn lamp() -> Device {
    Device::new("H6000", "AA:BB:CC:DD:EE:FF:42:2A")
}

fn cap(instance: &str) -> DeviceCapability {
    DeviceCapability {
        kind: DeviceCapabilityKind::Toggle,
        instance: instance.to_string(),
        parameters: None,
        alarm_type: None,
        event_state: None,
    }
}

#[test]
fn buttons() {
    let b = ButtonConfig::new("Purge Caches", "gv2mqtt/purge-caches");
    assert_eq!(b.base.unique_id, "global-purge_caches");
    assert_eq!(b.base.name.as_deref(), Some("Purge Caches"));
    assert!(matches!(b.base.device, EntityDevice::Service));
    assert_eq!(b.command_topic, "gv2mqtt/purge-caches");

    let d = lamp();
    let b = ButtonConfig::activate_work_mode_preset(&d, "Preset 2", "Fan Mode", 3, -2);
    assert_eq!(b.base.unique_id, "gv2mqtt-AABBCCDDEEFF422A-preset-fan_mode-3--2");
    assert_eq!(b.command_topic, "gv2mqtt/number/AABBCCDDEEFF422A/command/fan_mode/3");
    assert_eq!(b.payload_press.as_deref(), Some("-2"));

    let b = ButtonConfig::request_platform_data_for_device(&d);
    assert_eq!(b.command_topic, "gv2mqtt/AABBCCDDEEFF422A/request-platform-data");
    assert_eq!(b.base.entity_category.as_deref(), Some("diagnostic"));

    let b = ButtonConfig::for_device(&d, &cap("oscillationToggle"));
    assert_eq!(b.base.name.as_deref(), Some("Oscillation Toggle"));
    assert_eq!(b.command_topic, "gv2mqtt/switch/AABBCCDDEEFF422A/command/oscillationToggle");
}

#[test]
fn switches_and_sensors() {
    let d = lamp();
    let s = SwitchConfig::for_device(&d, &cap("powerSwitch"));
    assert_eq!(s.state_topic, "gv2mqtt/switch/AABBCCDDEEFF422A/powerSwitch/state");
    assert_eq!(s.base.unique_id, "gv2mqtt-AABBCCDDEEFF422A-powerSwitch");

    let g = GlobalFixedDiagnostic::new("Version", "1.2.3");
    assert_eq!(g.sensor.state_topic, "gv2mqtt/sensor/global-version/state");
    assert_eq!(g.value, "1.2.3");

    let c = CapabilitySensor::new(&d, &cap("sensorTemperature"));
    assert_eq!(c.sensor.base.name.as_deref(), Some("Temperature"));
    assert_eq!(c.sensor.unit_of_measurement.as_deref(), Some("°C"));
    assert_eq!(c.sensor.base.unique_id, "sensor-AABBCCDDEEFF422A-sensortemperature");
}

#[test]
fn lights() {
    let d = lamp();
    let facts = LightFacts {
        device_type: DeviceType::Light,
        supports_rgb: true,
        color_temperature_range: Some((2000, 9000)),
        platform_brightness: false,
    };
    let l = LightConfig::for_device(&d, None, &facts, vec!["Sunset".to_string()]);
    assert_eq!(l.command_topic, "gv2mqtt/light/AABBCCDDEEFF422A/command");
    assert_eq!(l.supported_color_modes, vec!["rgb".to_string(), "color_temp".to_string()]);
    assert_eq!(l.min_mireds, Some(111));
    assert_eq!(l.max_mireds, Some(500));
    assert_eq!(l.effect_list, vec!["Sunset".to_string()]);
    assert_eq!(l.base.unique_id, "gv2mqtt-AABBCCDDEEFF422A");
    assert!(!l.optimistic);

    let seg = LightConfig::for_device(&d, Some(4), &facts, vec!["Sunset".to_string()]);
    assert_eq!(seg.base.name.as_deref(), Some("Segment 005"));
    assert_eq!(seg.command_topic, "gv2mqtt/light/AABBCCDDEEFF422A/command/4");
    assert_eq!(seg.base.unique_id, "gv2mqtt-AABBCCDDEEFF422A-4");
    assert!(seg.effect_list.is_empty());
    assert!(seg.brightness);
    assert!(seg.optimistic);
    assert!(seg.state_payload(&None, DeviceType::Light, None).is_none());

    let state = Some(DeviceState { on: true, brightness: 70, color: DeviceColor { r: 1, g: 2, b: 3 }, kelvin: 4000, scene: None });
    match l.state_payload(&state, DeviceType::Light, None) {
        Some(LightStatePayload::ColorTemp { brightness, color_temp, .. }) => {
            assert_eq!(brightness, 70);
            assert_eq!(color_temp, 250);
        }
        _ => panic!("expected a colour temperature"),
    }
    assert!(matches!(l.state_payload(&state, DeviceType::Humidifier, Some(false)), Some(LightStatePayload::Off)));
}

#[test]
fn fans_humidifiers_and_selects() {
    let d = lamp();
    let info = Some(HttpDeviceInfo {
        sku: "H7160".to_string(),
        device: "AA".to_string(),
        device_name: "Humidifier".to_string(),
        device_type: DeviceType::Humidifier,
        capabilities: vec![DeviceCapability {
            kind: DeviceCapabilityKind::Range,
            instance: "humidity".to_string(),
            parameters: Some(DeviceParameters::Integer {
                unit: Some("unit.percent".to_string()),
                range: IntegerRange { min: 40, max: 80, precision: 1 },
            }),
            alarm_type: None,
            event_state: None,
        }],
    });
    let h = Humidifier::new(&d, DeviceType::Humidifier, false, vec!["Auto".to_string()], &info);
    assert_eq!(h.humidifier.min_humidity, Some(40));
    assert_eq!(h.humidifier.max_humidity, Some(80));
    assert!(h.humidifier.optimistic);
    assert!(h.humidifier.base.name.is_none());
    let report = h.humidifier.report(None, None);
    assert_eq!(report.power, "OFF");
    assert_eq!(report.level, 40);
    assert!(report.record_level);

    let f = Fan::new(&d, DeviceType::Humidifier, true, vec![], &info);
    assert_eq!(f.fan.base.name.as_deref(), Some("Fan"));
    assert_eq!(f.fan.speed_range_min, None);
    assert_eq!(f.fan.percentage_command_topic, "gv2mqtt/fan/AABBCCDDEEFF422A/set-speed");
    let report = f.fan.report(Some(true), Some(3));
    assert_eq!(report.power, "ON");
    assert_eq!(report.level, 3);
    assert!(!report.record_level);

    let w = WorkModeSelect::new(&d, vec!["Auto".to_string()]);
    assert_eq!(w.select.command_topic, "gv2mqtt/AABBCCDDEEFF422A/set-work-mode");
    assert!(SceneModeSelect::new(&d, vec![]).is_none());
    assert!(SceneModeSelect::new(&d, vec!["Sunset".to_string()]).is_some());
}

#[test]
fn config_topics_and_published_entities() {
    let b = ButtonConfig::new("Purge Caches", "gv2mqtt/purge-caches");
    let (topic, published) = entity_config_topic("homeassistant", "button", &b.base);
    assert_eq!(topic, "homeassistant/button/global-purge_caches/config");
    assert_eq!(published.unique_id, "global-purge_caches");
    assert_eq!(published.integration, "button");
}

#[test]
fn work_mode_numbers() {
    let d = lamp();
    let n = WorkModeNumber::new(&d, "Manual: Mist Level", "Manual", &OptionValue::Integer(1), Some((1, 10)));
    assert_eq!(n.base.unique_id, "gv2mqtt-AABBCCDDEEFF422A-Manual-number");
    assert_eq!(n.base.name.as_deref(), Some("Manual: Mist Level"));
    assert_eq!(n.command_topic, "gv2mqtt/number/AABBCCDDEEFF422A/command/Manual/1");
    assert_eq!(n.state_topic, "gv2mqtt/number/AABBCCDDEEFF422A/state/manual");
    assert_eq!((n.min, n.max, n.step), (1, 9, 1));
    assert_eq!(n.device_id, "AA:BB:CC:DD:EE:FF:42:2A");

    let n = WorkModeNumber::new(&d, "Odd", "Odd Mode", &OptionValue::Other("\"x\"".to_string()), None);
    assert_eq!(n.command_topic, "gv2mqtt/number/AABBCCDDEEFF422A/command/Odd Mode/work-mode-was-not-int");
    assert_eq!(n.state_topic, "gv2mqtt/number/AABBCCDDEEFF422A/state/odd_mode");
    assert_eq!((n.min, n.max), (0, 255));
}

#[test]
fn target_temperature_entity() {
    let d = lamp();
    let t = TargetTemperatureEntity::new(&d, &cap("targetTemperature"), TemperatureScale::Fahrenheit);
    assert_eq!(t.base.unique_id, "AABBCCDDEEFF422A-targettemperature");
    assert_eq!(t.base.name.as_deref(), Some("Target Temperature"));
    assert_eq!(t.base.icon.as_deref(), Some("mdi:thermometer"));
    assert_eq!(t.command_topic, "gv2mqtt/AABBCCDDEEFF422A/set-temperature/°F");
    assert_eq!(t.unit_of_measurement, "°F");
}

#[test]
fn one_click_scene() {
    let s = SceneConfig::one_click("Good Night");
    assert_eq!(s.base.unique_id, "gv2mqtt-one-click-f9cb98e55260566ea0371644399af1c3");
    assert_eq!(s.base.name.as_deref(), Some("Good Night"));
    assert!(matches!(s.base.device, EntityDevice::Service));
    assert_eq!(s.command_topic, "gv2mqtt/oneclick");
    assert_eq!(s.payload_on, "Good Night");
}

#[test]
fn light_facts_from_api_and_quirk() {
    let quirk = resolve_quirk("H60A1");
    let facts = LightFacts::for_device(&None, &quirk);
    assert_eq!(facts.device_type, DeviceType::Light);
    assert_eq!(facts.color_temperature_range, Some((2200, 6500)));
    assert!(!facts.platform_brightness);
    assert_eq!(device_type_of(&None, &resolve_quirk("H7160")), DeviceType::Humidifier);
    assert_eq!(device_type_of(&None, &None), DeviceType::Light);
    let info = HttpDeviceInfo {
        sku: "H60A1".to_string(),
        device: "AA".to_string(),
        device_name: "Ceiling".to_string(),
        device_type: DeviceType::Light,
        capabilities: vec![cap("colorRgb"), cap("brightness")],
    };
    let facts = LightFacts::for_device(&Some(info), &quirk);
    assert!(facts.supports_rgb);
    assert!(facts.platform_brightness);
    assert_eq!(facts.color_temperature_range, Some((2200, 6500)));
}

use govee2mqtt::platform_api::{
    endpoint, ControlValue, DeviceCapability, DeviceCapabilityKind, DeviceParameters, DeviceType,
    EnumOption, GoveeApiArguments, HttpDeviceInfo, IntegerRange, MusicModeError, OptionValue,
    PlatformError, StructField,
};
use govee2mqtt::env::{EnvVar, SettingError};

fn option(name: &str, value: OptionValue) -> EnumOption {
    EnumOption { name: name.to_string(), value, extras: vec![], mode_options: None }
}

fn toggle(instance: &str) -> DeviceCapability {
    DeviceCapability {
        kind: DeviceCapabilityKind::Toggle,
        instance: instance.to_string(),
        parameters: Some(DeviceParameters::Enum {
            options: vec![option("on", OptionValue::Integer(1)), option("off", OptionValue::Integer(0))],
        }),
        alarm_type: None,
        event_state: None,
    }
}

fn integer(instance: &str, min: u32, max: u32) -> DeviceCapability {
    DeviceCapability {
        kind: DeviceCapabilityKind::Range,
        instance: instance.to_string(),
        parameters: Some(DeviceParameters::Integer {
            unit: None,
            range: IntegerRange { min, max, precision: 1 },
        }),
        alarm_type: None,
        event_state: None,
    }
}

fn scenes(kind: DeviceCapabilityKind, names: &[&str]) -> DeviceCapability {
    DeviceCapability {
        kind,
        instance: "lightScene".to_string(),
        parameters: Some(DeviceParameters::Enum {
            options: names
                .iter()
                .enumerate()
                .map(|(i, n)| option(n, OptionValue::Other(format!("{{\"id\":{i}}}"))))
                .collect(),
        }),
        alarm_type: None,
        event_state: None,
    }
}

fn device() -> HttpDeviceInfo {
    HttpDeviceInfo {
        sku: "H6072".to_string(),
        device: "AA:BB".to_string(),
        device_name: "Lamp".to_string(),
        device_type: DeviceType::Light,
        capabilities: vec![
            toggle("powerSwitch"),
            integer("brightness", 1, 100),
            integer("colorTemperatureK", 2000, 9000),
            DeviceCapability {
                kind: DeviceCapabilityKind::ColorSetting,
                instance: "colorRgb".to_string(),
                parameters: None,
                alarm_type: None,
                event_state: None,
            },
            scenes(DeviceCapabilityKind::DynamicScene, &["Sunset", "aurora"]),
        ],
    }
}

#[test]
fn endpoint_and_arguments() {
    assert_eq!(endpoint("/router/api/v1/user/devices"), "https://openapi.api.govee.com/router/api/v1/user/devices");
    let args = GoveeApiArguments { api_key: None };
    match args.api_key(&EnvVar::Missing) {
        Err(SettingError::Required { message }) => assert!(message.contains("--api-key")),
        _ => panic!("expected a missing key"),
    }
    let client = args.api_client(&EnvVar::Text("secret".to_string())).ok().unwrap();
    assert_eq!(client.key, "secret");
}

#[test]
fn capabilities_are_found_by_instance() {
    let d = device();
    assert!(d.supports_rgb());
    assert!(d.supports_brightness());
    assert_eq!(d.get_color_temperature_range(), Some((2000, 9000)));
    assert!(d.capability_by_instance("nothing").is_none());
    assert_eq!(d.capabilities[0].enum_parameter_by_name("on"), Some(1));
    assert_eq!(d.capabilities[0].enum_parameter_by_name("maybe"), None);
}

#[test]
fn controls_clamp_and_pack() {
    let d = device();
    let c = d.power_control(true).ok().unwrap();
    assert_eq!(c.instance, "powerSwitch");
    assert!(matches!(c.value, ControlValue::Number(1)));
    let c = d.value_control("brightness", 250).ok().unwrap();
    assert!(matches!(c.value, ControlValue::Choice(OptionValue::Integer(250))));
    assert_eq!(c.instance, "brightness");
    assert!(matches!(d.value_control("humidity", 40), Err(PlatformError::NoCapability { .. })));
    let c = d.brightness_control(0).ok().unwrap();
    assert!(matches!(c.value, ControlValue::Number(1)));
    let c = d.color_temperature_control(10000).ok().unwrap();
    assert!(matches!(c.value, ControlValue::Number(9000)));
    let c = d.color_rgb_control(0x12, 0x34, 0x56).ok().unwrap();
    assert!(matches!(c.value, ControlValue::Number(0x123456)));
    assert_eq!(c.sku, "H6072");
    assert_eq!(c.device, "AA:BB");
    match d.toggle_control("nightlight", true) {
        Err(PlatformError::NoCapability { instance }) => assert_eq!(instance, "nightlight"),
        _ => panic!("expected a missing capability"),
    }
}

#[test]
fn scene_names_are_sorted_and_deduplicated() {
    let d = device();
    let extra = vec![scenes(DeviceCapabilityKind::DynamicSetting, &["Sunset", "Breathe"])];
    let names = d.list_scene_names(&vec![], &vec![], &extra).ok().unwrap();
    assert_eq!(names, vec!["aurora", "Breathe", "Sunset"]);
}

#[test]
fn scenes_are_found_ignoring_case() {
    let d = device();
    let c = d.scene_control(&vec![], &vec![], &vec![], "SUNSET").ok().unwrap();
    assert_eq!(c.instance, "lightScene");
    match c.value {
        ControlValue::Choice(OptionValue::Other(t)) => assert_eq!(t, "{\"id\":0}"),
        _ => panic!("expected the scene's value"),
    }
    match d.scene_control(&vec![], &vec![], &vec![], "Rainbow") {
        Err(PlatformError::SceneNotAvailable { scene }) => assert_eq!(scene, "Rainbow"),
        _ => panic!("expected an unknown scene"),
    }
    let bad = vec![integer("lightScene", 0, 1)];
    let mut bad_cap = bad;
    bad_cap[0].kind = DeviceCapabilityKind::DynamicScene;
    match d.scene_control(&bad_cap, &vec![], &vec![], "Rainbow") {
        Err(PlatformError::UnexpectedParameters { instance }) => assert_eq!(instance, "lightScene"),
        _ => panic!("expected unexpected parameters"),
    }
}

fn music_device() -> HttpDeviceInfo {
    HttpDeviceInfo {
        sku: "H6199".to_string(),
        device: "AA".to_string(),
        device_name: "Strip".to_string(),
        device_type: DeviceType::Light,
        capabilities: vec![DeviceCapability {
            kind: DeviceCapabilityKind::MusicSetting,
            instance: "musicMode".to_string(),
            parameters: Some(DeviceParameters::Struct {
                fields: vec![StructField {
                    field_name: "musicMode".to_string(),
                    field_type: DeviceParameters::Enum {
                        options: vec![option("Energic", OptionValue::Integer(5)), option("Rhythm", OptionValue::Integer(3))],
                    },
                    default_value: None,
                    required: true,
                }],
            }),
            alarm_type: None,
            event_state: None,
        }],
    }
}

#[test]
fn music_modes() {
    let info = music_device();
    assert_eq!(info.music_mode_names().ok().unwrap(), vec!["Energic".to_string(), "Rhythm".to_string()]);
    let c = info.music_control("rhythm", 100, true, Some((1, 2, 3))).ok().unwrap();
    assert_eq!(c.instance, "musicMode");
    assert!(matches!(&c.value, ControlValue::Choice(OptionValue::Other(t))
        if t == "{\"autoColor\":1,\"musicMode\":3,\"rgb\":66051,\"sensitivity\":100}"));
    let c = info.music_control("Energic", 50, false, None).ok().unwrap();
    assert!(matches!(&c.value, ControlValue::Choice(OptionValue::Other(t))
        if t == "{\"autoColor\":0,\"musicMode\":5,\"rgb\":null,\"sensitivity\":50}"));
    assert!(matches!(info.music_control("Disco", 50, false, None), Err(MusicModeError::ModeNotFound { mode }) if mode == "Disco"));
    assert!(matches!(device().music_mode_names(), Err(MusicModeError::NoMusicMode)));
}

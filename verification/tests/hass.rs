use govee2mqtt::device::Device;
use govee2mqtt::env::{EnvVar, IntErrorKind, SettingError};
use govee2mqtt::hass::{
    availability_topic, camel_case_to_space_separated, kelvin_to_mired, light_segment_state_topic,
    light_state_topic, mired_to_kelvin, oneclick_topic, plan_light_command, plan_segment_command,
    plan_switch_command, purge_cache_topic, switch_instance_state_topic, topic_safe_id,
    topic_safe_string, HassArguments, HassLightCommand, LightAction, SegmentAction,
    SegmentCommandError, SwitchAction, SwitchCommandError,
};
use govee2mqtt::lan_api::DeviceColor;
use govee2mqtt::temperature::TemperatureScale;

#[test]
fn test_camel_case_to_space_separated() {
    assert_eq!(camel_case_to_space_separated("powerSwitch"), "Power Switch");
    assert_eq!(camel_case_to_space_separated("oscillationToggle"), "Oscillation Toggle");
}

#[test]
fn topics() {
    let d = Device::new("H6000", "AA:BB:CC:DD:EE:FF:42:2A");
    assert_eq!(topic_safe_id(&d), "AABBCCDDEEFF422A");
    assert_eq!(light_state_topic(&d), "gv2mqtt/light/AABBCCDDEEFF422A/state");
    assert_eq!(light_segment_state_topic(&d, 12), "gv2mqtt/light/AABBCCDDEEFF422A/state/12");
    assert_eq!(
        switch_instance_state_topic(&d, "powerSwitch"),
        "gv2mqtt/switch/AABBCCDDEEFF422A/powerSwitch/state"
    );
    assert_eq!(availability_topic(), "gv2mqtt/availability");
    assert_eq!(oneclick_topic(), "gv2mqtt/oneclick");
    assert_eq!(purge_cache_topic(), "gv2mqtt/purge-caches");
    assert_eq!(topic_safe_string("Living Room: Lamp/1"), "living_room__lamp_1");
}

#[test]
fn mired_kelvin_conversion() {
    assert_eq!(mired_to_kelvin(153), 6535);
    assert_eq!(kelvin_to_mired(6500), 153);
    assert_eq!(mired_to_kelvin(0), 0);
    assert_eq!(kelvin_to_mired(0), 0);
}

fn args() -> HassArguments {
    HassArguments {
        mqtt_host: None,
        mqtt_port: None,
        mqtt_username: None,
        mqtt_password: None,
        mqtt_bind_address: None,
        hass_discovery_prefix: "homeassistant".to_string(),
        temperature_scale: None,
    }
}

#[test]
fn broker_settings_from_environment() {
    let a = args();
    assert_eq!(a.mqtt_port(&EnvVar::Missing).ok(), Some(1883));
    assert_eq!(a.mqtt_port(&EnvVar::Text("1884".to_string())).ok(), Some(1884));
    match a.mqtt_port(&EnvVar::Text("port".to_string())) {
        Err(SettingError::Invalid { name, reason }) => {
            assert_eq!(name, "GOVEE_MQTT_PORT");
            assert_eq!(reason, "invalid digit found in string");
        }
        _ => panic!("expected an invalid port"),
    }
    match a.mqtt_port(&EnvVar::Text("70000".to_string())) {
        Err(e) => assert_eq!(
            e.message(),
            "parsing $GOVEE_MQTT_PORT: number too large to fit in target type"
        ),
        _ => panic!("expected a port out of range"),
    }
    match a.mqtt_host(&EnvVar::Missing) {
        Err(SettingError::Required { message }) => assert!(message.contains("--mqtt-host")),
        _ => panic!("expected a missing host"),
    }
    assert_eq!(a.mqtt_host(&EnvVar::Text("broker".to_string())).ok(), Some("broker".to_string()));
    match a.mqtt_username(&EnvVar::NotUnicode) {
        Err(SettingError::NotUnicode { name }) => assert_eq!(name, "GOVEE_MQTT_USER"),
        _ => panic!("expected a variable that is not unicode"),
    }
    assert_eq!(a.temperature_scale(&EnvVar::Missing).ok(), Some(TemperatureScale::Celsius));
    assert_eq!(
        a.temperature_scale(&EnvVar::Text("F".to_string())).ok(),
        Some(TemperatureScale::Fahrenheit)
    );
}

#[test]
fn arguments_win_over_environment() {
    let mut a = args();
    a.mqtt_port = Some(8883);
    a.mqtt_host = Some("arg-host".to_string());
    a.temperature_scale = Some("frogs".to_string());
    assert_eq!(a.mqtt_port(&EnvVar::Text("1".to_string())).ok(), Some(8883));
    assert_eq!(a.mqtt_host(&EnvVar::Text("env".to_string())).ok(), Some("arg-host".to_string()));
    match a.temperature_scale(&EnvVar::Missing) {
        Err(e) => assert_eq!(e.message(), "Unknown temperature scale frogs"),
        _ => panic!("expected an unknown scale"),
    }
}

#[test]
fn int_error_messages() {
    assert_eq!(IntErrorKind::Empty.message(), "cannot parse integer from empty string");
}

fn command(state: &str) -> HassLightCommand {
    HassLightCommand { state: state.to_string(), color_temp: None, color: None, effect: None, brightness: None }
}

#[test]
fn light_commands() {
    // Off
    let plan = plan_light_command(&command("OFF"), true);
    assert!(matches!(plan.as_slice(), [LightAction::PowerOn(false)]));
    let plan = plan_light_command(&command("OFF"), false);
    assert!(matches!(plan.as_slice(), [LightAction::SetBrightness(0)]));
    // Plain on
    let plan = plan_light_command(&command("ON"), true);
    assert!(matches!(plan.as_slice(), [LightAction::PowerOn(true)]));
    let plan = plan_light_command(&command("ON"), false);
    assert!(matches!(plan.as_slice(), [LightAction::SetBrightness(100)]));
    // Brightness and colour temperature
    let mut c = command("ON");
    c.brightness = Some(40);
    c.color_temp = Some(153);
    let plan = plan_light_command(&c, true);
    assert!(matches!(plan.as_slice(), [LightAction::SetBrightness(40), LightAction::SetColorTemperature(6535)]));
    // A scene ends the command
    let mut c = command("ON");
    c.effect = Some("Sunrise".to_string());
    c.color = Some(DeviceColor { r: 1, g: 2, b: 3 });
    let plan = plan_light_command(&c, true);
    assert_eq!(plan.len(), 1);
    match &plan[0] {
        LightAction::SetScene(s) => assert_eq!(s, "Sunrise"),
        _ => panic!("expected a scene"),
    }
}

#[test]
fn segment_and_switch_commands() {
    let mut c = command("ON");
    c.brightness = Some(10);
    c.color = Some(DeviceColor { r: 1, g: 2, b: 3 });
    assert_eq!(
        plan_segment_command(&c, true, true),
        Ok(vec![SegmentAction::SetBrightness(10), SegmentAction::SetColorRgb(DeviceColor { r: 1, g: 2, b: 3 })])
    );
    assert_eq!(plan_segment_command(&command("OFF"), true, true), Ok(vec![]));
    assert_eq!(plan_segment_command(&c, false, true), Err(SegmentCommandError::PlatformUnavailable));
    assert_eq!(plan_segment_command(&c, true, false), Err(SegmentCommandError::MissingDeviceInfo));

    assert_eq!(plan_switch_command("ON", "powerSwitch", false, false), Ok(SwitchAction::DevicePower(true)));
    assert_eq!(plan_switch_command("off", "oscillationToggle", true, true), Ok(SwitchAction::PlatformToggle(false)));
    assert_eq!(plan_switch_command("maybe", "powerSwitch", true, true), Err(SwitchCommandError::InvalidCommand));
    assert_eq!(plan_switch_command("on", "nightlight", false, true), Err(SwitchCommandError::Unsupported));
    assert_eq!(plan_switch_command("on", "nightlight", true, false), Err(SwitchCommandError::NoPlatformState));
}

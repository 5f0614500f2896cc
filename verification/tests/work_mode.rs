use govee2mqtt::platform_api::{
    DeviceCapability, DeviceCapabilityKind, DeviceParameters, DeviceType, EnumOption, HttpDeviceInfo,
    IntegerRange, ModeOption, OptionValue, StructField,
};
use govee2mqtt::entities::{
    plan_device_entities, temperature_setting, work_mode_entities, EntityPlan, TemperatureSettingError,
    WorkModeEntity,
};
use govee2mqtt::temperature::TemperatureUnits;
use govee2mqtt::quirks::Quirk;
use govee2mqtt::work_mode::{
    choose_target_route, plan_humidity_target, HumidityTargetAction, HumidityTargetError, ModeCommandError,
    ParsedWorkMode, TargetRoute, WorkModeError,
};

fn work_mode_capability() -> DeviceCapability {
    DeviceCapability {
        kind: DeviceCapabilityKind::WorkMode,
        instance: "workMode".to_string(),
        alarm_type: None,
        event_state: None,
        parameters: Some(DeviceParameters::Struct {
            fields: vec![
                StructField {
                    field_name: "workMode".to_string(),
                    field_type: DeviceParameters::Enum {
                        options: vec![EnumOption {
                            name: "Normal".to_string(),
                            value: OptionValue::Integer(1),
                            extras: vec![],
                            mode_options: None,
                        }],
                    },
                    default_value: None,
                    required: true,
                },
                StructField {
                    field_name: "modeValue".to_string(),
                    field_type: DeviceParameters::Enum {
                        options: vec![EnumOption {
                            name: "Normal".to_string(),
                            value: OptionValue::Other("null".to_string()),
                            extras: vec![(
                                "options".to_string(),
                                "[{\"value\":1},{\"value\":2},{\"value\":3},{\"value\":4},{\"value\":5},{\"value\":6},{\"value\":7},{\"value\":8}]".to_string(),
                            )],
                            mode_options: Some(
                                (1..=8)
                                    .map(|v| ModeOption { name: None, value: OptionValue::Integer(v) })
                                    .collect(),
                            ),
                        }],
                    },
                    default_value: None,
                    required: true,
                },
            ],
        }),
    }
}

#[test]
fn work_mode_test_work_mode_parser() {
    let cap = work_mode_capability();
    let wm = ParsedWorkMode::with_capability(&cap).ok().unwrap();

    // We shouldn't show this as a set of preset buttons, because
    // we should get a contiguous range that we can show as a slider
    assert!(wm.mode_by_name("Normal").unwrap().contiguous_value_range().is_some());

    assert_eq!(wm.modes.len(), 1);
    let normal = &wm.modes[0];
    assert_eq!(normal.name, "Normal");
    assert!(matches!(normal.value, OptionValue::Integer(1)));
    assert_eq!(normal.label, "");
    assert_eq!(normal.values.len(), 8);
    for (i, v) in normal.values.iter().enumerate() {
        let n = (i + 1) as i64;
        assert!(matches!(v.value, OptionValue::Integer(x) if x == n));
        assert!(v.name.is_none());
        assert_eq!(v.computed_label, format!("Activate Normal Preset {n}"));
    }
}

#[test]
fn contiguous_ranges() {
    let cap = work_mode_capability();
    let wm = ParsedWorkMode::with_capability(&cap).ok().unwrap();
    assert_eq!(wm.modes[0].contiguous_value_range(), Some((1, 9)));
    assert_eq!(wm.work_mode_parameter("Normal"), Ok((1, 1)));
    assert_eq!(wm.work_mode_parameter("Turbo"), Err(ModeCommandError::ModeNotFound));
    assert_eq!(wm.humidity_target_parameter(50), Err(ModeCommandError::ModeNotFound));
    assert_eq!(wm.get_mode_names(), vec!["Normal".to_string()]);
}

#[test]
fn labels_and_devices() {
    let cap = work_mode_capability();
    let info = Some(HttpDeviceInfo {
        sku: "H7131".to_string(),
        device: "AA".to_string(),
        device_name: "Heater".to_string(),
        device_type: DeviceType::Heater,
        capabilities: vec![cap],
    });
    let wm = ParsedWorkMode::with_device("H6000", &info).ok().unwrap();
    assert_eq!(wm.modes[0].label(), "Normal");
    assert!(wm.mode_by_label("Normal").is_some());
    assert!(matches!(ParsedWorkMode::with_device("H6000", &None), Err(WorkModeError::NoPlatformState)));
    assert_eq!(choose_target_route(false, true), TargetRoute::Platform);
    assert_eq!(choose_target_route(true, true), TargetRoute::WorkMode);
}

#[test]
fn modes_are_sorted_and_replaced_by_name() {
    let mut wm = ParsedWorkMode::new();
    wm.add("gearMode", OptionValue::Integer(1));
    wm.add("Auto", OptionValue::Integer(3));
    wm.add("Manual", OptionValue::Integer(2));
    wm.add("Auto", OptionValue::Integer(4));
    assert_eq!(wm.get_mode_names(), vec!["Auto".to_string(), "Manual".to_string(), "gearMode".to_string()]);
    assert_eq!(wm.mode_number("Auto"), Ok(4));
    assert_eq!(wm.humidity_target_parameter(60), Ok((4, 188)));
    assert_eq!(wm.mode_for_value(&OptionValue::Integer(2)).unwrap().name, "Manual");
    wm.adjust_for_device("H7160");
    assert_eq!(wm.mode_by_name("Manual").unwrap().label(), "Manual: Mist Level");
    assert_eq!(wm.mode_by_name("Auto").unwrap().label(), "Auto");
}

#[test]
fn labels_sorted_and_modes_with_presets() {
    let mut wm = ParsedWorkMode::new();
    wm.add("gearMode", OptionValue::Integer(1));
    wm.add("Manual", OptionValue::Integer(2));
    wm.adjust_for_device("H7160");
    assert_eq!(wm.get_mode_labels(), vec!["Manual: Mist Level".to_string(), "gearMode".to_string()]);
    assert!(wm.modes_with_values().is_empty());
    let cap = work_mode_capability();
    let wm = ParsedWorkMode::with_capability(&cap).ok().unwrap();
    let with_values = wm.modes_with_values();
    assert_eq!(with_values.len(), 1);
    assert_eq!(with_values[0].name, "Normal");
}

#[test]
fn work_mode_entities_choose_buttons_or_slider() {
    let cap = work_mode_capability();
    let mut wm = ParsedWorkMode::with_capability(&cap).ok().unwrap();
    wm.add("gearMode", OptionValue::Integer(2));
    let entities = work_mode_entities(&wm, &None);
    assert_eq!(entities.len(), 2);
    assert!(matches!(&entities[0], WorkModeEntity::Number { label, mode_name, mode_num: 1, min: 1, max: 9 }
        if label == "Normal" && mode_name == "Normal"));
    assert!(matches!(&entities[1], WorkModeEntity::PresetButton { label, mode_name, mode_num: 2, value: 0 }
        if label == "Activate Mode: gearMode" && mode_name == "gearMode"));

    let quirk = Some(Quirk::light("H6000", "mdi:lamp").with_show_as_preset_modes(&["Normal"]));
    let entities = work_mode_entities(&wm, &quirk);
    assert_eq!(entities.len(), 9);
    assert!(matches!(&entities[7], WorkModeEntity::PresetButton { label, mode_num: 1, value: 8, .. }
        if label == "Activate Normal Preset 8"));
}

#[test]
fn device_entities_follow_capabilities() {
    let cap = work_mode_capability();
    let plan = plan_device_entities(true, true, false, Some(&vec![cap]));
    assert_eq!(
        plan,
        vec![EntityPlan::StatusDiagnostic, EntityPlan::RequestPlatformData, EntityPlan::Light, EntityPlan::WorkModes(0)]
    );
    assert!(plan_device_entities(false, true, true, None).is_empty());
    assert_eq!(
        plan_device_entities(true, false, true, None),
        vec![EntityPlan::StatusDiagnostic, EntityPlan::RequestPlatformData, EntityPlan::Humidifier]
    );
}

fn temperature_capability(default_unit: Option<&str>, range_unit: Option<&str>) -> DeviceCapability {
    DeviceCapability {
        kind: DeviceCapabilityKind::TemperatureSetting,
        instance: "targetTemperature".to_string(),
        alarm_type: None,
        event_state: None,
        parameters: Some(DeviceParameters::Struct {
            fields: vec![
                StructField {
                    field_name: "unit".to_string(),
                    field_type: DeviceParameters::Enum { options: vec![] },
                    default_value: default_unit.map(|u| format!("\"{u}\"")),
                    required: false,
                },
                StructField {
                    field_name: "temperature".to_string(),
                    field_type: DeviceParameters::Integer {
                        unit: range_unit.map(|u| u.to_string()),
                        range: IntegerRange { min: 40, max: 100, precision: 1 },
                    },
                    default_value: None,
                    required: true,
                },
            ],
        }),
    }
}

#[test]
fn target_temperature_units() {
    let s = temperature_setting(&temperature_capability(Some("Celsius"), None)).ok().unwrap();
    assert_eq!(s.units, TemperatureUnits::Celsius);
    assert_eq!(s.range_units, TemperatureUnits::Celsius);
    assert_eq!(s.range, IntegerRange { min: 40, max: 100, precision: 1 });
    let s = temperature_setting(&temperature_capability(None, Some("Celsius"))).ok().unwrap();
    assert_eq!(s.units, TemperatureUnits::Fahrenheit);
    assert_eq!(s.range_units, TemperatureUnits::Celsius);
    assert_eq!(temperature_setting(&work_mode_capability()), Err(TemperatureSettingError::NoTemperatureField));
}

#[test]
fn enumerator_test_work_mode_parser() {
    let cap = work_mode_capability();
    let wm = ParsedWorkMode::with_capability(&cap).ok().unwrap();

    // We shouldn't show this as a set of preset buttons, because
    // we should get a contiguous range that we can show as a slider
    assert!(wm.mode_by_name("Normal").unwrap().contiguous_value_range().is_some());

    assert_eq!(wm.modes.len(), 1);
    let normal = &wm.modes[0];
    assert_eq!(normal.name, "Normal");
    assert!(matches!(normal.value, OptionValue::Integer(1)));
    assert_eq!(normal.label, "");
    assert_eq!(normal.values.len(), 8);
    for (i, v) in normal.values.iter().enumerate() {
        let n = (i + 1) as i64;
        assert!(matches!(v.value, OptionValue::Integer(x) if x == n));
        assert!(v.name.is_none());
        assert_eq!(v.computed_label, format!("Activate Normal Preset {n}"));
    }
}

#[test]
fn humidity_targets_follow_the_channel() {
    let mut modes = ParsedWorkMode::new();
    modes.add("Manual", OptionValue::Integer(1));
    modes.add("Auto", OptionValue::Integer(3));
    assert_eq!(plan_humidity_target(false, true, Some(&modes), 55), Ok(HumidityTargetAction::Capability(55)));
    assert_eq!(
        plan_humidity_target(true, true, Some(&modes), 55),
        Ok(HumidityTargetAction::WorkMode { work_mode: 3, value: 183 })
    );
    assert_eq!(
        plan_humidity_target(false, false, Some(&modes), 0),
        Ok(HumidityTargetAction::WorkMode { work_mode: 3, value: 128 })
    );
    assert_eq!(plan_humidity_target(false, false, Some(&modes), 200), Err(HumidityTargetError::OutOfRange));
    assert_eq!(plan_humidity_target(false, false, None, 55), Err(HumidityTargetError::NoWorkModes));
    let mut manual = ParsedWorkMode::new();
    manual.add("Manual", OptionValue::Integer(1));
    assert_eq!(
        plan_humidity_target(false, false, Some(&manual), 55),
        Err(HumidityTargetError::Mode(ModeCommandError::ModeNotFound))
    );
}

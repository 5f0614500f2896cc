use govee2mqtt::lan_api::{
    next_retry_interval, scan_addresses, scan_response_ip, split_commas_trimmed, truthy, DiscoOptions,
    InterfaceInfo, IpAddress, LanDiscoArguments, LanDiscoEnv,
};
use govee2mqtt::platform_api::DeviceType;
use govee2mqtt::env::{EnvVar, SettingError};
use govee2mqtt::quirks::{resolve_quirk, Quirk, FLOOR_LAMP};
use govee2mqtt::temperature::{split_numeric_prefix, scale_for_suffix, TemperatureScale, TemperatureUnits};

#[test]
fn booleans() {
    assert_eq!(truthy("Yes").ok(), Some(true));
    assert_eq!(truthy("off").ok(), Some(false));
    assert_eq!(truthy("1").ok(), Some(true));
    assert!(truthy("maybe").is_err());
}

#[test]
fn discovery_settings() {
    let args = LanDiscoArguments {
        no_multicast: false,
        broadcast_all: false,
        global_broadcast: false,
        scan: vec!["10.0.0.5".to_string()],
        disco_timeout: 3,
    };
    let env = LanDiscoEnv {
        no_multicast: Some("true".to_string()),
        broadcast_all: None,
        broadcast_global: Some("0".to_string()),
        scan: Some(" 10.0.0.6 , lamp.local".to_string()),
    };
    let s = args.to_disco_settings(&env).ok().unwrap();
    assert!(!s.enable_multicast);
    assert!(!s.global_broadcast);
    assert_eq!(s.scan_names, vec!["10.0.0.5", "10.0.0.6", "lamp.local"]);
    assert_eq!(args.disco_timeout(&EnvVar::Missing).ok(), Some(3));
    assert_eq!(args.disco_timeout(&EnvVar::Text("9".to_string())).ok(), Some(9));
    match args.disco_timeout(&EnvVar::Text("soon".to_string())) {
        Err(SettingError::Invalid { name, reason }) => {
            assert_eq!(name, "GOVEE_LAN_DISCO_TIMEOUT");
            assert_eq!(reason, "invalid digit found in string");
        }
        _ => panic!("expected an invalid setting"),
    }
    assert!(matches!(
        args.disco_timeout(&EnvVar::NotUnicode),
        Err(SettingError::NotUnicode { .. })
    ));
    assert_eq!(split_commas_trimmed("a, b ,c"), vec!["a", "b", "c"]);
}

#[test]
fn scans_and_retries() {
    let options = DiscoOptions {
        enable_multicast: true,
        additional_addresses: vec![IpAddress::V4(0x0a000005)],
        broadcast_all_interfaces: true,
        global_broadcast: true,
    };
    let ifaces = vec![
        InterfaceInfo { is_loopback: true, broadcast: Some(IpAddress::V4(0x7fffffff)) },
        InterfaceInfo { is_loopback: false, broadcast: Some(IpAddress::V4(0x0a0000ff)) },
    ];
    let addrs = scan_addresses(&options, &ifaces);
    assert!(addrs.contains(&IpAddress::V4(0x0a0000ff)));
    assert!(!addrs.contains(&IpAddress::V4(0x7fffffff)));
    assert!(addrs.contains(&IpAddress::V4(0xffffffff)));
    assert!(addrs.contains(&IpAddress::V4(0x0a000005)));
    assert!(!DiscoOptions::default().is_empty());
    assert_eq!(next_retry_interval(2_000), 4_000);
    assert_eq!(next_retry_interval(40_000), 60_000);
    assert_eq!(scan_response_ip(IpAddress::V4(0), IpAddress::V4(0x0a000007)), IpAddress::V4(0x0a000007));
    assert_eq!(scan_response_ip(IpAddress::V4(5), IpAddress::V4(0x0a000007)), IpAddress::V4(5));
}

#[test]
fn quirks() {
    let q = resolve_quirk("H6072").unwrap();
    assert_eq!(q.icon, FLOOR_LAMP);
    assert!(q.lan_api_capable);
    assert_eq!(q.device_type, DeviceType::Light);
    let h = resolve_quirk("H7160").unwrap();
    assert_eq!(h.device_type, DeviceType::Humidifier);
    assert!(h.iot_api_supported);
    assert!(resolve_quirk("H0000").is_none());
    let rope = resolve_quirk("H60B0").unwrap();
    assert_eq!(rope.sku, "H60B0");
    assert_eq!(rope.device_type, DeviceType::Light);
    assert!(rope.lan_api_capable);
    let custom = Quirk::light("H9999", "mdi:lamp").with_color_temp_range(2000, 6500).with_show_as_preset_modes(&["Normal"]);
    assert_eq!(custom.color_temp_range, Some((2000, 6500)));
    assert!(custom.should_show_mode_as_preset("Normal"));
    assert!(!custom.should_show_mode_as_preset("Auto"));
}

#[test]
fn temperature_scales() {
    assert_eq!(TemperatureScale::parse("°F").ok(), Some(TemperatureScale::Fahrenheit));
    assert_eq!(TemperatureScale::parse("frogs").err().unwrap().message(), "Unknown temperature scale frogs");
    assert_eq!(TemperatureUnits::CelsiusTimes100.to_display_string(), "°C*100");
    assert_eq!(TemperatureUnits::Fahrenheit.to_display_string(), "°F");
    let (num, rest) = split_numeric_prefix(" 23 C ");
    assert_eq!(num, "23");
    assert_eq!(rest, "C");
    assert_eq!(scale_for_suffix("", Some(TemperatureScale::Fahrenheit)).ok(), Some(TemperatureScale::Fahrenheit));
    assert!(scale_for_suffix("frogs", None).is_err());
}

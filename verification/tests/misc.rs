use govee2mqtt::clock::now_millis;
use govee2mqtt::iot::{iot_key_material, pem, IotKeyError};
use govee2mqtt::pfx::{bmp_password, pfx_shape_ok};
use govee2mqtt::temperature::TemperatureScale;
use govee2mqtt::strings::is_whitespace;
use govee2mqtt::cache::{is_fresh, plan_store, CacheGetOptions, CacheResult, ComputeOutcome, PriorEntry, StorePlan};
use govee2mqtt::env::{parse_unsigned, IntErrorKind};
use govee2mqtt::iot::{apply_iot_update, is_device_compatible, status_transaction, IotPacket, IotStateUpdate};
use govee2mqtt::lan_api::{DeviceColor, DeviceStatus};
use govee2mqtt::rest_api::{endpoint as rest_endpoint, RestApiClient, SupportedCommand};
use govee2mqtt::undoc_api::{
    lan_scene_code, lan_scene_codes, ms_timestamp, room_for_group, GroupEntry, parse_one_clicks, should_log_sensitive_data,
    synthesize_platform_api_scene_list, user_agent, GoveeUndocumentedApi, LightEffectCategory,
    LightEffectEntry, LightEffectScene, OneClick, OneClickComponent, OneClickIotRule, Redacted,
    UndocApiArguments,
};
use govee2mqtt::platform_api::{DeviceParameters, OptionValue};
use govee2mqtt::env::EnvVar;
use govee2mqtt::version_info::govee_version;

fn options(allow_stale: bool) -> CacheGetOptions {
    CacheGetOptions {
        key: "device-list".to_string(),
        topic: "http-api".to_string(),
        soft_ttl: 900_000,
        hard_ttl: 604_800_000,
        negative_ttl: 60_000,
        allow_stale,
    }
}

#[test]
fn cache_rules() {
    assert!(is_fresh(10, 9));
    assert!(!is_fresh(10, 10));
    assert_eq!(plan_store(ComputeOutcome::Value, None, &options(true), 1_000), StorePlan::StoreValue { expires_ms: 901_000 });
    assert_eq!(plan_store(ComputeOutcome::WithTtl(5), None, &options(true), 1_000), StorePlan::StoreValue { expires_ms: 1_005 });
    assert_eq!(
        plan_store(ComputeOutcome::Failed, Some(PriorEntry::Error), &options(true), 1_000),
        StorePlan::StoreStale { expires_ms: 61_000, replace_error: true }
    );
    assert_eq!(
        plan_store(ComputeOutcome::Failed, Some(PriorEntry::Value), &options(false), 1_000),
        StorePlan::StoreError { expires_ms: 61_000 }
    );
    assert_eq!(CacheResult::Success(3).into_result(), Ok(3));
    assert_eq!(CacheResult::<u8>::Failure("boom".to_string()).into_result(), Err("boom".to_string()));
}

#[test]
fn unsigned_parsing() {
    assert_eq!(parse_unsigned("+42", 100), Ok(42));
    assert_eq!(parse_unsigned("", 100), Err(IntErrorKind::Empty));
    assert_eq!(parse_unsigned("-1", 100), Err(IntErrorKind::InvalidDigit));
    assert_eq!(parse_unsigned("+", 100), Err(IntErrorKind::InvalidDigit));
    assert_eq!(parse_unsigned("101", 100), Err(IntErrorKind::PosOverflow));
    assert_eq!(parse_unsigned("999x", 100), Err(IntErrorKind::PosOverflow));
    assert_eq!(parse_unsigned("9x9", 100), Err(IntErrorKind::InvalidDigit));
}

#[test]
fn iot_state_reports() {
    let base = DeviceStatus { on: false, brightness: 10, color: DeviceColor { r: 0, g: 0, b: 0 }, color_temperature_kelvin: 0 };
    let update = IotStateUpdate { on_off: None, brightness: Some(60), color: None, color_temperature_kelvin: None, sku: None };
    let s = apply_iot_update(Some(base), None, &update);
    assert!(s.on);
    assert_eq!(s.brightness, 60);
    let update = IotStateUpdate { on_off: Some(0), brightness: None, color: Some(DeviceColor { r: 9, g: 8, b: 7 }), color_temperature_kelvin: None, sku: None };
    let s = apply_iot_update(None, Some(base), &update);
    assert!(!s.on);
    assert_eq!(s.color, DeviceColor { r: 9, g: 8, b: 7 });
    let s = apply_iot_update(None, None, &IotStateUpdate { on_off: None, brightness: None, color: None, color_temperature_kelvin: None, sku: None });
    assert_eq!(s, DeviceStatus::default());
    let packet = IotPacket {
        sku: None,
        device: "AA".to_string(),
        cmd: "status".to_string(),
        state: IotStateUpdate { on_off: None, brightness: None, color: None, color_temperature_kelvin: None, sku: Some("H6072".to_string()) },
    };
    assert_eq!(packet.sku(), Some("H6072"));
    assert!(is_device_compatible(&Some("topic".to_string())));
    let t = status_transaction();
    assert!(t.starts_with("v_") && t.ends_with("000"));
}

#[test]
fn rest_api_names() {
    assert_eq!(rest_endpoint("/v1/devices"), "https://developer-api.govee.com/v1/devices");
    assert_eq!(RestApiClient::new("k").key, "k");
    for c in [SupportedCommand::Turn, SupportedCommand::ColorTemperature, SupportedCommand::Gear] {
        assert_eq!(SupportedCommand::parse(c.as_str()), Some(c));
    }
    assert_eq!(SupportedCommand::parse("dance"), None);
}

#[test]
fn account_api() {
    assert!(should_log_sensitive_data(&EnvVar::Text("yes".to_string())));
    assert!(!should_log_sensitive_data(&EnvVar::Text("maybe".to_string())));
    assert!(!should_log_sensitive_data(&EnvVar::Missing));
    assert_eq!(user_agent(), "GoveeHome/5.6.01 (com.ihoment.GoVeeSensor; build:2; iOS 16.5.0) Alamofire/5.6.4");
    assert!(ms_timestamp().chars().all(|c| c.is_ascii_digit()));
    let api = GoveeUndocumentedApi::new("someone@example.com", "pw");
    assert_eq!(api.client_id.len(), 32);
    assert_ne!(api.client_id, "someone@example.com");
    let again = GoveeUndocumentedApi::new("someone@example.com", "other");
    assert_eq!(api.client_id, again.client_id);
    assert_eq!(api.client_id, "f645eb068d1a535f8004fbe42449c943");
    assert_eq!(
        api.invalidate_account_login(),
        ("undoc-api".to_string(), "account-info".to_string())
    );
    assert_eq!(
        api.invalidate_community_login(),
        ("undoc-api".to_string(), "community-login".to_string())
    );
    let args = UndocApiArguments {
        govee_email: None,
        govee_password: Some("pw".to_string()),
        govee_iot_key: "/dev/shm/govee.iot.key".to_string(),
        govee_iot_cert: "/dev/shm/govee.iot.cert".to_string(),
        amazon_root_ca: "AmazonRootCA1.pem".to_string(),
    };
    assert!(args.api_client(&EnvVar::Missing, &EnvVar::Missing).is_err());
    let c = args.api_client(&EnvVar::Text("a@b".to_string()), &EnvVar::Missing).ok().unwrap();
    assert_eq!(c.email, "a@b");
    assert_eq!(c.password, "pw");
}

#[test]
fn one_clicks() {
    let groups = vec![OneClickComponent {
        name: "Home".to_string(),
        one_clicks: vec![
            OneClick { name: "Empty".to_string(), iot_rules: vec![] },
            OneClick {
                name: "Evening".to_string(),
                iot_rules: vec![
                    OneClickIotRule { topic: Some(Redacted("t1".to_string())), iot_msgs: vec!["{}".to_string()] },
                    OneClickIotRule { topic: None, iot_msgs: vec!["{\"a\":1}".to_string()] },
                ],
            },
        ],
    }];
    let parsed = parse_one_clicks(&groups);
    assert_eq!(parsed.len(), 1);
    assert_eq!(parsed[0].name, "One-Click: Home: Evening");
    assert_eq!(parsed[0].entries.len(), 1);
    assert_eq!(parsed[0].entries[0].topic.0, "t1");
    assert_eq!(parsed[0].entries[0].msgs, vec!["{}".to_string()]);
}

#[test]
fn version() {
    assert_eq!(govee_version("", "2024.1.0"), "2024.1.0");
    assert_eq!(govee_version("ci-123", "2024.1.0"), "ci-123");
}

fn effect(param_id: u32, code: u16) -> LightEffectEntry {
    LightEffectEntry {
        scence_param_id: param_id,
        scence_name: String::new(),
        scence_param: String::new(),
        scene_code: code,
    }
}

fn catalog() -> Vec<LightEffectCategory> {
    vec![
        LightEffectCategory {
            category_id: 1,
            category_name: "Natural".to_string(),
            scenes: vec![
                LightEffectScene {
                    scene_id: 10,
                    scene_name: "Sunrise".to_string(),
                    scene_code: 0,
                    light_effects: vec![effect(101, 0), effect(102, 77)],
                },
                LightEffectScene {
                    scene_id: 11,
                    scene_name: "Empty".to_string(),
                    scene_code: 0,
                    light_effects: vec![],
                },
            ],
        },
        LightEffectCategory {
            category_id: 2,
            category_name: "Party".to_string(),
            scenes: vec![LightEffectScene {
                scene_id: 12,
                scene_name: "sunrise".to_string(),
                scene_code: 0,
                light_effects: vec![effect(201, 88)],
            }],
        },
    ]
}

#[test]
fn light_effect_library_scenes() {
    let caps = synthesize_platform_api_scene_list(&catalog());
    assert_eq!(caps.len(), 1);
    assert_eq!(caps[0].instance, "lightScene");
    match &caps[0].parameters {
        Some(DeviceParameters::Enum { options }) => {
            assert_eq!(options.len(), 2);
            assert_eq!(options[0].name, "Sunrise");
            assert!(matches!(&options[0].value, OptionValue::Other(t) if t == "{\"id\":10,\"paramId\":101}"));
            assert_eq!(options[1].name, "sunrise");
            assert!(matches!(&options[1].value, OptionValue::Other(t) if t == "{\"id\":12,\"paramId\":201}"));
        }
        _ => panic!("expected an enumeration"),
    }

    let codes = lan_scene_codes(&catalog());
    assert_eq!(codes, vec![("Sunrise".to_string(), 77), ("sunrise".to_string(), 88)]);
    assert_eq!(lan_scene_code(&codes, "SUNRISE"), Some(88));
    assert_eq!(lan_scene_code(&codes, "Empty"), None);
}

#[test]
fn rooms_come_from_the_last_group_with_the_id() {
    let groups = vec![
        GroupEntry { group_id: 1, group_name: "Kitchen".to_string() },
        GroupEntry { group_id: 2, group_name: "Office".to_string() },
        GroupEntry { group_id: 1, group_name: "Dining".to_string() },
    ];
    assert_eq!(room_for_group(&groups, 1).as_deref(), Some("Dining"));
    assert_eq!(room_for_group(&groups, 2).as_deref(), Some("Office"));
    assert_eq!(room_for_group(&groups, 3), None);
    assert_eq!(room_for_group(&vec![], 1), None);
}

#[test]
fn whitespace_matches_std() {
    for c in (0u32..=0x10FFFF).filter_map(char::from_u32) {
        assert_eq!(is_whitespace(c), c.is_whitespace(), "{c:?}");
    }
}

fn joined(parts: &[&str]) -> String {
    parts.concat()
}

#[test]
fn pem_text_in_lines_of_64() {
    let der: Vec<u8> = (0..50).collect();
    assert_eq!(pem("TEST", &der), "-----BEGIN TEST-----\nAAECAwQFBgcICQoLDA0ODxAREhMUFRYXGBkaGxwdHh8gISIjJCUmJygpKissLS4v\nMDE=\n-----END TEST-----\n");
    assert_eq!(pem("EMPTY", &[]), "-----BEGIN EMPTY-----\n-----END EMPTY-----\n");
}

#[test]
fn iot_credentials_open_with_their_password() {
    let p12 = joined(&[
        "MIIDPQIBAzCCAwMGCSqGSIb3DQEHAaCCAvQEggLwMIIC7DCCAccGCSqGSIb3DQEHBqCCAbgwggG0AgEAMIIBrQYJKo",
        "ZIhvcNAQcBMBwGCiqGSIb3DQEMAQMwDgQIJ4ihqoiw6MECAggAgIIBgIoeCwk6VLig6vXJHsa4GrhKAzMzhwCfBnBl",
        "C1MHPjffzqPrcWARzG5asB102fs0+/b4btSYRo+2YuCI2AO65Y8gaAuF/SAtTtU/JkU7wiAOQpAEECmCsI9wKOgvip",
        "M+AOPBAD7cLYRGVhCzDmdAxl5+/r2mLU8VhKL73kHZLKA/9DERunFT5vDC2j+p54iiyRK1BuApNc4HKM7QS/ODoxbb",
        "pfBaEeviEBR+P5MxZkTE7x+YaWKDvZ0WJz2MFZcFfoBHTMDNfZYWuJ5oTRHUURN+MaBICoojImPa27Yfxxlc+klBAj",
        "iuWa+gVyUl6/KJjlvddnIiISPrXsGWagX3MiGyn3cCbJFztNl61gBj/uPLF5YDi0ZmU23HQEb/rNNfY5qFzc9FRhVM",
        "BsXlwYm4sxFenGhzlPIi0V6arLaaMaG4l4PwMipTEuc13kzYwDf5LdLdGznSwqJDjg0j9o6jR10E1FrE5fXyQrRuV2",
        "r/FCMEm6C6lIefPlR1gPi48Zbv9TCCAR0GCSqGSIb3DQEHAaCCAQ4EggEKMIIBBjCCAQIGCyqGSIb3DQEMCgECoIG0",
        "MIGxMBwGCiqGSIb3DQEMAQMwDgQI+RF4AuIr9QACAggABIGQWBEXxmQIDGLAR/JRCAoGhgW3a6gcVTKNk0oTW9xnFX",
        "Qx8/O+samnvPKzY5HuMyWyPFvvODvBkPkK6iu0yqisGMHeKgtJas9XKM10ZoM+lXJ39LuLz+HDXoBjdIxSquaYvks4",
        "ArRKz1wZuL/z0RVfmY+BfX9kJQCp0Uhlf692kFNzRaW6ov+p6gcKiuQLO7NYMTwwFQYJKoZIhvcNAQkUMQgeBgBpAG",
        "8AdDAjBgkqhkiG9w0BCRUxFgQULYxuSBTfyD6Jx8/FEAh5xrmFqn0wMTAhMAkGBSsOAwIaBQAEFMX6WCl52a7uzZ2S",
        "81CjbBBsWXPXBAjt5V8O3/wPVwICCAA=",
    ]);
    let cert = joined(&[
        "MIIBCDCBr6ADAgECAgEBMAoGCCqGSM49BAMCMA4xDDAKBgNVBAMMA2lvdDAeFw0yNDAxMDEwMDAwMDBaFw0zNDAxMD",
        "EwMDAwMDBaMA4xDDAKBgNVBAMMA2lvdDBZMBMGByqGSM49AgEGCCqGSM49AwEHA0IABANAw/khUL1hIVV5QMP2T68U",
        "EXw6AtF4TdBuZbFztwdorTEmSUY/T5ZkKUQCfY4gHGav4kIspWmsAFdck1mepjAwCgYIKoZIzj0EAwIDSAAwRQIhAI",
        "d7vtcd3tgXCisO+CfLRgTtxE6JkHu6K59Ba1OlIqFnAiAJcbfXZhqbKMshH8kKvGrnlyLK3PExwOWqLyb3V0k19w==",
    ]);
    let key = joined(&[
        "MIGHAgEAMBMGByqGSM49AgEGCCqGSM49AwEHBG0wawIBAQQgrq+13V5Iwhrz2kFRJX3Qd6893SQBzP+ADtXHZfYpSB",
        "ahRANCAAQDQMP5IVC9YSFVeUDD9k+vFBF8OgLReE3QbmWxc7cHaK0xJklGP0+WZClEAn2OIBxmr+JCLKVprABXXJNZ",
        "nqYw",
    ]);
    let (keys, certs) = iot_key_material(&p12, "secret").unwrap();
    assert_eq!(certs, vec![base64_bytes(&cert)]);
    assert_eq!(keys, vec![base64_bytes(&key)]);
    assert_eq!(iot_key_material(&p12, "wrong"), Err(IotKeyError::NotPkcs12));
    assert_eq!(iot_key_material("not base64!", "secret"), Err(IotKeyError::NotBase64));
    assert_eq!(iot_key_material("AAEC", "secret"), Err(IotKeyError::Unsupported));
    assert_eq!(iot_key_material("MAA=", "secret"), Err(IotKeyError::Unsupported));
}

fn base64_bytes(text: &str) -> Vec<u8> {
    data_encoding::BASE64.decode(text.as_bytes()).unwrap()
}

fn der(tag: u8, content: &[u8]) -> Vec<u8> {
    let mut out = vec![tag];
    let n = content.len();
    if n < 128 {
        out.push(n as u8);
    } else if n < 256 {
        out.extend([0x81, n as u8]);
    } else {
        out.extend([0x82, (n / 256) as u8, (n % 256) as u8]);
    }
    out.extend_from_slice(content);
    out
}

fn cat(parts: &[Vec<u8>]) -> Vec<u8> {
    parts.concat()
}

const DATA: [u8; 9] = [0x2a, 0x86, 0x48, 0x86, 0xf7, 0x0d, 0x01, 0x07, 0x01];
const ENCRYPTED: [u8; 9] = [0x2a, 0x86, 0x48, 0x86, 0xf7, 0x0d, 0x01, 0x07, 0x06];
const TRIPLE_DES: [u8; 10] = [0x2a, 0x86, 0x48, 0x86, 0xf7, 0x0d, 0x01, 0x0c, 0x01, 0x03];

fn container(infos: &[Vec<u8>]) -> Vec<u8> {
    let safe = der(0x30, &cat(infos));
    let auth = der(0x30, &cat(&[der(0x06, &DATA), der(0xa0, &der(0x04, &safe))]));
    der(0x30, &cat(&[der(0x02, &[3]), auth]))
}

fn encrypted_info(version: u8, iterations: &[u8]) -> Vec<u8> {
    let params = der(0x30, &cat(&[der(0x04, &[1, 2, 3, 4, 5, 6, 7, 8]), der(0x02, iterations)]));
    let algorithm = der(0x30, &cat(&[der(0x06, &TRIPLE_DES), params]));
    let content = der(0x30, &cat(&[der(0x06, &DATA), algorithm, der(0x80, &[0; 8])]));
    let data = der(0x30, &cat(&[der(0x02, &[version]), content]));
    der(0x30, &cat(&[der(0x06, &ENCRYPTED), der(0xa0, &data)]))
}

#[test]
fn container_shapes_handed_to_p12() {
    let data_info = der(0x30, &cat(&[der(0x06, &DATA), der(0xa0, &der(0x04, &[1, 2, 3]))]));
    assert!(pfx_shape_ok(&container(&[data_info.clone()])));
    assert!(pfx_shape_ok(&container(&[data_info.clone(), encrypted_info(0, &[0x08, 0x00])])));
    assert!(!pfx_shape_ok(&container(&[encrypted_info(1, &[0x08, 0x00])])));
    assert!(!pfx_shape_ok(&container(&[encrypted_info(0, &[0x01, 0x00, 0x00, 0x00])])));
    let mut trailing = container(&[data_info]);
    trailing.push(0);
    assert!(!pfx_shape_ok(&trailing));
    assert!(!pfx_shape_ok(&vec![0x30, 0x00]));
}

#[test]
fn passwords_as_keys_are_derived_from_them() {
    assert_eq!(bmp_password("ab"), vec![0, 0x61, 0, 0x62, 0, 0]);
    assert_eq!(bmp_password("é"), vec![0, 0xe9, 0, 0]);
    assert_eq!(bmp_password("😀"), vec![0xd8, 0x3d, 0xde, 0x00, 0, 0]);
    assert_eq!(bmp_password(""), vec![0, 0]);
}

#[test]
fn scale_units_read_back() {
    for scale in [TemperatureScale::Celsius, TemperatureScale::Fahrenheit] {
        assert_eq!(TemperatureScale::parse(scale.unit_of_measurement()).ok(), Some(scale));
    }
    assert_eq!(TemperatureScale::Celsius.unit_of_measurement(), "°C");
    assert_eq!(TemperatureScale::Fahrenheit.unit_of_measurement(), "°F");
}

#[test]
fn clock_reads_after_1970() {
    let now = now_millis();
    assert!(now > 1_600_000_000_000);
}

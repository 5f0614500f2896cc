use govee2mqtt::ble::{
    btoi, calculate_checksum, finish, itob, GoveeBlePacket, HexBytes, HumidifierMode,
    HumidifierNightlightParams, PacketError, PacketManager, TargetHumidity,
};

#[test]
fn packet_manager() {
    let mgr = PacketManager::new();

    assert_eq!(
        mgr.decode_for_sku(
            "H7160",
            &[0x33, 0x05, 0x01, 0x20, 0, 0, 0, 0, 0, 0, 0, 0, 0, 0, 0, 0, 0, 0, 0, 23]
        ),
        GoveeBlePacket::SetHumidifierMode(HumidifierMode { mode: 1, param: 0x20 })
    );

    assert_eq!(
        mgr.encode_for_sku("H7160", &HumidifierMode { mode: 1, param: 0x20 })
            .unwrap(),
        vec![0x33, 0x05, 0x01, 0x20, 0, 0, 0, 0, 0, 0, 0, 0, 0, 0, 0, 0, 0, 0, 0, 23]
    );
}

fn round_trip(value: GoveeBlePacket) {
    let bytes = value.clone().into_vec();
    let decoded = GoveeBlePacket::parse_bytes(&bytes).unwrap();
    assert_eq!(bytes, decoded.into_vec());

    let b64 = value.clone().base64();
    let decoded = GoveeBlePacket::parse_base64(&b64).unwrap();
    assert_eq!(value, decoded);
}

#[test]
fn basic_round_trip() {
    round_trip(GoveeBlePacket::SetSceneCode(123));
    round_trip(GoveeBlePacket::SetPower(true));
    round_trip(GoveeBlePacket::SetHumidifierNightlight(HumidifierNightlightParams {
        on: true,
        r: 255,
        g: 69,
        b: 42,
        brightness: 100,
    }));
}

#[test]
fn decode_some_stuff() {
    let input = [
        "qhIAAAAAAAAAAAAAAAAAAAAAALg=",
        "qhEAAAAAAAAAAAAAAAAAAAAAALs=",
        "qgUDvAAAAAAAAAAAAAAAAAAAABA=",
        "qgUCAAkAPAA8BQA8ADwB/////6A=",
        "qgUBCQAAAAAAAAAAAAAAAAAAAKc=",
        "qgUAAQkAAAAAAAAAAAAAAAAAAKc=",
        "qhYB/////wAAAAAAAAAAAAAAAL0=",
        "qhsBZAAAAAAAAAAAAAAAAAAAANQ=",
        "qggYTTMzNc4AAAAAAAAAAAAAAAw=",
        "qhABA2RqAAAAAAAAAAAAAAAAALY=",
        "qhcAAAIAAAAAAAAAAAAAAAAAAL8=",
        "6gEB6g==",
    ];

    let decoded: Vec<GoveeBlePacket> = input
        .iter()
        .map(|s| GoveeBlePacket::parse_base64(s).unwrap())
        .collect();

    let expected = vec![
        GoveeBlePacket::Generic(HexBytes(vec![
            0xAA, 0x12, 0, 0, 0, 0, 0, 0, 0, 0, 0, 0, 0, 0, 0, 0, 0, 0, 0, 0xB8,
        ])),
        GoveeBlePacket::NotifyHumidifierTimer { on: false },
        GoveeBlePacket::NotifyHumidifierAutoMode { param: TargetHumidity::from_raw(188) },
        GoveeBlePacket::Generic(HexBytes(vec![
            0xAA, 0x05, 0x02, 0x00, 0x09, 0x00, 0x3C, 0x00, 0x3C, 0x05, 0x00, 0x3C, 0x00, 0x3C,
            0x01, 0xFF, 0xFF, 0xFF, 0xFF, 0xA0,
        ])),
        GoveeBlePacket::NotifyHumidifierManualMode { param: 9 },
        GoveeBlePacket::NotifyHumidifierMode(HumidifierMode { mode: 1, param: 9 }),
        GoveeBlePacket::Generic(HexBytes(vec![
            0xAA, 0x16, 0x01, 0xFF, 0xFF, 0xFF, 0xFF, 0, 0, 0, 0, 0, 0, 0, 0, 0, 0, 0, 0, 0xBD,
        ])),
        GoveeBlePacket::NotifyHumidifierNightlight(HumidifierNightlightParams {
            on: true,
            r: 0,
            g: 0,
            b: 0,
            brightness: 100,
        }),
        GoveeBlePacket::Generic(HexBytes(vec![
            0xAA, 0x08, 0x18, 0x4D, 0x33, 0x33, 0x35, 0xCE, 0, 0, 0, 0, 0, 0, 0, 0, 0, 0, 0, 0x0C,
        ])),
        GoveeBlePacket::Generic(HexBytes(vec![
            0xAA, 0x10, 0x01, 0x03, 0x64, 0x6A, 0, 0, 0, 0, 0, 0, 0, 0, 0, 0, 0, 0, 0, 0xB6,
        ])),
        GoveeBlePacket::Generic(HexBytes(vec![
            0xAA, 0x17, 0x00, 0x00, 0x02, 0, 0, 0, 0, 0, 0, 0, 0, 0, 0, 0, 0, 0, 0, 0xBF,
        ])),
        GoveeBlePacket::Generic(HexBytes(vec![0xEA, 0x01, 0x01, 0xEA])),
    ];
    assert_eq!(decoded, expected);
    assert_eq!(
        match &decoded[2] {
            GoveeBlePacket::NotifyHumidifierAutoMode { param } => param.into_inner(),
            _ => 0,
        },
        188
    );
}

#[test]
fn checksum_and_framing() {
    assert_eq!(calculate_checksum(&[0x33, 0x01, 0x01]), 0x33);
    let framed = finish(vec![0x33, 0x01, 0x01]);
    assert_eq!(framed.len(), 20);
    assert_eq!(framed[19], 0x33);
    assert_eq!(calculate_checksum(&framed[0..19]), framed[19]);
    assert_eq!(btoi(true), 1);
    assert_eq!(btoi(false), 0);
    assert!(itob(&2));
    assert!(!itob(&0));
}

#[test]
fn bad_checksum_and_bad_base64() {
    let mut framed = finish(vec![0x33, 0x01, 0x01]);
    framed[19] = 0;
    assert_eq!(
        GoveeBlePacket::parse_bytes(&framed),
        Err(PacketError::InvalidChecksum { expected: 0, actual: 0x33 })
    );
    assert_eq!(GoveeBlePacket::parse_base64("not base64!"), Err(PacketError::InvalidBase64));
}

#[test]
fn target_humidity_offsets() {
    let t = TargetHumidity::from_percent(60);
    assert_eq!(t.into_inner(), 188);
    assert_eq!(TargetHumidity::from_raw(188).as_percent(), 60);
    for raw in 128..=255u8 {
        let t = TargetHumidity::from_raw(raw);
        assert_eq!(TargetHumidity::from_percent(t.as_percent()), t);
    }
    for p in 0..=127u8 {
        assert_eq!(TargetHumidity::from_percent(p).as_percent(), p);
    }
}

#[test]
fn scene_code_bytes() {
    let bytes = GoveeBlePacket::SetSceneCode(0x1234).into_vec();
    assert_eq!(&bytes[0..5], &[0x33, 0x05, 0x04, 0x34, 0x12]);
}

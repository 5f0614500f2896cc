//! The AWS IoT side of the account API: which devices it can reach, the
//! status request it sends, and how a state report updates a device's
//! status. The MQTT connection itself lives outside this library.

use vstd::prelude::*;
use crate::strings::{chars_of, string_of, append_str, append_chars, copy_range, spec_signed_decimal};
use crate::ble::{base64_decode, base64_encode, spec_base64_decode, spec_base64_encode};
use crate::pfx::{read_pfx, spec_read_pfx, PfxError};
use crate::lan_api::{DeviceColor, DeviceStatus};
use crate::device_database::opt_view;
use crate::undoc_api::ms_timestamp;

verus! {

/// A device can be reached through IoT when the account gives it a topic.
pub fn is_device_compatible(topic: &Option<String>) -> (r: bool)
    ensures
        r == topic is Some,
{
    topic.is_some()
}

/// The transaction id of a status request: "v_", the time in milliseconds,
/// and "000".
pub fn status_transaction() -> (r: String)
    ensures
        exists|t: i64| r@ == "v_"@ + spec_signed_decimal(t as int) + "000"@,
{
    let ms = ms_timestamp();
    let mut v = chars_of("v_");
    append_str(&mut v, ms.as_str());
    append_str(&mut v, "000");
    string_of(&v)
}

/// The state part of an IoT state report.
pub struct IotStateUpdate {
    pub on_off: Option<u8>,
    pub brightness: Option<u8>,
    pub color: Option<DeviceColor>,
    pub color_temperature_kelvin: Option<u32>,
    pub sku: Option<String>,
}

/// An IoT state report.
pub struct IotPacket {
    pub sku: Option<String>,
    pub device: String,
    pub cmd: String,
    pub state: IotStateUpdate,
}

impl IotPacket {
    /// The SKU of the reporting device: the packet's own, else the one in
    /// its state.
    pub fn sku(&self) -> (r: Option<&str>)
        ensures
            opt_view_str(r) == match self.sku {
                Some(s) => Some(s@),
                None => opt_view(self.state.sku),
            },
    {
        match &self.sku {
            Some(s) => Some(s.as_str()),
            None => match &self.state.sku {
                Some(s) => Some(s.as_str()),
                None => None,
            },
        }
    }
}

/// The view of an optional string slice.
pub open spec fn opt_view_str(o: Option<&str>) -> Option<Seq<char>> {
    match o {
        Some(s) => Some(s@),
        None => None,
    }
}

/// The status a report starts from: the last status the IoT API gave,
/// else the device's current state, else all off and zero.
pub open spec fn spec_base_status(iot_status: Option<DeviceStatus>, current: Option<DeviceStatus>) -> DeviceStatus {
    match iot_status {
        Some(s) => s,
        None => match current {
            Some(s) => s,
            None => DeviceStatus {
                on: false,
                brightness: 0,
                color: DeviceColor { r: 0, g: 0, b: 0 },
                color_temperature_kelvin: 0,
            },
        },
    }
}

/// A report applied to a status: a brightness sets it and turns the device
/// on unless it is zero; a colour or a colour temperature sets it and turns
/// the device on; an explicit on/off, applied last, decides the power.
pub open spec fn spec_apply_update(s: DeviceStatus, u: IotStateUpdate) -> DeviceStatus {
    let s1 = match u.brightness {
        Some(b) => DeviceStatus { brightness: b, on: b != 0, ..s },
        None => s,
    };
    let s2 = match u.color {
        Some(c) => DeviceStatus { color: c, on: true, ..s1 },
        None => s1,
    };
    let s3 = match u.color_temperature_kelvin {
        Some(k) => DeviceStatus { color_temperature_kelvin: k, on: true, ..s2 },
        None => s2,
    };
    match u.on_off {
        Some(v) => DeviceStatus { on: v != 0, ..s3 },
        None => s3,
    }
}

/// The device status after an IoT state report.
pub fn apply_iot_update(
    iot_status: Option<DeviceStatus>,
    current: Option<DeviceStatus>,
    update: &IotStateUpdate,
) -> (r: DeviceStatus)
    ensures
        r == spec_apply_update(spec_base_status(iot_status, current), *update),
{
    let mut s = match iot_status {
        Some(s) => s,
        None => match current {
            Some(s) => s,
            None => DeviceStatus {
                on: false,
                brightness: 0,
                color: DeviceColor { r: 0, g: 0, b: 0 },
                color_temperature_kelvin: 0,
            },
        },
    };
    if let Some(b) = update.brightness {
        s.brightness = b;
        s.on = b != 0;
    }
    if let Some(c) = update.color {
        s.color = c;
        s.on = true;
    }
    if let Some(k) = update.color_temperature_kelvin {
        s.color_temperature_kelvin = k;
        s.on = true;
    }
    if let Some(v) = update.on_off {
        s.on = v != 0;
    }
    s
}

/// An explicit on/off in a report decides the power, whatever else it
/// holds; fields the report leaves out keep their values.
pub proof fn lemma_on_off_decides(s: DeviceStatus, u: IotStateUpdate)
    ensures
        u.on_off matches Some(v) ==> spec_apply_update(s, u).on == (v != 0),
        u.brightness is None ==> spec_apply_update(s, u).brightness == s.brightness,
        u.color is None ==> spec_apply_update(s, u).color == s.color,
        u.color_temperature_kelvin is None ==> spec_apply_update(s, u).color_temperature_kelvin
            == s.color_temperature_kelvin,
        u.on_off is None && u.brightness is None && u.color is None && u.color_temperature_kelvin is None
            ==> spec_apply_update(s, u) == s,
{
}

// ---------------------------------------------------------------------------
// The account's IoT credentials
// ---------------------------------------------------------------------------

/// Why the IoT credentials could not be read.
#[derive(Clone, Copy, Debug, PartialEq, Eq, Structural)]
pub enum IotKeyError {
    /// The container is not valid base64.
    NotBase64,
    /// The container is not of a shape that is read (see
    /// `spec_pfx_shape_ok`), or a key in it asks for too many rounds of key
    /// derivation.
    Unsupported,
    /// The decoded bytes are not a PKCS#12 container that opens with the
    /// password.
    NotPkcs12,
}

/// The private keys and certificates of the account's IoT credentials: the
/// base64 text of a PKCS#12 container, opened with its password.
pub fn iot_key_material(p12_base64: &str, password: &str) -> (r: Result<(Vec<Vec<u8>>, Vec<Vec<u8>>), IotKeyError>)
    ensures
        match spec_base64_decode(p12_base64@) {
            None => r == Err::<(Vec<Vec<u8>>, Vec<Vec<u8>>), IotKeyError>(IotKeyError::NotBase64),
            Some(der) => match spec_read_pfx(der, password@) {
                Err(PfxError::Unsupported) => r == Err::<(Vec<Vec<u8>>, Vec<Vec<u8>>), IotKeyError>(
                    IotKeyError::Unsupported,
                ),
                Err(PfxError::NotReadable) => r == Err::<(Vec<Vec<u8>>, Vec<Vec<u8>>), IotKeyError>(
                    IotKeyError::NotPkcs12,
                ),
                Ok(v) => r matches Ok(got) && got.0.deep_view() == v.0 && got.1.deep_view() == v.1,
            },
        },
{
    let der = match base64_decode(p12_base64) {
        Ok(d) => d,
        Err(_) => return Err(IotKeyError::NotBase64),
    };
    match read_pfx(&der, password) {
        Ok(v) => Ok(v),
        Err(PfxError::Unsupported) => Err(IotKeyError::Unsupported),
        Err(PfxError::NotReadable) => Err(IotKeyError::NotPkcs12),
    }
}

/// The lines of a PEM body from position `i` of the base64 text `e`: each
/// run of up to 64 characters followed by a line feed.
pub open spec fn pem_lines_from(e: Seq<char>, i: int) -> Seq<char>
    decreases e.len() - i,
{
    if i < 0 || i >= e.len() {
        Seq::empty()
    } else {
        let j = if i + 64 <= e.len() { i + 64 } else { e.len() as int };
        e.subrange(i, j) + seq!['\n'] + pem_lines_from(e, j)
    }
}

/// The PEM text of DER data under a label: the BEGIN line, the base64 of
/// the data in lines of 64 characters, and the END line.
pub open spec fn spec_pem(label: Seq<char>, der: Seq<u8>) -> Seq<char> {
    "-----BEGIN "@ + label + "-----\n"@ + pem_lines_from(spec_base64_encode(der), 0) + "-----END "@
        + label + "-----\n"@
}

/// The PEM text of DER data under a label.
pub fn pem(label: &str, der: &[u8]) -> (r: String)
    ensures
        r@ == spec_pem(label@, der@),
{
    let encoded = base64_encode(der);
    let e = chars_of(encoded.as_str());
    let mut out = chars_of("-----BEGIN ");
    append_str(&mut out, label);
    append_str(&mut out, "-----\n");
    let ghost head = out@;
    let mut i: usize = 0;
    while i < e.len()
        invariant
            i <= e.len(),
            e@ == spec_base64_encode(der@),
            out@ + pem_lines_from(e@, i as int) == head + pem_lines_from(e@, 0),
        decreases e.len() - i,
    {
        let j: usize = if e.len() - i >= 64 { i + 64 } else { e.len() };
        let line = copy_range(&e, i, j);
        let ghost before = out@;
        append_chars(&mut out, &line);
        out.push('\n');
        assert(pem_lines_from(e@, i as int) == e@.subrange(i as int, j as int) + seq!['\n'] + pem_lines_from(e@, j as int));
        assert(out@ =~= before + e@.subrange(i as int, j as int) + seq!['\n']);
        assert(out@ + pem_lines_from(e@, j as int) =~= before + pem_lines_from(e@, i as int));
        i = j;
    }
    assert(pem_lines_from(e@, i as int) =~= Seq::<char>::empty());
    assert(out@ =~= head + pem_lines_from(e@, 0));
    append_str(&mut out, "-----END ");
    append_str(&mut out, label);
    append_str(&mut out, "-----\n");
    string_of(&out)
}

} // verus!

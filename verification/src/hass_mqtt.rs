//! The Home Assistant entities that the bridge publishes for each device:
//! their names, unique ids and topics.

use vstd::prelude::*;
use crate::strings::{
    chars_of, string_of, owned, str_eq, append_str, append_chars, spec_decimal, decimal_chars,
    zero_pad, spec_zero_pad, signed_decimal_chars, spec_signed_decimal,
};
use crate::hass::{
    topic_safe_id, spec_topic_safe_id, topic_safe_string, spec_topic_safe_string,
    camel_case_to_space_separated, spec_camel_to_words, availability_topic,
    switch_instance_state_topic, light_state_topic, light_segment_state_topic, kelvin_to_mired,
    oneclick_topic,
    spec_reciprocal_million,
};
use crate::device::Device;
use crate::device_database::opt_view;
use crate::platform_api::{
    DeviceCapability, DeviceType, HttpDeviceInfo, DeviceParameters, first_instance, OptionValue,
    integer_range,
    OptionValueView,
};
use crate::quirks::{resolve_quirk, spec_resolve_quirk, strings_view, Quirk, QuirkView};
use crate::entities::opt_quirk_view;
use crate::temperature::{TemperatureScale, spec_scale_unit};
use crate::env::{IntErrorKind, spec_parse_unsigned, parse_unsigned};
use crate::lan_api::DeviceColor;
use crate::undoc_api::{name_uuid, spec_name_uuid};

verus! {

// ---------------------------------------------------------------------------
// Entity basics
// ---------------------------------------------------------------------------

/// The Home Assistant device an entity belongs to: the bridge itself, or a
/// Govee device.
pub enum EntityDevice {
    Service,
    Device { sku: String, id: String },
}

/// The fields that every entity configuration has.
pub struct EntityConfig {
    pub availability_topic: String,
    pub name: Option<String>,
    pub device_class: Option<String>,
    pub device: EntityDevice,
    pub unique_id: String,
    pub entity_category: Option<String>,
    pub icon: Option<String>,
}

/// The entity device of a Govee device.
pub open spec fn is_device_of(e: EntityDevice, d: Device) -> bool {
    e matches EntityDevice::Device { sku, id } && sku@ == d.sku@ && id@ == d.id@
}

/// The entity device of a Govee device.
fn device_entity(device: &Device) -> (r: EntityDevice)
    ensures
        is_device_of(r, *device),
{
    EntityDevice::Device { sku: owned(device.sku.as_str()), id: owned(device.id.as_str()) }
}

/// A topic made of `prefix`, the device's topic id, and `suffix`.
pub open spec fn device_topic(prefix: Seq<char>, d: Device, suffix: Seq<char>) -> Seq<char> {
    prefix + spec_topic_safe_id(d.id@) + suffix
}

/// `prefix`, the device's topic id, and `suffix`.
fn make_device_topic(prefix: &str, device: &Device, suffix: &str) -> (r: String)
    ensures
        r@ == device_topic(prefix@, *device, suffix@),
{
    let id = topic_safe_id(device);
    let mut v = chars_of(prefix);
    append_str(&mut v, id.as_str());
    append_str(&mut v, suffix);
    string_of(&v)
}

/// An entity of the bridge itself: available with the bridge, no class
/// and no icon.
pub open spec fn is_entity(
    base: EntityConfig,
    name: Option<Seq<char>>,
    unique_id: Seq<char>,
    category: Option<Seq<char>>,
) -> bool {
    &&& base.availability_topic@ == "gv2mqtt/availability"@
    &&& opt_view(base.name) == name
    &&& base.device_class is None
    &&& base.unique_id@ == unique_id
    &&& opt_view(base.entity_category) == category
    &&& base.icon is None
}

// ---------------------------------------------------------------------------
// Buttons
// ---------------------------------------------------------------------------

/// A button entity.
pub struct ButtonConfig {
    pub base: EntityConfig,
    pub command_topic: String,
    pub payload_press: Option<String>,
}

impl ButtonConfig {
    /// A button of the bridge itself that publishes to `topic`.
    pub fn new(name: &str, topic: &str) -> (r: Self)
        ensures
            is_entity(r.base, Some(name@), "global-"@ + spec_topic_safe_string(name@), None),
            r.base.device is Service,
            r.command_topic@ == topic@,
            r.payload_press is None,
    {
        let safe = topic_safe_string(name);
        let unique_id = crate::strings::concat_str("global-", safe.as_str());
        ButtonConfig {
            base: EntityConfig {
                availability_topic: availability_topic(),
                name: Some(owned(name)),
                device_class: None,
                device: EntityDevice::Service,
                unique_id,
                entity_category: None,
                icon: None,
            },
            command_topic: owned(topic),
            payload_press: None,
        }
    }

    /// A button that turns on a preset value of a work mode.
    pub fn activate_work_mode_preset(
        device: &Device,
        name: &str,
        mode_name: &str,
        mode_num: i64,
        value: i64,
    ) -> (r: Self)
        ensures
            is_entity(
                r.base,
                Some(name@),
                device_topic("gv2mqtt-"@, *device, "-preset-"@) + spec_topic_safe_string(mode_name@) + "-"@
                    + spec_signed_decimal(mode_num as int) + "-"@ + spec_signed_decimal(value as int),
                None,
            ),
            is_device_of(r.base.device, *device),
            r.command_topic@ == device_topic("gv2mqtt/number/"@, *device, "/command/"@)
                + spec_topic_safe_string(mode_name@) + "/"@ + spec_signed_decimal(mode_num as int),
            opt_view(r.payload_press) == Some(spec_signed_decimal(value as int)),
    {
        let mode = topic_safe_string(mode_name);
        let num = signed_decimal_chars(mode_num);
        let val = signed_decimal_chars(value);

        let head = make_device_topic("gv2mqtt-", device, "-preset-");
        let mut u = chars_of(head.as_str());
        append_str(&mut u, mode.as_str());
        append_str(&mut u, "-");
        append_chars(&mut u, &num);
        append_str(&mut u, "-");
        append_chars(&mut u, &val);

        let chead = make_device_topic("gv2mqtt/number/", device, "/command/");
        let mut c = chars_of(chead.as_str());
        append_str(&mut c, mode.as_str());
        append_str(&mut c, "/");
        append_chars(&mut c, &num);

        ButtonConfig {
            base: EntityConfig {
                availability_topic: availability_topic(),
                name: Some(owned(name)),
                device_class: None,
                device: device_entity(device),
                unique_id: string_of(&u),
                entity_category: None,
                icon: None,
            },
            command_topic: string_of(&c),
            payload_press: Some(string_of(&val)),
        }
    }

    /// The diagnostic button that asks for the device's state through the
    /// Platform API.
    pub fn request_platform_data_for_device(device: &Device) -> (r: Self)
        ensures
            is_entity(
                r.base,
                Some("Request Platform API State"@),
                device_topic("gv2mqtt-"@, *device, "-request-platform-data"@),
                Some("diagnostic"@),
            ),
            is_device_of(r.base.device, *device),
            r.command_topic@ == device_topic("gv2mqtt/"@, *device, "/request-platform-data"@),
            r.payload_press is None,
    {
        ButtonConfig {
            base: EntityConfig {
                availability_topic: availability_topic(),
                name: Some(owned("Request Platform API State")),
                device_class: None,
                device: device_entity(device),
                unique_id: make_device_topic("gv2mqtt-", device, "-request-platform-data"),
                entity_category: Some(owned("diagnostic")),
                icon: None,
            },
            command_topic: make_device_topic("gv2mqtt/", device, "/request-platform-data"),
            payload_press: None,
        }
    }

    /// A button for a capability of the device, named after the
    /// capability's instance.
    pub fn for_device(device: &Device, instance: &DeviceCapability) -> (r: Self)
        requires
            instance.instance@.len() > 0,
            (instance.instance@[0] as int) < 128,
        ensures
            is_entity(
                r.base,
                Some(spec_camel_to_words(instance.instance@)),
                device_topic("gv2mqtt-"@, *device, "-"@) + instance.instance@,
                None,
            ),
            is_device_of(r.base.device, *device),
            r.command_topic@ == device_topic("gv2mqtt/switch/"@, *device, "/command/"@) + instance.instance@,
            r.payload_press is None,
    {
        let inst = instance.instance.as_str();
        let u = make_device_topic("gv2mqtt-", device, "-");
        let c = make_device_topic("gv2mqtt/switch/", device, "/command/");
        ButtonConfig {
            base: EntityConfig {
                availability_topic: availability_topic(),
                name: Some(camel_case_to_space_separated(inst)),
                device_class: None,
                device: device_entity(device),
                unique_id: crate::strings::concat_str(u.as_str(), inst),
                entity_category: None,
                icon: None,
            },
            command_topic: crate::strings::concat_str(c.as_str(), inst),
            payload_press: None,
        }
    }
}

// ---------------------------------------------------------------------------
// Switches
// ---------------------------------------------------------------------------

/// A switch entity.
pub struct SwitchConfig {
    pub base: EntityConfig,
    pub command_topic: String,
    pub state_topic: String,
}

impl SwitchConfig {
    /// The switch for a toggle capability of the device.
    pub fn for_device(device: &Device, instance: &DeviceCapability) -> (r: Self)
        requires
            instance.instance@.len() > 0,
            (instance.instance@[0] as int) < 128,
        ensures
            is_entity(
                r.base,
                Some(spec_camel_to_words(instance.instance@)),
                device_topic("gv2mqtt-"@, *device, "-"@) + instance.instance@,
                None,
            ),
            is_device_of(r.base.device, *device),
            r.command_topic@ == device_topic("gv2mqtt/switch/"@, *device, "/command/"@) + instance.instance@,
            r.state_topic@ == device_topic("gv2mqtt/switch/"@, *device, "/"@) + instance.instance@ + "/state"@,
    {
        let inst = instance.instance.as_str();
        let u = make_device_topic("gv2mqtt-", device, "-");
        let c = make_device_topic("gv2mqtt/switch/", device, "/command/");
        SwitchConfig {
            base: EntityConfig {
                availability_topic: availability_topic(),
                name: Some(camel_case_to_space_separated(inst)),
                device_class: None,
                device: device_entity(device),
                unique_id: crate::strings::concat_str(u.as_str(), inst),
                entity_category: None,
                icon: None,
            },
            command_topic: crate::strings::concat_str(c.as_str(), inst),
            state_topic: switch_instance_state_topic(device, inst),
        }
    }
}

// ---------------------------------------------------------------------------
// Sensors
// ---------------------------------------------------------------------------

/// A sensor entity.
pub struct SensorConfig {
    pub base: EntityConfig,
    pub state_topic: String,
    pub unit_of_measurement: Option<String>,
}

/// A diagnostic sensor of the bridge with a value that does not change.
pub struct GlobalFixedDiagnostic {
    pub sensor: SensorConfig,
    pub value: String,
}

impl GlobalFixedDiagnostic {
    /// A diagnostic sensor named `name` that always reports `value`.
    pub fn new(name: &str, value: &str) -> (r: Self)
        ensures
            is_entity(r.sensor.base, Some(name@), "global-"@ + spec_topic_safe_string(name@), Some("diagnostic"@)),
            r.sensor.base.device is Service,
            r.sensor.state_topic@ == "gv2mqtt/sensor/"@ + "global-"@ + spec_topic_safe_string(name@) + "/state"@,
            r.sensor.unit_of_measurement is None,
            r.value@ == value@,
    {
        let safe = topic_safe_string(name);
        let unique_id = crate::strings::concat_str("global-", safe.as_str());
        let mut t = chars_of("gv2mqtt/sensor/");
        append_str(&mut t, unique_id.as_str());
        append_str(&mut t, "/state");
        GlobalFixedDiagnostic {
            sensor: SensorConfig {
                base: EntityConfig {
                    availability_topic: availability_topic(),
                    name: Some(owned(name)),
                    device_class: None,
                    device: EntityDevice::Service,
                    unique_id,
                    entity_category: Some(owned("diagnostic")),
                    icon: None,
                },
                state_topic: string_of(&t),
                unit_of_measurement: None,
            },
            value: owned(value),
        }
    }
}

/// A diagnostic sensor for a sensor capability of a device.
pub struct CapabilitySensor {
    pub sensor: SensorConfig,
    pub device_id: String,
    pub instance_name: String,
}

/// The unit of a sensor capability.
pub open spec fn spec_sensor_unit(instance: Seq<char>) -> Option<Seq<char>> {
    if instance == "sensorTemperature"@ {
        Some("°C"@)
    } else if instance == "sensorHumidity"@ {
        Some("%"@)
    } else {
        None
    }
}

/// The name of a sensor capability.
pub open spec fn spec_sensor_name(instance: Seq<char>) -> Seq<char> {
    if instance == "sensorTemperature"@ {
        "Temperature"@
    } else if instance == "sensorHumidity"@ {
        "Humidity"@
    } else {
        instance
    }
}

impl CapabilitySensor {
    /// The sensor for a capability of a device.
    pub fn new(device: &Device, instance: &DeviceCapability) -> (r: Self)
        ensures
            is_entity(
                r.sensor.base,
                Some(spec_sensor_name(instance.instance@)),
                device_topic("sensor-"@, *device, "-"@) + spec_topic_safe_string(instance.instance@),
                Some("diagnostic"@),
            ),
            is_device_of(r.sensor.base.device, *device),
            r.sensor.state_topic@ == "gv2mqtt/sensor/"@ + device_topic("sensor-"@, *device, "-"@)
                + spec_topic_safe_string(instance.instance@) + "/state"@,
            opt_view(r.sensor.unit_of_measurement) == spec_sensor_unit(instance.instance@),
            r.device_id@ == device.id@,
            r.instance_name@ == instance.instance@,
    {
        let inst = instance.instance.as_str();
        let head = make_device_topic("sensor-", device, "-");
        let safe = topic_safe_string(inst);
        let unique_id = crate::strings::concat_str(head.as_str(), safe.as_str());
        let mut t = chars_of("gv2mqtt/sensor/");
        append_str(&mut t, unique_id.as_str());
        append_str(&mut t, "/state");
        let (unit, name) = if str_eq(inst, "sensorTemperature") {
            (Some(owned("°C")), owned("Temperature"))
        } else if str_eq(inst, "sensorHumidity") {
            (Some(owned("%")), owned("Humidity"))
        } else {
            (None, owned(inst))
        };
        CapabilitySensor {
            sensor: SensorConfig {
                base: EntityConfig {
                    availability_topic: availability_topic(),
                    name: Some(name),
                    device_class: None,
                    device: device_entity(device),
                    unique_id,
                    entity_category: Some(owned("diagnostic")),
                    icon: None,
                },
                state_topic: string_of(&t),
                unit_of_measurement: unit,
            },
            device_id: owned(device.id.as_str()),
            instance_name: owned(inst),
        }
    }
}

// ---------------------------------------------------------------------------
// Lights
// ---------------------------------------------------------------------------

/// What is known of a device when its light entity is described.
pub struct LightFacts {
    pub device_type: DeviceType,
    /// The device can be given an RGB colour.
    pub supports_rgb: bool,
    /// The range of colour temperatures in kelvin, when it has one.
    pub color_temperature_range: Option<(u32, u32)>,
    /// The Platform API information says that the brightness can be set.
    pub platform_brightness: bool,
}

/// The type of a device: what the Platform API says, else the type its
/// quirk gives, else a light.
pub open spec fn spec_device_type_of(info: Option<HttpDeviceInfo>, quirk: Option<QuirkView>) -> DeviceType {
    match info {
        Some(i) => i.device_type,
        None => match quirk {
            Some(q) => q.device_type,
            None => DeviceType::Light,
        },
    }
}

/// The type of a device, from its Platform API information and its quirk.
pub fn device_type_of(info: &Option<HttpDeviceInfo>, quirk: &Option<Quirk>) -> (r: DeviceType)
    ensures
        r == spec_device_type_of(*info, opt_quirk_view(*quirk)),
{
    match info {
        Some(i) => i.device_type,
        None => match quirk {
            Some(q) => q.device_type,
            None => DeviceType::Light,
        },
    }
}

/// What the light entity of a device is built from: its type; RGB when the
/// Platform API or the quirk says so; the colour temperature range of the
/// Platform API, else of the quirk; and whether the Platform API can set
/// the brightness.
pub open spec fn spec_light_facts(info: Option<HttpDeviceInfo>, quirk: Option<QuirkView>, f: LightFacts) -> bool {
    &&& f.device_type == spec_device_type_of(info, quirk)
    &&& f.supports_rgb == ((info matches Some(i) && first_instance(i.capabilities@, "colorRgb"@) is Some)
        || (quirk matches Some(q) && q.supports_rgb))
    &&& f.color_temperature_range == match info {
        Some(i) => match first_instance(i.capabilities@, "colorTemperatureK"@) {
            Some(k) => match integer_range(i.capabilities@[k].parameters) {
                Some(range) => Some((range.min, range.max)),
                None => match quirk {
                    Some(q) => q.color_temp_range,
                    None => None,
                },
            },
            None => match quirk {
                Some(q) => q.color_temp_range,
                None => None,
            },
        },
        None => match quirk {
            Some(q) => q.color_temp_range,
            None => None,
        },
    }
    &&& f.platform_brightness == (info matches Some(i) && first_instance(i.capabilities@, "brightness"@) is Some)
}

impl LightFacts {
    /// The facts of a device's light, from its Platform API information and
    /// its quirk.
    pub fn for_device(info: &Option<HttpDeviceInfo>, quirk: &Option<Quirk>) -> (r: Self)
        ensures
            spec_light_facts(*info, opt_quirk_view(*quirk), r),
    {
        let quirk_rgb = match quirk {
            Some(q) => q.supports_rgb,
            None => false,
        };
        let quirk_range = match quirk {
            Some(q) => q.color_temp_range,
            None => None,
        };
        match info {
            Some(i) => {
                let rgb = i.supports_rgb();
                let range = match i.get_color_temperature_range() {
                    Some(r) => Some(r),
                    None => quirk_range,
                };
                LightFacts {
                    device_type: device_type_of(info, quirk),
                    supports_rgb: rgb || quirk_rgb,
                    color_temperature_range: range,
                    platform_brightness: i.supports_brightness(),
                }
            },
            None => LightFacts {
                device_type: device_type_of(info, quirk),
                supports_rgb: quirk_rgb,
                color_temperature_range: quirk_range,
                platform_brightness: false,
            },
        }
    }
}

/// A light entity, following the JSON schema of MQTT lights.
pub struct LightConfig {
    pub base: EntityConfig,
    pub schema: String,
    pub command_topic: String,
    pub state_topic: String,
    pub optimistic: bool,
    pub supported_color_modes: Vec<String>,
    /// The light supports colour modes.
    pub color_mode: bool,
    /// The light supports brightness.
    pub brightness: bool,
    /// The brightness value that means 100%.
    pub brightness_scale: u32,
    pub icon: Option<String>,
    /// The light supports effects.
    pub effect: bool,
    pub effect_list: Vec<String>,
    pub min_mireds: Option<u32>,
    pub max_mireds: Option<u32>,
    pub payload_available: String,
}

/// The colour modes of a light: "rgb" for a segment or an RGB device, then
/// "color_temp" for a whole device with a colour temperature range.
pub open spec fn spec_color_modes(segment: Option<u32>, facts: LightFacts) -> Seq<Seq<char>> {
    let rgb = if segment is Some || facts.supports_rgb { seq!["rgb"@] } else { Seq::<Seq<char>>::empty() };
    if segment is None && facts.color_temperature_range is Some {
        rgb.push("color_temp"@)
    } else {
        rgb
    }
}

/// The name of a light entity: "Segment " and the segment's number from
/// one in three digits; "Night Light" for a humidifier; else none.
pub open spec fn spec_light_name(segment: Option<u32>, device_type: DeviceType) -> Option<Seq<char>> {
    match segment {
        Some(n) => Some("Segment "@ + spec_zero_pad(spec_decimal((n + 1) as nat), 3)),
        None => if device_type == DeviceType::Humidifier {
            Some("Night Light"@)
        } else {
            None
        },
    }
}

/// The text `-n` after the unique id of a segment.
pub open spec fn spec_segment_suffix(segment: Option<u32>) -> Seq<char> {
    match segment {
        Some(n) => "-"@ + spec_decimal(n as nat),
        None => Seq::empty(),
    }
}

impl LightConfig {
    /// The light entity of a device, or of one of its segments. `scenes`
    /// are the scenes of the device, offered as effects of the whole
    /// light.
    pub fn for_device(device: &Device, segment: Option<u32>, facts: &LightFacts, scenes: Vec<String>) -> (r: Self)
        requires
            segment matches Some(n) ==> n < u32::MAX,
        ensures
            is_entity(
                r.base,
                spec_light_name(segment, facts.device_type),
                device_topic("gv2mqtt-"@, *device, ""@) + spec_segment_suffix(segment),
                None,
            ),
            is_device_of(r.base.device, *device),
            r.schema@ == "json"@,
            r.command_topic@ == match segment {
                None => device_topic("gv2mqtt/light/"@, *device, "/command"@),
                Some(n) => device_topic("gv2mqtt/light/"@, *device, "/command/"@) + spec_decimal(n as nat),
            },
            r.state_topic@ == match segment {
                None => device_topic("gv2mqtt/light/"@, *device, "/state"@),
                Some(n) => device_topic("gv2mqtt/light/"@, *device, "/state/"@) + spec_decimal(n as nat),
            },
            r.optimistic == segment is Some,
            strings_view(r.supported_color_modes@) == spec_color_modes(segment, *facts),
            r.color_mode == (segment is Some || facts.supports_rgb || facts.color_temperature_range is Some),
            r.brightness == (segment is Some || (spec_resolve_quirk(device.sku@) matches Some(q) && q.supports_brightness)
                || facts.platform_brightness),
            r.brightness_scale == 100,
            opt_view(r.icon) == (if segment is None && facts.device_type == DeviceType::Light {
                match spec_resolve_quirk(device.sku@) {
                    Some(q) => Some(q.icon),
                    None => None,
                }
            } else {
                None
            }),
            r.effect,
            strings_view(r.effect_list@) == (if segment is Some { Seq::<Seq<char>>::empty() } else { strings_view(scenes@) }),
            (r.min_mireds, r.max_mireds) == match (segment, facts.color_temperature_range) {
                (None, Some((min, max))) => (Some(spec_reciprocal_million(max)), Some(spec_reciprocal_million(min))),
                _ => (None::<u32>, None::<u32>),
            },
            r.payload_available@ == "online"@,
    {
        let quirk = resolve_quirk(device.sku.as_str());

        let command_topic = match segment {
            None => make_device_topic("gv2mqtt/light/", device, "/command"),
            Some(seg) => {
                let head = make_device_topic("gv2mqtt/light/", device, "/command/");
                let mut v = chars_of(head.as_str());
                let d = decimal_chars(seg);
                append_chars(&mut v, &d);
                string_of(&v)
            },
        };

        let icon = match segment {
            Some(_) => None,
            None => if facts.device_type == DeviceType::Light {
                match &quirk {
                    Some(q) => Some(owned(q.icon.as_str())),
                    None => None,
                }
            } else {
                None
            },
        };

        let state_topic = match segment {
            Some(seg) => light_segment_state_topic(device, seg),
            None => light_state_topic(device),
        };

        let head = make_device_topic("gv2mqtt-", device, "");
        let mut uid = chars_of(head.as_str());
        if let Some(n) = segment {
            append_str(&mut uid, "-");
            let d = decimal_chars(n);
            append_chars(&mut uid, &d);
            assert(uid@ =~= head@ + spec_segment_suffix(segment));
        } else {
            assert(uid@ =~= head@ + spec_segment_suffix(segment));
        }
        let unique_id = string_of(&uid);

        let effect_list = if segment.is_some() {
            Vec::new()
        } else {
            scenes
        };

        let mut supported_color_modes: Vec<String> = Vec::new();
        let mut color_mode = false;
        if segment.is_some() || facts.supports_rgb {
            supported_color_modes.push(owned("rgb"));
            color_mode = true;
        }

        let ghost modes_before = strings_view(supported_color_modes@);
        let (min_mireds, max_mireds) = if segment.is_some() {
            (None, None)
        } else if let Some((min, max)) = facts.color_temperature_range {
            supported_color_modes.push(owned("color_temp"));
            color_mode = true;
            (Some(kelvin_to_mired(max)), Some(kelvin_to_mired(min)))
        } else {
            (None, None)
        };
        assert(strings_view(supported_color_modes@) =~= spec_color_modes(segment, *facts));

        let quirk_brightness = match &quirk {
            Some(q) => q.supports_brightness,
            None => false,
        };
        let brightness = segment.is_some() || quirk_brightness || facts.platform_brightness;

        let name = match segment {
            Some(n) => {
                let d = decimal_chars(n + 1);
                let padded = zero_pad(&d, 3);
                let mut v = chars_of("Segment ");
                append_chars(&mut v, &padded);
                Some(string_of(&v))
            },
            None => if facts.device_type == DeviceType::Humidifier {
                Some(owned("Night Light"))
            } else {
                None
            },
        };

        LightConfig {
            base: EntityConfig {
                availability_topic: availability_topic(),
                name,
                device_class: None,
                device: device_entity(device),
                unique_id,
                entity_category: None,
                icon: None,
            },
            schema: owned("json"),
            command_topic,
            state_topic,
            optimistic: segment.is_some(),
            supported_color_modes,
            color_mode,
            brightness,
            brightness_scale: 100,
            icon,
            effect: true,
            effect_list,
            min_mireds,
            max_mireds,
            payload_available: owned("online"),
        }
    }
}

// ---------------------------------------------------------------------------
// Fans and humidifiers
// ---------------------------------------------------------------------------

/// The range of a percentage capability: its integer range, each end cut to
/// a byte, when its unit is "unit.percent".
pub open spec fn spec_percent_range(info: Option<HttpDeviceInfo>, instance: Seq<char>) -> Option<(u8, u8)> {
    match info {
        Some(info) => match first_instance(info.capabilities@, instance) {
            Some(i) => match info.capabilities@[i].parameters {
                Some(DeviceParameters::Integer { unit: Some(u), range }) => if u@ == "unit.percent"@ {
                    Some((range.min as u8, range.max as u8))
                } else {
                    None
                },
                _ => None,
            },
            None => None,
        },
        None => None,
    }
}

/// The range of a percentage capability of the device.
fn percent_range(info: &Option<HttpDeviceInfo>, instance: &str) -> (r: Option<(u8, u8)>)
    ensures
        r == spec_percent_range(*info, instance@),
{
    match info {
        Some(info) => match info.capability_by_instance(instance) {
            Some(cap) => match &cap.parameters {
                Some(DeviceParameters::Integer { unit: Some(u), range }) => if str_eq(u.as_str(), "unit.percent") {
                    Some((#[verifier::truncate] (range.min as u8), #[verifier::truncate] (range.max as u8)))
                } else {
                    None
                },
                _ => None,
            },
            None => None,
        },
        None => None,
    }
}

/// A fan entity.
pub struct FanConfig {
    pub base: EntityConfig,
    pub command_topic: String,
    /// Home Assistant publishes here to change the mode.
    pub mode_command_topic: String,
    /// The current mode is published here.
    pub mode_state_topic: String,
    pub speed_range_min: Option<u8>,
    pub speed_range_max: Option<u8>,
    /// Home Assistant publishes here to change the speed.
    pub percentage_command_topic: String,
    /// The current speed is published here.
    pub percentage_state_topic: String,
    /// Home Assistant publishes here to change the oscillation.
    pub oscillation_command_topic: String,
    /// The oscillation state is published here.
    pub oscillation_state_topic: String,
    pub optimistic: bool,
    /// The supported modes.
    pub preset_modes: Vec<String>,
    pub state_topic: String,
}

/// The fan entity of a device.
pub struct Fan {
    pub fan: FanConfig,
    pub device_id: String,
}

impl Fan {
    /// The fan entity of a device. `use_iot` says whether its state comes
    /// through the IoT API (else the entity is optimistic); `preset_modes`
    /// are the names of its work modes; `info` is its Platform API
    /// information, whose "fan" capability gives the speed range.
    pub fn new(
        device: &Device,
        device_type: DeviceType,
        use_iot: bool,
        preset_modes: Vec<String>,
        info: &Option<HttpDeviceInfo>,
    ) -> (r: Self)
        ensures
            r.fan.base.availability_topic@ == "gv2mqtt/availability"@,
            opt_view(r.fan.base.name) == (if device_type == DeviceType::Fan { None } else { Some("Fan"@) }),
            opt_view(r.fan.base.device_class) == Some("fan"@),
            r.fan.base.unique_id@ == device_topic("gv2mqtt-"@, *device, "-fan"@),
            r.fan.base.entity_category is None,
            r.fan.base.icon is None,
            is_device_of(r.fan.base.device, *device),
            r.fan.command_topic@ == device_topic("gv2mqtt/switch/"@, *device, "/command/powerSwitch"@),
            r.fan.oscillation_command_topic@ == device_topic("gv2mqtt/fan/"@, *device, "/set-oscillation"@),
            r.fan.oscillation_state_topic@ == device_topic("gv2mqtt/fan/"@, *device, "/notify-oscillation"@),
            r.fan.state_topic@ == device_topic("gv2mqtt/fan/"@, *device, "/state"@),
            r.fan.mode_state_topic@ == device_topic("gv2mqtt/fan/"@, *device, "/notify-mode"@),
            r.fan.mode_command_topic@ == device_topic("gv2mqtt/fan/"@, *device, "/set-mode"@),
            r.fan.percentage_command_topic@ == device_topic("gv2mqtt/fan/"@, *device, "/set-speed"@),
            r.fan.percentage_state_topic@ == device_topic("gv2mqtt/fan/"@, *device, "/notify-speed"@),
            (r.fan.speed_range_min, r.fan.speed_range_max) == match spec_percent_range(*info, "fan"@) {
                Some((min, max)) => (Some(min), Some(max)),
                None => (None::<u8>, None::<u8>),
            },
            r.fan.optimistic == !use_iot,
            r.fan.preset_modes@ == preset_modes@,
            r.device_id@ == device.id@,
    {
        let range = percent_range(info, "fan");
        let (speed_range_min, speed_range_max) = match range {
            Some((min, max)) => (Some(min), Some(max)),
            None => (None, None),
        };
        Fan {
            fan: FanConfig {
                base: EntityConfig {
                    availability_topic: availability_topic(),
                    name: if device_type == DeviceType::Fan { None } else { Some(owned("Fan")) },
                    device_class: Some(owned("fan")),
                    device: device_entity(device),
                    unique_id: make_device_topic("gv2mqtt-", device, "-fan"),
                    entity_category: None,
                    icon: None,
                },
                command_topic: make_device_topic("gv2mqtt/switch/", device, "/command/powerSwitch"),
                mode_command_topic: make_device_topic("gv2mqtt/fan/", device, "/set-mode"),
                mode_state_topic: make_device_topic("gv2mqtt/fan/", device, "/notify-mode"),
                speed_range_min,
                speed_range_max,
                percentage_command_topic: make_device_topic("gv2mqtt/fan/", device, "/set-speed"),
                percentage_state_topic: make_device_topic("gv2mqtt/fan/", device, "/notify-speed"),
                oscillation_command_topic: make_device_topic("gv2mqtt/fan/", device, "/set-oscillation"),
                oscillation_state_topic: make_device_topic("gv2mqtt/fan/", device, "/notify-oscillation"),
                optimistic: !use_iot,
                preset_modes,
                state_topic: make_device_topic("gv2mqtt/fan/", device, "/state"),
            },
            device_id: owned(device.id.as_str()),
        }
    }
}

/// A humidifier entity.
pub struct HumidifierConfig {
    pub base: EntityConfig,
    pub command_topic: String,
    /// Home Assistant publishes here to change the target humidity.
    pub target_humidity_command_topic: String,
    /// The target humidity is published here.
    pub target_humidity_state_topic: String,
    /// Home Assistant publishes here to change the mode.
    pub mode_command_topic: String,
    /// The current mode is published here.
    pub mode_state_topic: String,
    pub min_humidity: Option<u8>,
    pub max_humidity: Option<u8>,
    pub optimistic: bool,
    /// The supported modes.
    pub modes: Vec<String>,
    pub state_topic: String,
}

/// The humidifier entity of a device.
pub struct Humidifier {
    pub humidifier: HumidifierConfig,
    pub device_id: String,
}

impl Humidifier {
    /// The humidifier entity of a device. `use_iot` says whether its state
    /// comes through the IoT API (else the entity is optimistic); `modes`
    /// are the names of its work modes; `info` is its Platform API
    /// information, whose "humidity" capability gives the target range.
    pub fn new(
        device: &Device,
        device_type: DeviceType,
        use_iot: bool,
        modes: Vec<String>,
        info: &Option<HttpDeviceInfo>,
    ) -> (r: Self)
        ensures
            is_entity(
                r.humidifier.base,
                if device_type == DeviceType::Humidifier { None } else { Some("Humidifier"@) },
                device_topic("gv2mqtt-"@, *device, "-humidifier"@),
                None,
            ),
            is_device_of(r.humidifier.base.device, *device),
            r.humidifier.command_topic@ == device_topic("gv2mqtt/switch/"@, *device, "/command/powerSwitch"@),
            r.humidifier.target_humidity_command_topic@ == device_topic("gv2mqtt/humidifier/"@, *device, "/set-target"@),
            r.humidifier.target_humidity_state_topic@ == device_topic("gv2mqtt/humidifier/"@, *device, "/notify-target"@),
            r.humidifier.state_topic@ == device_topic("gv2mqtt/humidifier/"@, *device, "/state"@),
            r.humidifier.mode_command_topic@ == device_topic("gv2mqtt/humidifier/"@, *device, "/set-mode"@),
            r.humidifier.mode_state_topic@ == device_topic("gv2mqtt/humidifier/"@, *device, "/notify-mode"@),
            (r.humidifier.min_humidity, r.humidifier.max_humidity) == match spec_percent_range(*info, "humidity"@) {
                Some((min, max)) => (Some(min), Some(max)),
                None => (None::<u8>, None::<u8>),
            },
            r.humidifier.optimistic == !use_iot,
            r.humidifier.modes@ == modes@,
            r.device_id@ == device.id@,
    {
        let range = percent_range(info, "humidity");
        let (min_humidity, max_humidity) = match range {
            Some((min, max)) => (Some(min), Some(max)),
            None => (None, None),
        };
        Humidifier {
            humidifier: HumidifierConfig {
                base: EntityConfig {
                    availability_topic: availability_topic(),
                    name: if device_type == DeviceType::Humidifier { None } else { Some(owned("Humidifier")) },
                    device_class: None,
                    device: device_entity(device),
                    unique_id: make_device_topic("gv2mqtt-", device, "-humidifier"),
                    entity_category: None,
                    icon: None,
                },
                command_topic: make_device_topic("gv2mqtt/switch/", device, "/command/powerSwitch"),
                target_humidity_command_topic: make_device_topic("gv2mqtt/humidifier/", device, "/set-target"),
                target_humidity_state_topic: make_device_topic("gv2mqtt/humidifier/", device, "/notify-target"),
                mode_command_topic: make_device_topic("gv2mqtt/humidifier/", device, "/set-mode"),
                mode_state_topic: make_device_topic("gv2mqtt/humidifier/", device, "/notify-mode"),
                min_humidity,
                max_humidity,
                optimistic: !use_iot,
                modes,
                state_topic: make_device_topic("gv2mqtt/humidifier/", device, "/state"),
            },
            device_id: owned(device.id.as_str()),
        }
    }
}

// ---------------------------------------------------------------------------
// Selects, scenes, covers and topic parameters
// ---------------------------------------------------------------------------

/// A select entity.
pub struct SelectConfig {
    pub base: EntityConfig,
    pub command_topic: String,
    pub options: Vec<String>,
    pub state_topic: String,
}

/// The select entity of a device's work modes.
pub struct WorkModeSelect {
    pub select: SelectConfig,
    pub device_id: String,
}

impl WorkModeSelect {
    /// The "Mode" select of a device, offering its work modes.
    pub fn new(device: &Device, mode_names: Vec<String>) -> (r: Self)
        ensures
            is_entity(r.select.base, Some("Mode"@), device_topic("gv2mqtt-"@, *device, "-workMode"@), None),
            is_device_of(r.select.base.device, *device),
            r.select.command_topic@ == device_topic("gv2mqtt/"@, *device, "/set-work-mode"@),
            r.select.state_topic@ == device_topic("gv2mqtt/"@, *device, "/notify-work-mode"@),
            r.select.options@ == mode_names@,
            r.device_id@ == device.id@,
    {
        WorkModeSelect {
            select: SelectConfig {
                base: EntityConfig {
                    availability_topic: availability_topic(),
                    name: Some(owned("Mode")),
                    device_class: None,
                    device: device_entity(device),
                    unique_id: make_device_topic("gv2mqtt-", device, "-workMode"),
                    entity_category: None,
                    icon: None,
                },
                command_topic: make_device_topic("gv2mqtt/", device, "/set-work-mode"),
                options: mode_names,
                state_topic: make_device_topic("gv2mqtt/", device, "/notify-work-mode"),
            },
            device_id: owned(device.id.as_str()),
        }
    }
}

/// The select entity of a device's scenes.
pub struct SceneModeSelect {
    pub select: SelectConfig,
    pub device_id: String,
}

impl SceneModeSelect {
    /// The "Mode/Scene" select of a device, offering its scenes; none when
    /// it has no scenes.
    pub fn new(device: &Device, scenes: Vec<String>) -> (r: Option<Self>)
        ensures
            scenes@.len() == 0 <==> r is None,
            r matches Some(s) ==> {
                &&& is_entity(s.select.base, Some("Mode/Scene"@), device_topic("gv2mqtt-"@, *device, "-mode-scene"@), None)
                &&& is_device_of(s.select.base.device, *device)
                &&& s.select.command_topic@ == device_topic("gv2mqtt/"@, *device, "/set-mode-scene"@)
                &&& s.select.state_topic@ == device_topic("gv2mqtt/"@, *device, "/notify-mode-scene"@)
                &&& s.select.options@ == scenes@
                &&& s.device_id@ == device.id@
            },
    {
        if scenes.len() == 0 {
            return None;
        }
        Some(SceneModeSelect {
            select: SelectConfig {
                base: EntityConfig {
                    availability_topic: availability_topic(),
                    name: Some(owned("Mode/Scene")),
                    device_class: None,
                    device: device_entity(device),
                    unique_id: make_device_topic("gv2mqtt-", device, "-mode-scene"),
                    entity_category: None,
                    icon: None,
                },
                command_topic: make_device_topic("gv2mqtt/", device, "/set-mode-scene"),
                options: scenes,
                state_topic: make_device_topic("gv2mqtt/", device, "/notify-mode-scene"),
            },
            device_id: owned(device.id.as_str()),
        })
    }
}

/// A scene entity.
pub struct SceneConfig {
    pub base: EntityConfig,
    pub command_topic: String,
    pub payload_on: String,
}

impl SceneConfig {
    /// The scene of the bridge that activates the one-click shortcut
    /// `name`; its unique id holds the name-based UUID of the name.
    pub fn one_click(name: &str) -> (r: Self)
        ensures
            is_entity(r.base, Some(name@), "gv2mqtt-one-click-"@ + spec_name_uuid(name@), None),
            r.base.device is Service,
            r.command_topic@ == "gv2mqtt/oneclick"@,
            r.payload_on@ == name@,
    {
        let uuid = name_uuid(name);
        SceneConfig {
            base: EntityConfig {
                availability_topic: availability_topic(),
                name: Some(owned(name)),
                device_class: None,
                device: EntityDevice::Service,
                unique_id: crate::strings::concat_str("gv2mqtt-one-click-", uuid.as_str()),
                entity_category: None,
                icon: None,
            },
            command_topic: oneclick_topic(),
            payload_on: owned(name),
        }
    }
}

/// A cover entity.
pub struct CoverConfig {
    pub base: EntityConfig,
    pub state_topic: String,
    pub position_topic: String,
    pub set_position_topic: String,
    pub command_topic: String,
}

/// The `id`, `mode_name` and `work_mode` parameters of a number topic.
pub struct IdAndModeName {
    pub id: String,
    pub mode_name: String,
    pub work_mode: String,
}

/// The `id` and `units` parameters of a temperature topic.
pub struct IdAndUnits {
    pub id: String,
    pub units: String,
}

impl IdAndUnits {
    /// The temperature scale that the units name.
    pub fn scale(&self) -> (r: Result<TemperatureScale, crate::temperature::UnknownTemperatureScale>)
        ensures
            crate::temperature::names_celsius(self.units@) ==> r matches Ok(TemperatureScale::Celsius),
            !crate::temperature::names_celsius(self.units@) && crate::temperature::names_fahrenheit(self.units@)
                ==> r matches Ok(TemperatureScale::Fahrenheit),
            !crate::temperature::names_celsius(self.units@) && !crate::temperature::names_fahrenheit(self.units@)
                ==> (r matches Err(e) && e.text@ == self.units@),
    {
        TemperatureScale::parse(self.units.as_str())
    }
}

// ---------------------------------------------------------------------------
// Reported state
// ---------------------------------------------------------------------------

/// The state of a device as its entities report it.
pub struct DeviceState {
    pub on: bool,
    pub brightness: u8,
    pub color: DeviceColor,
    /// The colour temperature in kelvin; zero when the light shows a colour.
    pub kelvin: u32,
    pub scene: Option<String>,
}

/// The state a light reports.
pub enum LightStatePayload {
    Off,
    /// On, showing a colour.
    Rgb { color: DeviceColor, brightness: u8, effect: Option<String> },
    /// On, with a colour temperature in mireds.
    ColorTemp { brightness: u8, color_temp: u32, effect: Option<String> },
}

/// The light is on: a humidifier's light is its night light.
pub open spec fn spec_light_is_on(s: DeviceState, device_type: DeviceType, nightlight_on: Option<bool>) -> bool {
    if device_type == DeviceType::Humidifier {
        match nightlight_on {
            Some(on) => on,
            None => false,
        }
    } else {
        s.on
    }
}

impl LightConfig {
    /// The state to report for the light: none for an optimistic light;
    /// off when the state is unknown or the light is off; else its colour
    /// (when no colour temperature is set) or its colour temperature in
    /// mireds, with its brightness and scene.
    pub fn state_payload(
        &self,
        state: &Option<DeviceState>,
        device_type: DeviceType,
        nightlight_on: Option<bool>,
    ) -> (r: Option<LightStatePayload>)
        ensures
            self.optimistic ==> r is None,
            !self.optimistic ==> match *state {
                None => r matches Some(LightStatePayload::Off),
                Some(s) => if !spec_light_is_on(s, device_type, nightlight_on) {
                    r matches Some(LightStatePayload::Off)
                } else if s.kelvin == 0 {
                    r matches Some(LightStatePayload::Rgb { color, brightness, effect })
                        && color == s.color && brightness == s.brightness && opt_view(effect) == opt_view(s.scene)
                } else {
                    r matches Some(LightStatePayload::ColorTemp { brightness, color_temp, effect })
                        && brightness == s.brightness && color_temp == spec_reciprocal_million(s.kelvin)
                        && opt_view(effect) == opt_view(s.scene)
                },
            },
    {
        if self.optimistic {
            return None;
        }
        match state {
            None => Some(LightStatePayload::Off),
            Some(s) => {
                let is_on = if device_type == DeviceType::Humidifier {
                    match nightlight_on {
                        Some(on) => on,
                        None => false,
                    }
                } else {
                    s.on
                };
                let effect = match &s.scene {
                    Some(n) => Some(owned(n.as_str())),
                    None => None,
                };
                if !is_on {
                    Some(LightStatePayload::Off)
                } else if s.kelvin == 0 {
                    Some(LightStatePayload::Rgb { color: s.color, brightness: s.brightness, effect })
                } else {
                    Some(LightStatePayload::ColorTemp {
                        brightness: s.brightness,
                        color_temp: kelvin_to_mired(s.kelvin),
                        effect,
                    })
                }
            },
        }
    }
}

/// The text of a power state: "ON" or "OFF".
pub open spec fn spec_power_text(on: bool) -> Seq<char> {
    if on { "ON"@ } else { "OFF"@ }
}

/// The power and level that a humidifier or a fan reports.
pub struct LevelReport {
    /// "ON" or "OFF"; "OFF" when the state is unknown.
    pub power: String,
    /// The level to report.
    pub level: u8,
    /// The level is a first guess, to be recorded for the device so that it
    /// is reported again until the device says otherwise.
    pub record_level: bool,
}

/// The power and level to report: the known level, else the lowest of the
/// range (zero without a range), which is then recorded.
pub open spec fn level_report_ok(r: LevelReport, on: Option<bool>, level: Option<u8>, range_min: Option<u8>) -> bool {
    &&& r.power@ == spec_power_text(match on { Some(v) => v, None => false })
    &&& match level {
        Some(l) => r.level == l && !r.record_level,
        None => r.level == (match range_min { Some(m) => m, None => 0 }) && r.record_level,
    }
}

/// The power and level to report.
fn level_report(on: Option<bool>, level: Option<u8>, range_min: Option<u8>) -> (r: LevelReport)
    ensures
        level_report_ok(r, on, level, range_min),
{
    let power = match on {
        Some(true) => owned("ON"),
        _ => owned("OFF"),
    };
    match level {
        Some(l) => LevelReport { power, level: l, record_level: false },
        None => LevelReport {
            power,
            level: match range_min {
                Some(m) => m,
                None => 0,
            },
            record_level: true,
        },
    }
}

impl HumidifierConfig {
    /// The power and target humidity to report, given whether the device is
    /// on (when known) and its target humidity (when known).
    pub fn report(&self, on: Option<bool>, target_humidity: Option<u8>) -> (r: LevelReport)
        ensures
            level_report_ok(r, on, target_humidity, self.min_humidity),
    {
        level_report(on, target_humidity, self.min_humidity)
    }
}

impl FanConfig {
    /// The power and speed to report, given whether the device is on (when
    /// known) and its speed (when known).
    pub fn report(&self, on: Option<bool>, speed: Option<u8>) -> (r: LevelReport)
        ensures
            level_report_ok(r, on, speed, self.speed_range_min),
    {
        level_report(on, speed, self.speed_range_min)
    }
}

// ---------------------------------------------------------------------------
// Publishing
// ---------------------------------------------------------------------------

/// An entity whose configuration was published: what is remembered of it
/// to clean up entities that are no longer published.
pub struct PublishedEntity {
    pub unique_id: String,
    pub integration: String,
}

/// The retained topic that holds an entity's configuration:
/// `<prefix>/<integration>/<unique id>/config`.
pub open spec fn spec_config_topic(disco_prefix: Seq<char>, integration: Seq<char>, unique_id: Seq<char>) -> Seq<char> {
    disco_prefix + "/"@ + integration + "/"@ + unique_id + "/config"@
}

/// The topic to which the configuration of the entity `base` of the given
/// integration is published under the discovery prefix, and the record of
/// it once published.
pub fn entity_config_topic(disco_prefix: &str, integration: &str, base: &EntityConfig) -> (r: (String, PublishedEntity))
    ensures
        r.0@ == spec_config_topic(disco_prefix@, integration@, base.unique_id@),
        r.1.unique_id@ == base.unique_id@,
        r.1.integration@ == integration@,
{
    let mut v = chars_of(disco_prefix);
    append_str(&mut v, "/");
    append_str(&mut v, integration);
    append_str(&mut v, "/");
    append_str(&mut v, base.unique_id.as_str());
    append_str(&mut v, "/config");
    proof {
        reveal_strlit("/");
        reveal_strlit("/config");
    }
    let topic = string_of(&v);
    (topic, PublishedEntity { unique_id: owned(base.unique_id.as_str()), integration: owned(integration) })
}

// ---------------------------------------------------------------------------
// Numbers
// ---------------------------------------------------------------------------

/// The text of a work mode's number in its command topic.
pub open spec fn mode_num_text(work_mode: OptionValueView) -> Seq<char> {
    match work_mode {
        OptionValueView::Integer(n) => spec_signed_decimal(n as int),
        OptionValueView::Other(_) => "work-mode-was-not-int"@,
    }
}

/// The number entity that sets the value of a work mode whose presets form
/// a range.
pub struct WorkModeNumber {
    pub base: EntityConfig,
    pub command_topic: String,
    pub state_topic: String,
    /// The least value that can be set.
    pub min: i64,
    /// The greatest value that can be set.
    pub max: i64,
    pub step: i64,
    pub device_id: String,
    pub mode_name: String,
    pub work_mode: OptionValue,
}

impl WorkModeNumber {
    /// The number for the mode `mode_name` (whose value is `work_mode`)
    /// over the values `range.0` up to but not including `range.1`; without
    /// a range, over 0 to 255.
    pub fn new(
        device: &Device,
        label: &str,
        mode_name: &str,
        work_mode: &OptionValue,
        range: Option<(i64, i64)>,
    ) -> (r: Self)
        ensures
            is_entity(r.base, Some(label@), device_topic("gv2mqtt-"@, *device, "-"@) + mode_name@ + "-number"@, None),
            is_device_of(r.base.device, *device),
            r.command_topic@ == device_topic("gv2mqtt/number/"@, *device, "/command/"@) + mode_name@ + "/"@
                + mode_num_text(work_mode@),
            r.state_topic@ == device_topic("gv2mqtt/number/"@, *device, "/state/"@)
                + spec_topic_safe_string(mode_name@),
            r.min == match range {
                Some(rg) => rg.0,
                None => 0,
            },
            r.max == match range {
                Some(rg) => if rg.1 == i64::MIN { i64::MIN } else { (rg.1 - 1) as i64 },
                None => 255,
            },
            r.step == 1,
            r.device_id@ == device.id@,
            r.mode_name@ == mode_name@,
            r.work_mode@ == work_mode@,
    {
        let chead = make_device_topic("gv2mqtt/number/", device, "/command/");
        let mut c = chars_of(chead.as_str());
        append_str(&mut c, mode_name);
        append_str(&mut c, "/");
        match work_mode {
            OptionValue::Integer(n) => {
                let digits = signed_decimal_chars(*n);
                append_chars(&mut c, &digits);
            },
            OptionValue::Other(_) => {
                append_str(&mut c, "work-mode-was-not-int");
            },
        }
        let shead = make_device_topic("gv2mqtt/number/", device, "/state/");
        let safe = topic_safe_string(mode_name);
        let state_topic = crate::strings::concat_str(shead.as_str(), safe.as_str());
        let uhead = make_device_topic("gv2mqtt-", device, "-");
        let mut u = chars_of(uhead.as_str());
        append_str(&mut u, mode_name);
        append_str(&mut u, "-number");
        let (min, max) = match range {
            Some((start, end)) => (start, if end == i64::MIN { end } else { end - 1 }),
            None => (0i64, 255i64),
        };
        let wm = match work_mode {
            OptionValue::Integer(n) => OptionValue::Integer(*n),
            OptionValue::Other(t) => OptionValue::Other(owned(t.as_str())),
        };
        WorkModeNumber {
            base: EntityConfig {
                availability_topic: availability_topic(),
                name: Some(owned(label)),
                device_class: None,
                device: device_entity(device),
                unique_id: string_of(&u),
                entity_category: None,
                icon: None,
            },
            command_topic: string_of(&c),
            state_topic,
            min,
            max,
            step: 1,
            device_id: owned(device.id.as_str()),
            mode_name: owned(mode_name),
            work_mode: wm,
        }
    }
}

/// The number entity that sets a device's target temperature, but for its
/// bounds and step, which are in fractional degrees.
pub struct TargetTemperatureEntity {
    pub base: EntityConfig,
    pub command_topic: String,
    pub unit_of_measurement: String,
}

impl TargetTemperatureEntity {
    /// The entity for the temperature capability `instance` of the device,
    /// with commands in the scale `units`.
    pub fn new(device: &Device, instance: &DeviceCapability, units: TemperatureScale) -> (r: Self)
        ensures
            opt_view(r.base.name) == Some("Target Temperature"@),
            r.base.availability_topic@ == "gv2mqtt/availability"@,
            r.base.device_class is None,
            r.base.unique_id@ == spec_topic_safe_id(device.id@) + "-"@ + spec_topic_safe_string(instance.instance@),
            r.base.entity_category is None,
            opt_view(r.base.icon) == Some("mdi:thermometer"@),
            is_device_of(r.base.device, *device),
            r.command_topic@ == device_topic("gv2mqtt/"@, *device, "/set-temperature/"@) + spec_scale_unit(units),
            r.unit_of_measurement@ == spec_scale_unit(units),
    {
        let id = topic_safe_id(device);
        let inst = topic_safe_string(instance.instance.as_str());
        let mut u = chars_of(id.as_str());
        append_str(&mut u, "-");
        append_str(&mut u, inst.as_str());
        let unit = units.unit_of_measurement();
        let head = make_device_topic("gv2mqtt/", device, "/set-temperature/");
        let command_topic = crate::strings::concat_str(head.as_str(), unit);
        TargetTemperatureEntity {
            base: EntityConfig {
                availability_topic: availability_topic(),
                name: Some(owned("Target Temperature")),
                device_class: None,
                device: device_entity(device),
                unique_id: string_of(&u),
                entity_category: None,
                icon: Some(owned("mdi:thermometer")),
            },
            command_topic,
            unit_of_measurement: owned(unit),
        }
    }
}

} // verus!

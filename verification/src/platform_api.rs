//! The data model of the Govee Platform API: device types, capabilities and
//! their parameters, and the decisions taken from them when a device is
//! controlled. The HTTP requests themselves are made outside this library.

use vstd::prelude::*;
use crate::strings::{owned, str_eq, concat_str, string_of, append_str, append_chars, decimal_chars_u64,
    signed_decimal_chars, spec_decimal, spec_signed_decimal};
use crate::env::{EnvVar, SettingError, spec_text_setting, text_setting};
use crate::device_database::opt_view;
use crate::strings::{eq_ignore_ascii_case, spec_lower_seq};
use crate::quirks::strings_view;
use crate::state::{sort_and_dedup_scenes, spec_sort_and_dedup};

verus! {

/// The type of a device.
#[derive(Clone, Copy, Debug, Default, PartialEq, Eq, Structural)]
pub enum DeviceType {
    #[default]
    Light,
    AirPurifier,
    Thermometer,
    Socket,
    Sensor,
    Heater,
    Humidifier,
    Dehumidifier,
    IceMaker,
    AromaDiffuser,
    Kettle,
    Fan,
    Other,
}

/// The server of the Platform API.
pub const SERVER: &'static str = "https://openapi.api.govee.com";

/// The full URL of a path on the Platform API server.
pub fn endpoint(url: &str) -> (r: String)
    ensures
        r@ == SERVER@ + url@,
{
    concat_str(SERVER, url)
}

/// The message when no API key is given.
pub const API_KEY_REQUIRED: &'static str = "Please specify the api key either via the --api-key parameter or by setting $GOVEE_API_KEY";

/// The Platform API settings from the command line.
pub struct GoveeApiArguments {
    /// The Govee API Key. If not passed here, it is read from the
    /// GOVEE_API_KEY environment variable.
    pub api_key: Option<String>,
}

impl GoveeApiArguments {
    /// The API key, if given: the argument, else GOVEE_API_KEY, whose value
    /// the caller passes as `env`.
    pub fn opt_api_key(&self, env: &EnvVar) -> (r: Result<Option<String>, SettingError>)
        ensures
            match spec_text_setting(self.api_key, *env) {
                Some(v) => r is Ok && opt_view(r->Ok_0) == v,
                None => r matches Err(SettingError::NotUnicode { name }) && name@ == "GOVEE_API_KEY"@,
            },
    {
        text_setting(&self.api_key, "GOVEE_API_KEY", env)
    }

    /// The API key, which is required.
    pub fn api_key(&self, env: &EnvVar) -> (r: Result<String, SettingError>)
        ensures
            match spec_text_setting(self.api_key, *env) {
                Some(Some(v)) => r is Ok && r->Ok_0@ == v,
                Some(None) => r matches Err(SettingError::Required { message }) && message@ == API_KEY_REQUIRED@,
                None => r matches Err(SettingError::NotUnicode { name }) && name@ == "GOVEE_API_KEY"@,
            },
    {
        match self.opt_api_key(env) {
            Ok(Some(k)) => Ok(k),
            Ok(None) => Err(SettingError::Required { message: owned(API_KEY_REQUIRED) }),
            Err(e) => Err(e),
        }
    }

    /// A client that uses the API key.
    pub fn api_client(&self, env: &EnvVar) -> (r: Result<GoveeApiClient, SettingError>)
        ensures
            match spec_text_setting(self.api_key, *env) {
                Some(Some(v)) => r is Ok && r->Ok_0.key@ == v,
                Some(None) => r matches Err(SettingError::Required { message }) && message@ == API_KEY_REQUIRED@,
                None => r matches Err(SettingError::NotUnicode { name }) && name@ == "GOVEE_API_KEY"@,
            },
    {
        match self.api_key(env) {
            Ok(k) => Ok(GoveeApiClient::new(k.as_str())),
            Err(e) => Err(e),
        }
    }
}

/// A client of the Platform API: the key it authenticates with.
pub struct GoveeApiClient {
    pub key: String,
}

impl GoveeApiClient {
    /// A client that authenticates with `key`.
    pub fn new(key: &str) -> (r: Self)
        ensures
            r.key@ == key@,
    {
        GoveeApiClient { key: owned(key) }
    }
}

/// The kind of a capability.
#[derive(Clone, Copy, Debug, PartialEq, Eq, Structural)]
pub enum DeviceCapabilityKind {
    OnOff,
    Toggle,
    Range,
    Mode,
    ColorSetting,
    SegmentColorSetting,
    MusicSetting,
    DynamicScene,
    WorkMode,
    DynamicSetting,
    TemperatureSetting,
    Online,
    Other,
}

/// Capabilities of these kinds hold scenes.
pub open spec fn is_scene_kind(k: DeviceCapabilityKind) -> bool {
    k == DeviceCapabilityKind::DynamicScene || k == DeviceCapabilityKind::DynamicSetting
}

/// The range of an element of an array parameter.
#[derive(Clone, Copy, Debug, PartialEq, Eq, Structural)]
pub struct ElementRange {
    pub min: u32,
    pub max: u32,
}

/// The size of an array parameter.
#[derive(Clone, Copy, Debug, PartialEq, Eq, Structural)]
pub struct ArraySize {
    pub min: u32,
    pub max: u32,
}

/// The range of an integer parameter.
#[derive(Clone, Copy, Debug, PartialEq, Eq, Structural)]
pub struct IntegerRange {
    pub min: u32,
    pub max: u32,
    pub precision: u32,
}

/// One choice of an array parameter.
#[derive(Clone, Copy, Debug, PartialEq, Eq, Structural)]
pub struct ArrayOption {
    pub value: u32,
}

/// The value of an enumeration option: an integer when the JSON value is
/// one that fits in an `i64`, else the JSON text of the value.
pub enum OptionValue {
    Integer(i64),
    Other(String),
}

/// The view of an option value.
pub enum OptionValueView {
    Integer(i64),
    Other(Seq<char>),
}

impl View for OptionValue {
    type V = OptionValueView;

    open spec fn view(&self) -> OptionValueView {
        match *self {
            OptionValue::Integer(i) => OptionValueView::Integer(i),
            OptionValue::Other(t) => OptionValueView::Other(t@),
        }
    }
}

impl OptionValue {
    /// A copy of the value.
    pub fn duplicate(&self) -> (r: OptionValue)
        ensures
            r@ == self@,
    {
        match self {
            OptionValue::Integer(i) => OptionValue::Integer(*i),
            OptionValue::Other(t) => OptionValue::Other(owned(t.as_str())),
        }
    }
}

/// One choice of a work mode's value, as listed in the "options" field of
/// an enumeration option.
pub struct ModeOption {
    pub name: Option<String>,
    pub value: OptionValue,
}

/// One option of an enumeration parameter.
pub struct EnumOption {
    pub name: String,
    pub value: OptionValue,
    /// Further fields of the option: each name with its JSON text.
    pub extras: Vec<(String, String)>,
    /// The further field "options", when it is present and is a list of
    /// mode choices.
    pub mode_options: Option<Vec<ModeOption>>,
}

/// A field of a structure parameter.
pub struct StructField {
    pub field_name: String,
    pub field_type: DeviceParameters,
    /// The JSON text of the default value.
    pub default_value: Option<String>,
    pub required: bool,
}

/// The parameters of a capability.
pub enum DeviceParameters {
    Enum { options: Vec<EnumOption> },
    Integer { unit: Option<String>, range: IntegerRange },
    Struct { fields: Vec<StructField> },
    Array {
        size: Option<ArraySize>,
        element_range: Option<ElementRange>,
        element_type: Option<String>,
        options: Vec<ArrayOption>,
    },
}

/// A capability of a device.
pub struct DeviceCapability {
    pub kind: DeviceCapabilityKind,
    pub instance: String,
    pub parameters: Option<DeviceParameters>,
    pub alarm_type: Option<u32>,
    /// The JSON text of the event state.
    pub event_state: Option<String>,
}

/// A device as the Platform API lists it.
pub struct HttpDeviceInfo {
    pub sku: String,
    pub device: String,
    pub device_name: String,
    pub device_type: DeviceType,
    pub capabilities: Vec<DeviceCapability>,
}

/// The capability at `i` has the given instance name.
pub open spec fn instance_at(caps: Seq<DeviceCapability>, instance: Seq<char>, i: int) -> bool {
    0 <= i < caps.len() && caps[i].instance@ == instance
}

/// The first index with the given instance name (meaningful when there is
/// one).
pub open spec fn first_instance_index(caps: Seq<DeviceCapability>, instance: Seq<char>) -> int {
    choose|i: int| instance_at(caps, instance, i) && forall|j: int| 0 <= j < i ==> !instance_at(caps, instance, j)
}

/// The index of the first capability with the given instance name.
pub open spec fn first_instance(caps: Seq<DeviceCapability>, instance: Seq<char>) -> Option<int> {
    if exists|i: int| instance_at(caps, instance, i) {
        Some(first_instance_index(caps, instance))
    } else {
        None
    }
}

/// The option at `j` has the given name and an integer value.
pub open spec fn int_option_at(options: Seq<EnumOption>, name: Seq<char>, j: int) -> bool {
    0 <= j < options.len() && options[j].name@ == name && options[j].value is Integer
}

/// The index of the first option with the given name and an integer value
/// (meaningful when there is one).
pub open spec fn first_int_option(o: Seq<EnumOption>, name: Seq<char>) -> int {
    choose|j: int| int_option_at(o, name, j) && forall|k: int| 0 <= k < j ==> !int_option_at(o, name, k)
}

/// The value of the first option with the given name and an integer value,
/// cut to 32 bits, when the parameters are an enumeration.
pub open spec fn spec_enum_parameter(params: Option<DeviceParameters>, name: Seq<char>) -> Option<u32> {
    match params {
        Some(DeviceParameters::Enum { options }) => {
            let o = options@;
            if exists|j: int| int_option_at(o, name, j) {
                Some(o[first_int_option(o, name)].value->Integer_0 as u32)
            } else {
                None
            }
        },
        _ => None,
    }
}

/// The range of the parameters, when they are an integer.
pub open spec fn integer_range(params: Option<DeviceParameters>) -> Option<IntegerRange> {
    match params {
        Some(DeviceParameters::Integer { range, .. }) => Some(range),
        _ => None,
    }
}

/// The field at `i` has the given name.
pub open spec fn field_at(fields: Seq<StructField>, name: Seq<char>, i: int) -> bool {
    0 <= i < fields.len() && fields[i].field_name@ == name
}

/// The index of the first field with the given name (meaningful when there
/// is one).
pub open spec fn first_field_index(fields: Seq<StructField>, name: Seq<char>) -> int {
    choose|i: int| field_at(fields, name, i) && forall|j: int| 0 <= j < i ==> !field_at(fields, name, j)
}

/// The first field with the given name, when the parameters are a
/// structure that has one.
pub open spec fn spec_struct_field(params: Option<DeviceParameters>, name: Seq<char>) -> Option<StructField> {
    match params {
        Some(DeviceParameters::Struct { fields }) => if exists|i: int| field_at(fields@, name, i) {
            Some(fields@[first_field_index(fields@, name)])
        } else {
            None
        },
        _ => None,
    }
}

impl DeviceCapability {
    /// The field of a structure parameter with the given name.
    pub fn struct_field_by_name(&self, name: &str) -> (r: Option<&StructField>)
        ensures
            match spec_struct_field(self.parameters, name@) {
                Some(f) => r matches Some(g) && *g == f,
                None => r is None,
            },
    {
        match &self.parameters {
            Some(DeviceParameters::Struct { fields }) => {
                let mut i: usize = 0;
                while i < fields.len()
                    invariant
                        i <= fields.len(),
                        self.parameters matches Some(DeviceParameters::Struct { fields: ff }) && ff@ == fields@,
                        forall|j: int| 0 <= j < i ==> !field_at(fields@, name@, j),
                    decreases fields.len() - i,
                {
                    if str_eq(fields[i].field_name.as_str(), name) {
                        proof {
                            assert(field_at(fields@, name@, i as int));
                            let w = first_field_index(fields@, name@);
                            assert(w == i) by {
                                if w < i {
                                } else if w > i {
                                }
                            }
                        }
                        return Some(&fields[i]);
                    }
                    i = i + 1;
                }
                None
            },
            _ => None,
        }
    }

    /// The value of the enumeration option with the given name, when it is
    /// an integer.
    pub fn enum_parameter_by_name(&self, name: &str) -> (r: Option<u32>)
        ensures
            r == spec_enum_parameter(self.parameters, name@),
    {
        match &self.parameters {
            Some(DeviceParameters::Enum { options }) => {
                let ghost o = options@;
                let mut j: usize = 0;
                while j < options.len()
                    invariant
                        j <= options.len(),
                        o == options@,
                        self.parameters matches Some(DeviceParameters::Enum { options: oo }) && oo@ == o,
                        forall|k: int| 0 <= k < j ==> !int_option_at(o, name@, k),
                    decreases options.len() - j,
                {
                    let opt = &options[j];
                    if str_eq(opt.name.as_str(), name) {
                        if let OptionValue::Integer(v) = opt.value {
                            proof {
                                assert(int_option_at(o, name@, j as int));
                                let w = first_int_option(o, name@);
                                assert(w == j) by {
                                    if w < j {
                                    } else if w > j {
                                    }
                                }
                            }
                            return Some(#[verifier::truncate] (v as u32));
                        }
                    }
                    j = j + 1;
                }
                None
            },
            _ => None,
        }
    }
}

impl HttpDeviceInfo {
    /// The first capability with the given instance name.
    pub fn capability_by_instance(&self, instance: &str) -> (r: Option<&DeviceCapability>)
        ensures
            match first_instance(self.capabilities@, instance@) {
                Some(i) => r matches Some(c) && *c == self.capabilities@[i],
                None => r is None,
            },
    {
        let ghost caps = self.capabilities@;
        let mut i: usize = 0;
        while i < self.capabilities.len()
            invariant
                i <= self.capabilities.len(),
                caps == self.capabilities@,
                forall|j: int| 0 <= j < i ==> !instance_at(caps, instance@, j),
            decreases self.capabilities.len() - i,
        {
            if str_eq(self.capabilities[i].instance.as_str(), instance) {
                proof {
                    assert(instance_at(caps, instance@, i as int));
                    let w = first_instance_index(caps, instance@);
                    assert(w == i) by {
                        if w < i {
                        } else if w > i {
                        }
                    }
                }
                return Some(&self.capabilities[i]);
            }
            i = i + 1;
        }
        None
    }

    /// The device can be given an RGB colour.
    pub fn supports_rgb(&self) -> (r: bool)
        ensures
            r == first_instance(self.capabilities@, "colorRgb"@) is Some,
    {
        self.capability_by_instance("colorRgb").is_some()
    }

    /// The device can be given a brightness.
    pub fn supports_brightness(&self) -> (r: bool)
        ensures
            r == first_instance(self.capabilities@, "brightness"@) is Some,
    {
        self.capability_by_instance("brightness").is_some()
    }

    /// The range of colour temperatures, in kelvin, when the device has an
    /// integer colour temperature capability.
    pub fn get_color_temperature_range(&self) -> (r: Option<(u32, u32)>)
        ensures
            r == match first_instance(self.capabilities@, "colorTemperatureK"@) {
                Some(i) => match integer_range(self.capabilities@[i].parameters) {
                    Some(range) => Some((range.min, range.max)),
                    None => None,
                },
                None => None,
            },
    {
        match self.capability_by_instance("colorTemperatureK") {
            Some(cap) => match &cap.parameters {
                Some(DeviceParameters::Integer { range, .. }) => Some((range.min, range.max)),
                _ => None,
            },
            None => None,
        }
    }
}

// ---------------------------------------------------------------------------
// Controlling a device through the Platform API
// ---------------------------------------------------------------------------

/// The value sent to a capability.
pub enum ControlValue {
    Number(u32),
    Choice(OptionValue),
}

/// The view of a control value.
pub enum ControlValueView {
    Number(u32),
    Choice(OptionValueView),
}

impl View for ControlValue {
    type V = ControlValueView;

    open spec fn view(&self) -> ControlValueView {
        match *self {
            ControlValue::Number(n) => ControlValueView::Number(n),
            ControlValue::Choice(v) => ControlValueView::Choice(v@),
        }
    }
}

/// A control request of the Platform API: which device, which capability,
/// and the value.
pub struct DeviceControl {
    pub sku: String,
    pub device: String,
    pub kind: DeviceCapabilityKind,
    pub instance: String,
    pub value: ControlValue,
}

/// `c` sends `value` to the capability `cap` of the device `info`.
pub open spec fn is_control(c: DeviceControl, info: HttpDeviceInfo, cap: DeviceCapability, value: ControlValueView) -> bool {
    &&& c.sku@ == info.sku@
    &&& c.device@ == info.device@
    &&& c.kind == cap.kind
    &&& c.instance@ == cap.instance@
    &&& c.value@ == value
}

/// Why a device cannot be controlled as asked.
pub enum PlatformError {
    /// The device has no capability with this instance name.
    NoCapability { instance: String },
    /// The toggle capability has no "on" or "off" option.
    NoOnOff { instance: String },
    /// The capability's parameters are not of the expected type.
    UnexpectedParameters { instance: String },
    /// No scene of the device has this name.
    SceneNotAvailable { scene: String },
}

/// The request that sends `value` to `cap`.
fn make_control(info: &HttpDeviceInfo, cap: &DeviceCapability, value: ControlValue) -> (r: DeviceControl)
    ensures
        is_control(r, *info, *cap, value@),
{
    DeviceControl {
        sku: owned(info.sku.as_str()),
        device: owned(info.device.as_str()),
        kind: cap.kind,
        instance: owned(cap.instance.as_str()),
        value,
    }
}

/// `v` raised to at least `min`, then lowered to at most `max`.
pub open spec fn spec_clamp(v: u32, min: u32, max: u32) -> u32 {
    let a = if v >= min { v } else { min };
    if a <= max { a } else { max }
}

/// The number sent for an RGB colour: red, green and blue bytes from the
/// most significant down.
pub open spec fn spec_rgb_value(r: u8, g: u8, b: u8) -> u32 {
    ((r as u32) * 65536 + (g as u32) * 256 + (b as u32)) as u32
}

/// The request result for an integer capability: the clamped value, or why
/// it cannot be sent.
pub open spec fn integer_control_ok(
    r: Result<DeviceControl, PlatformError>,
    info: HttpDeviceInfo,
    instance: Seq<char>,
    value: u32,
) -> bool {
    match first_instance(info.capabilities@, instance) {
        None => r matches Err(PlatformError::NoCapability { instance: n }) && n@ == instance,
        Some(i) => match integer_range(info.capabilities@[i].parameters) {
            None => r matches Err(PlatformError::UnexpectedParameters { instance: n }) && n@ == instance,
            Some(range) => r matches Ok(c) && is_control(
                c,
                info,
                info.capabilities@[i],
                ControlValueView::Number(spec_clamp(value, range.min, range.max)),
            ),
        },
    }
}

impl HttpDeviceInfo {
    /// The request that sets a toggle capability on or off, by its "on" or
    /// "off" option.
    pub fn toggle_control(&self, instance: &str, on: bool) -> (r: Result<DeviceControl, PlatformError>)
        ensures
            match first_instance(self.capabilities@, instance@) {
                None => r matches Err(PlatformError::NoCapability { instance: n }) && n@ == instance@,
                Some(i) => match spec_enum_parameter(
                    self.capabilities@[i].parameters,
                    if on { "on"@ } else { "off"@ },
                ) {
                    None => r matches Err(PlatformError::NoOnOff { instance: n }) && n@ == instance@,
                    Some(v) => r matches Ok(c) && is_control(c, *self, self.capabilities@[i], ControlValueView::Number(v)),
                },
            },
    {
        match self.capability_by_instance(instance) {
            None => Err(PlatformError::NoCapability { instance: owned(instance) }),
            Some(cap) => match cap.enum_parameter_by_name(if on { "on" } else { "off" }) {
                None => Err(PlatformError::NoOnOff { instance: owned(instance) }),
                Some(v) => Ok(make_control(self, cap, ControlValue::Number(v))),
            },
        }
    }

    /// The request that turns the device on or off.
    pub fn power_control(&self, on: bool) -> (r: Result<DeviceControl, PlatformError>)
        ensures
            match first_instance(self.capabilities@, "powerSwitch"@) {
                None => r matches Err(PlatformError::NoCapability { instance: n }) && n@ == "powerSwitch"@,
                Some(i) => match spec_enum_parameter(
                    self.capabilities@[i].parameters,
                    if on { "on"@ } else { "off"@ },
                ) {
                    None => r matches Err(PlatformError::NoOnOff { instance: n }) && n@ == "powerSwitch"@,
                    Some(v) => r matches Ok(c) && is_control(c, *self, self.capabilities@[i], ControlValueView::Number(v)),
                },
            },
    {
        self.toggle_control("powerSwitch", on)
    }

    /// The request that sends the integer `value`, as it is, to the
    /// capability `instance`.
    pub fn value_control(&self, instance: &str, value: i64) -> (r: Result<DeviceControl, PlatformError>)
        ensures
            match first_instance(self.capabilities@, instance@) {
                None => r matches Err(PlatformError::NoCapability { instance: n }) && n@ == instance@,
                Some(i) => r matches Ok(c) && is_control(
                    c,
                    *self,
                    self.capabilities@[i],
                    ControlValueView::Choice(OptionValueView::Integer(value)),
                ),
            },
    {
        match self.capability_by_instance(instance) {
            None => Err(PlatformError::NoCapability { instance: owned(instance) }),
            Some(cap) => Ok(make_control(self, cap, ControlValue::Choice(OptionValue::Integer(value)))),
        }
    }

    /// The request that sends a number, clamped to the capability's range.
    fn integer_control(&self, instance: &str, value: u32) -> (r: Result<DeviceControl, PlatformError>)
        ensures
            integer_control_ok(r, *self, instance@, value),
    {
        match self.capability_by_instance(instance) {
            None => Err(PlatformError::NoCapability { instance: owned(instance) }),
            Some(cap) => match &cap.parameters {
                Some(DeviceParameters::Integer { range, .. }) => {
                    let a = if value >= range.min { value } else { range.min };
                    let v = if a <= range.max { a } else { range.max };
                    Ok(make_control(self, cap, ControlValue::Number(v)))
                },
                _ => Err(PlatformError::UnexpectedParameters { instance: owned(instance) }),
            },
        }
    }

    /// The request that sets the brightness, in percent, clamped to the
    /// range of the "brightness" capability.
    pub fn brightness_control(&self, percent: u8) -> (r: Result<DeviceControl, PlatformError>)
        ensures
            integer_control_ok(r, *self, "brightness"@, percent as u32),
    {
        self.integer_control("brightness", percent as u32)
    }

    /// The request that sets the colour temperature, in kelvin, clamped to
    /// the range of the "colorTemperatureK" capability.
    pub fn color_temperature_control(&self, kelvin: u32) -> (r: Result<DeviceControl, PlatformError>)
        ensures
            integer_control_ok(r, *self, "colorTemperatureK"@, kelvin),
    {
        self.integer_control("colorTemperatureK", kelvin)
    }

    /// The request that sets the colour through the "colorRgb" capability.
    pub fn color_rgb_control(&self, r: u8, g: u8, b: u8) -> (res: Result<DeviceControl, PlatformError>)
        ensures
            match first_instance(self.capabilities@, "colorRgb"@) {
                None => res matches Err(PlatformError::NoCapability { instance: n }) && n@ == "colorRgb"@,
                Some(i) => res matches Ok(c) && is_control(
                    c,
                    *self,
                    self.capabilities@[i],
                    ControlValueView::Number(spec_rgb_value(r, g, b)),
                ),
            },
    {
        match self.capability_by_instance("colorRgb") {
            None => Err(PlatformError::NoCapability { instance: owned("colorRgb") }),
            Some(cap) => {
                let value: u32 = ((r as u32) << 16u32) | ((g as u32) << 8u32) | (b as u32);
                assert(((r as u32) << 16u32) | ((g as u32) << 8u32) | (b as u32) == (r as u32) * 65536 + (g as u32) * 256 + (b as u32)) by (bit_vector);
                Ok(make_control(self, cap, ControlValue::Number(value)))
            },
        }
    }
}

// ---------------------------------------------------------------------------
// Scenes
// ---------------------------------------------------------------------------

/// The names of the options of an enumeration.
pub open spec fn option_names(options: Seq<EnumOption>) -> Seq<Seq<char>> {
    options.map_values(|o: EnumOption| o.name@)
}

/// The names of the scenes among the capabilities, in order: the option
/// names of each scene capability. A scene capability that is not an
/// enumeration is an error, which names the first such capability.
pub open spec fn spec_scene_names(caps: Seq<DeviceCapability>) -> Result<Seq<Seq<char>>, Seq<char>>
    decreases caps.len(),
{
    if caps.len() == 0 {
        Ok(Seq::empty())
    } else {
        match spec_scene_names(caps.drop_last()) {
            Err(e) => Err(e),
            Ok(names) => {
                let c = caps.last();
                if !is_scene_kind(c.kind) {
                    Ok(names)
                } else {
                    match c.parameters {
                        Some(DeviceParameters::Enum { options }) => Ok(names + option_names(options@)),
                        _ => Err(c.instance@),
                    }
                }
            },
        }
    }
}

/// Where a scene name is found among the capabilities.
pub enum SceneLookup {
    /// The option `option` of the capability `cap` names the scene.
    Found { cap: int, option: int },
    /// A scene capability before any match is not an enumeration.
    Unexpected { instance: Seq<char> },
    /// No scene capability has the name.
    NotFound,
}

/// The option at `j` has the scene's name, with ASCII case ignored.
pub open spec fn names_scene_at(options: Seq<EnumOption>, scene: Seq<char>, j: int) -> bool {
    0 <= j < options.len() && spec_lower_seq(options[j].name@) == spec_lower_seq(scene)
}

/// The index of the first option with the scene's name (meaningful when
/// there is one).
pub open spec fn first_scene_option(options: Seq<EnumOption>, scene: Seq<char>) -> int {
    choose|j: int| names_scene_at(options, scene, j) && forall|k: int| 0 <= k < j ==> !names_scene_at(options, scene, k)
}

/// Looking for a scene in order through the scene capabilities and their
/// options.
pub open spec fn spec_scene_lookup(caps: Seq<DeviceCapability>, scene: Seq<char>) -> SceneLookup
    decreases caps.len(),
{
    if caps.len() == 0 {
        SceneLookup::NotFound
    } else {
        match spec_scene_lookup(caps.drop_last(), scene) {
            SceneLookup::NotFound => {
                let c = caps.last();
                if !is_scene_kind(c.kind) {
                    SceneLookup::NotFound
                } else {
                    match c.parameters {
                        Some(DeviceParameters::Enum { options }) => {
                            if exists|j: int| names_scene_at(options@, scene, j) {
                                SceneLookup::Found { cap: caps.len() - 1, option: first_scene_option(options@, scene) }
                            } else {
                                SceneLookup::NotFound
                            }
                        },
                        _ => SceneLookup::Unexpected { instance: c.instance@ },
                    }
                }
            },
            other => other,
        }
    }
}

/// The capabilities in which scenes are looked for, in order: the device's
/// own, then the scene list, the DIY scene list and the scenes found in the
/// undocumented API.
pub open spec fn scene_sources(
    own: Seq<DeviceCapability>,
    scenes: Seq<DeviceCapability>,
    diy: Seq<DeviceCapability>,
    extra: Seq<DeviceCapability>,
) -> Seq<DeviceCapability> {
    own + scenes + diy + extra
}

/// Adds the scene names of `caps` to `names`.
fn collect_scene_names(
    caps: &Vec<DeviceCapability>,
    names: &mut Vec<String>,
    Ghost(before): Ghost<Seq<DeviceCapability>>,
) -> (r: Result<(), PlatformError>)
    requires
        spec_scene_names(before) is Ok,
        strings_view(old(names)@) == spec_scene_names(before)->Ok_0,
    ensures
        match spec_scene_names(before + caps@) {
            Ok(all) => r is Ok && strings_view(final(names)@) == all,
            Err(inst) => r matches Err(PlatformError::UnexpectedParameters { instance }) && instance@ == inst,
        },
{
    let mut i: usize = 0;
    assert(before + caps@.take(0) =~= before);
    while i < caps.len()
        invariant
            i <= caps.len(),
            spec_scene_names(before + caps@.take(i as int)) is Ok,
            strings_view(names@) == spec_scene_names(before + caps@.take(i as int))->Ok_0,
        decreases caps.len() - i,
    {
        let ghost prefix = before + caps@.take(i + 1);
        assert(prefix.drop_last() =~= before + caps@.take(i as int));
        assert(prefix.last() == caps@[i as int]);
        let cap = &caps[i];
        let is_scene = match cap.kind {
            DeviceCapabilityKind::DynamicScene | DeviceCapabilityKind::DynamicSetting => true,
            _ => false,
        };
        if is_scene {
            match &cap.parameters {
                Some(DeviceParameters::Enum { options }) => {
                    let ghost start = strings_view(names@);
                    let mut j: usize = 0;
                    while j < options.len()
                        invariant
                            j <= options.len(),
                            strings_view(names@) == start + option_names(options@).take(j as int),
                        decreases options.len() - j,
                    {
                        let ghost before_push = strings_view(names@);
                        names.push(owned(options[j].name.as_str()));
                        assert(strings_view(names@) =~= before_push.push(options@[j as int].name@));
                        j = j + 1;
                        assert(start + option_names(options@).take(j as int) =~= before_push.push(options@[j - 1].name@));
                    }
                    assert(option_names(options@).take(options.len() as int) =~= option_names(options@));
                },
                _ => {
                    assert(caps@ =~= caps@.take(i as int) + caps@.skip(i as int));
                    proof {
                        lemma_scene_names_err_extends(before + caps@.take(i + 1), caps@.skip(i + 1));
                        assert(before + caps@.take(i + 1) + caps@.skip(i + 1) =~= before + caps@);
                    }
                    return Err(PlatformError::UnexpectedParameters { instance: owned(cap.instance.as_str()) });
                },
            }
        }
        i = i + 1;
    }
    assert(caps@.take(caps.len() as int) =~= caps@);
    Ok(())
}

/// Once the scene names of a prefix are an error, so are those of every
/// extension, with the same error.
proof fn lemma_scene_names_err_extends(a: Seq<DeviceCapability>, b: Seq<DeviceCapability>)
    requires
        spec_scene_names(a) is Err,
    ensures
        spec_scene_names(a + b) == spec_scene_names(a),
    decreases b.len(),
{
    if b.len() == 0 {
        assert(a + b =~= a);
    } else {
        lemma_scene_names_err_extends(a, b.drop_last());
        assert((a + b).drop_last() =~= a + b.drop_last());
    }
}

impl HttpDeviceInfo {
    /// The names of the device's scenes, from its own capabilities and the
    /// given scene lists, sorted and without duplicates.
    pub fn list_scene_names(
        &self,
        scenes: &Vec<DeviceCapability>,
        diy: &Vec<DeviceCapability>,
        extra: &Vec<DeviceCapability>,
    ) -> (r: Result<Vec<String>, PlatformError>)
        ensures
            match spec_scene_names(scene_sources(self.capabilities@, scenes@, diy@, extra@)) {
                Ok(names) => r is Ok && strings_view(r->Ok_0@) == spec_sort_and_dedup(names),
                Err(inst) => r matches Err(PlatformError::UnexpectedParameters { instance }) && instance@ == inst,
            },
    {
        let mut names: Vec<String> = Vec::new();
        let ghost e = Seq::<DeviceCapability>::empty();
        assert(strings_view(names@) =~= Seq::<Seq<char>>::empty());
        let r1 = collect_scene_names(&self.capabilities, &mut names, Ghost(e));
        assert(e + self.capabilities@ =~= self.capabilities@);
        let ghost s1 = self.capabilities@;
        if let Err(err) = r1 {
            proof {
                lemma_scene_names_err_extends(s1, scenes@ + diy@ + extra@);
                assert(s1 + (scenes@ + diy@ + extra@) =~= scene_sources(self.capabilities@, scenes@, diy@, extra@));
            }
            return Err(err);
        }
        let r2 = collect_scene_names(scenes, &mut names, Ghost(s1));
        let ghost s2 = s1 + scenes@;
        if let Err(err) = r2 {
            proof {
                lemma_scene_names_err_extends(s2, diy@ + extra@);
                assert(s2 + (diy@ + extra@) =~= scene_sources(self.capabilities@, scenes@, diy@, extra@));
            }
            return Err(err);
        }
        let r3 = collect_scene_names(diy, &mut names, Ghost(s2));
        let ghost s3 = s2 + diy@;
        if let Err(err) = r3 {
            proof {
                lemma_scene_names_err_extends(s3, extra@);
                assert(s3 + extra@ =~= scene_sources(self.capabilities@, scenes@, diy@, extra@));
            }
            return Err(err);
        }
        let r4 = collect_scene_names(extra, &mut names, Ghost(s3));
        assert(s3 + extra@ =~= scene_sources(self.capabilities@, scenes@, diy@, extra@));
        if let Err(err) = r4 {
            return Err(err);
        }
        Ok(sort_and_dedup_scenes(names))
    }
}

/// The options of parameters that are an enumeration (else none).
pub open spec fn enum_options(p: Option<DeviceParameters>) -> Seq<EnumOption> {
    match p {
        Some(DeviceParameters::Enum { options }) => options@,
        _ => Seq::empty(),
    }
}

/// Once a scene lookup has ended on a prefix, its outcome holds for every
/// extension.
proof fn lemma_scene_lookup_extends(a: Seq<DeviceCapability>, b: Seq<DeviceCapability>, scene: Seq<char>)
    requires
        !(spec_scene_lookup(a, scene) is NotFound),
    ensures
        spec_scene_lookup(a + b, scene) == spec_scene_lookup(a, scene),
    decreases b.len(),
{
    if b.len() == 0 {
        assert(a + b =~= a);
    } else {
        lemma_scene_lookup_extends(a, b.drop_last(), scene);
        assert((a + b).drop_last() =~= a + b.drop_last());
    }
}

/// A scene found in `a` is at one of its capabilities.
proof fn lemma_scene_lookup_bounds(a: Seq<DeviceCapability>, scene: Seq<char>)
    ensures
        spec_scene_lookup(a, scene) matches SceneLookup::Found { cap, option } ==> 0 <= cap < a.len(),
    decreases a.len(),
{
    if a.len() > 0 {
        lemma_scene_lookup_bounds(a.drop_last(), scene);
    }
}

/// The outcome of looking for a scene in `all`, as a request or an error;
/// none while it is not found.
pub open spec fn scene_lookup_result(
    r: Option<Result<DeviceControl, PlatformError>>,
    info: HttpDeviceInfo,
    all: Seq<DeviceCapability>,
    scene: Seq<char>,
) -> bool {
    match spec_scene_lookup(all, scene) {
        SceneLookup::NotFound => r is None,
        SceneLookup::Found { cap, option } => r matches Some(Ok(c)) && is_control(
            c,
            info,
            all[cap],
            ControlValueView::Choice(enum_options(all[cap].parameters)[option].value@),
        ),
        SceneLookup::Unexpected { instance } => r matches Some(Err(PlatformError::UnexpectedParameters { instance: n })) && n@ == instance,
    }
}

/// An outcome found in a prefix is the outcome in every extension.
proof fn lemma_scene_result_extends(
    r: Option<Result<DeviceControl, PlatformError>>,
    info: HttpDeviceInfo,
    a: Seq<DeviceCapability>,
    b: Seq<DeviceCapability>,
    scene: Seq<char>,
)
    requires
        scene_lookup_result(r, info, a, scene),
        r is Some,
    ensures
        scene_lookup_result(r, info, a + b, scene),
{
    lemma_scene_lookup_extends(a, b, scene);
    lemma_scene_lookup_bounds(a, scene);
    if let SceneLookup::Found { cap, option } = spec_scene_lookup(a, scene) {
        assert((a + b)[cap] == a[cap]);
    }
}

/// Looks for the scene in `caps`, which follow `before`, where it was not
/// found.
fn find_scene_in(
    info: &HttpDeviceInfo,
    caps: &Vec<DeviceCapability>,
    scene: &str,
    Ghost(before): Ghost<Seq<DeviceCapability>>,
) -> (r: Option<Result<DeviceControl, PlatformError>>)
    requires
        spec_scene_lookup(before, scene@) is NotFound,
    ensures
        scene_lookup_result(r, *info, before + caps@, scene@),
{
    let mut i: usize = 0;
    assert(before + caps@.take(0) =~= before);
    while i < caps.len()
        invariant
            i <= caps.len(),
            spec_scene_lookup(before + caps@.take(i as int), scene@) is NotFound,
        decreases caps.len() - i,
    {
        let ghost prefix = before + caps@.take(i + 1);
        assert(prefix.drop_last() =~= before + caps@.take(i as int));
        assert(prefix.last() == caps@[i as int]);
        let cap = &caps[i];
        let is_scene = match cap.kind {
            DeviceCapabilityKind::DynamicScene | DeviceCapabilityKind::DynamicSetting => true,
            _ => false,
        };
        if is_scene {
            match &cap.parameters {
                Some(DeviceParameters::Enum { options }) => {
                    let mut j: usize = 0;
                    while j < options.len()
                        invariant
                            j <= options.len(),
                            i < caps.len(),
                            prefix == before + caps@.take(i + 1),
                            prefix.drop_last() == before + caps@.take(i as int),
                            prefix.last() == caps@[i as int],
                            spec_scene_lookup(before + caps@.take(i as int), scene@) is NotFound,
                            *cap == caps@[i as int],
                            is_scene_kind(cap.kind),
                            cap.parameters matches Some(DeviceParameters::Enum { options: oo }) && oo@ == options@,
                            forall|k: int| 0 <= k < j ==> !names_scene_at(options@, scene@, k),
                        decreases options.len() - j,
                    {
                        if eq_ignore_ascii_case(options[j].name.as_str(), scene) {
                            proof {
                                assert(names_scene_at(options@, scene@, j as int));
                                let w = first_scene_option(options@, scene@);
                                assert(w == j) by {
                                    if w < j {
                                    } else if w > j {
                                    }
                                }
                                assert(spec_scene_lookup(prefix, scene@) == SceneLookup::Found { cap: prefix.len() - 1, option: j as int });
                                lemma_scene_lookup_extends(prefix, caps@.skip(i + 1), scene@);
                                assert(prefix + caps@.skip(i + 1) =~= before + caps@);
                                assert((before + caps@)[prefix.len() - 1] == caps@[i as int]);
                            }
                            let value = options[j].value.duplicate();
                            return Some(Ok(make_control(info, cap, ControlValue::Choice(value))));
                        }
                        j = j + 1;
                    }
                },
                _ => {
                    proof {
                        lemma_scene_lookup_extends(prefix, caps@.skip(i + 1), scene@);
                        assert(prefix + caps@.skip(i + 1) =~= before + caps@);
                    }
                    return Some(Err(PlatformError::UnexpectedParameters { instance: owned(cap.instance.as_str()) }));
                },
            }
        }
        i = i + 1;
    }
    assert(caps@.take(caps.len() as int) =~= caps@);
    None
}

impl HttpDeviceInfo {
    /// The request that activates the scene with the given name (ASCII case
    /// ignored), looked for in the device's own capabilities and then in
    /// the given scene lists.
    pub fn scene_control(
        &self,
        scenes: &Vec<DeviceCapability>,
        diy: &Vec<DeviceCapability>,
        extra: &Vec<DeviceCapability>,
        scene: &str,
    ) -> (r: Result<DeviceControl, PlatformError>)
        ensures
            ({
                let all = scene_sources(self.capabilities@, scenes@, diy@, extra@);
                match spec_scene_lookup(all, scene@) {
                    SceneLookup::NotFound => r matches Err(PlatformError::SceneNotAvailable { scene: n }) && n@ == scene@,
                    _ => scene_lookup_result(Some(r), *self, all, scene@),
                }
            }),
    {
        let ghost e = Seq::<DeviceCapability>::empty();
        let ghost all = scene_sources(self.capabilities@, scenes@, diy@, extra@);
        let ghost s1 = self.capabilities@;
        let ghost s2 = s1 + scenes@;
        let ghost s3 = s2 + diy@;
        assert(e + self.capabilities@ =~= s1);
        assert(s3 + extra@ =~= all);
        let o1 = find_scene_in(self, &self.capabilities, scene, Ghost(e));
        if o1.is_some() {
            proof {
                lemma_scene_result_extends(o1, *self, s1, scenes@ + diy@ + extra@, scene@);
                assert(s1 + (scenes@ + diy@ + extra@) =~= all);
            }
            return o1.unwrap();
        }
        let o2 = find_scene_in(self, scenes, scene, Ghost(s1));
        if o2.is_some() {
            proof {
                lemma_scene_result_extends(o2, *self, s2, diy@ + extra@, scene@);
                assert(s2 + (diy@ + extra@) =~= all);
            }
            return o2.unwrap();
        }
        let o3 = find_scene_in(self, diy, scene, Ghost(s2));
        if o3.is_some() {
            proof {
                lemma_scene_result_extends(o3, *self, s3, extra@, scene@);
            }
            return o3.unwrap();
        }
        let o4 = find_scene_in(self, extra, scene, Ghost(s3));
        if o4.is_some() {
            return o4.unwrap();
        }
        Err(PlatformError::SceneNotAvailable { scene: owned(scene) })
    }
}


// ---------------------------------------------------------------------------
// Music modes
// ---------------------------------------------------------------------------

/// Why a music mode cannot be listed or set.
pub enum MusicModeError {
    /// The device has no "musicMode" capability.
    NoMusicMode,
    /// The capability's parameters are not a structure, or its "musicMode"
    /// field is not an enumeration.
    UnexpectedParameters,
    /// The structure has no "musicMode" field.
    FieldMissing,
    /// No music mode has this name.
    ModeNotFound { mode: String },
}

/// The kind of a music mode error, without its data.
pub open spec fn same_music_error(a: MusicModeError, b: MusicModeError) -> bool {
    match (a, b) {
        (MusicModeError::NoMusicMode, MusicModeError::NoMusicMode) => true,
        (MusicModeError::UnexpectedParameters, MusicModeError::UnexpectedParameters) => true,
        (MusicModeError::FieldMissing, MusicModeError::FieldMissing) => true,
        (MusicModeError::ModeNotFound { mode: x }, MusicModeError::ModeNotFound { mode: y }) => x@ == y@,
        _ => false,
    }
}

/// The music modes of a device: the options of the "musicMode" field of
/// its "musicMode" capability, and that capability's index.
pub open spec fn spec_music_options(caps: Seq<DeviceCapability>) -> Result<(int, Seq<EnumOption>), MusicModeError> {
    match first_instance(caps, "musicMode"@) {
        None => Err(MusicModeError::NoMusicMode),
        Some(i) => match caps[i].parameters {
            Some(DeviceParameters::Struct { fields }) => if exists|k: int| field_at(fields@, "musicMode"@, k) {
                match fields@[first_field_index(fields@, "musicMode"@)].field_type {
                    DeviceParameters::Enum { options } => Ok((i, options@)),
                    _ => Err(MusicModeError::UnexpectedParameters),
                }
            } else {
                Err(MusicModeError::FieldMissing)
            },
            _ => Err(MusicModeError::UnexpectedParameters),
        },
    }
}

/// The JSON text of an option's value.
pub open spec fn option_json_text(v: OptionValueView) -> Seq<char> {
    match v {
        OptionValueView::Integer(i) => spec_signed_decimal(i as int),
        OptionValueView::Other(t) => t,
    }
}

/// The JSON text of a music mode request:
/// `{"autoColor":0|1,"musicMode":<mode>,"rgb":<colour or null>,"sensitivity":<n>}`.
pub open spec fn music_value_text(
    mode: OptionValueView,
    sensitivity: u8,
    auto_color: bool,
    rgb: Option<(u8, u8, u8)>,
) -> Seq<char> {
    "{\"autoColor\":"@ + (if auto_color { "1"@ } else { "0"@ }) + ",\"musicMode\":"@ + option_json_text(mode)
        + ",\"rgb\":"@ + match rgb {
        Some((r, g, b)) => spec_decimal(spec_rgb_value(r, g, b) as nat),
        None => "null"@,
    } + ",\"sensitivity\":"@ + spec_decimal(sensitivity as nat) + "}"@
}

/// The option at `j` has the given name, ASCII case ignored.
pub open spec fn named_option_at(options: Seq<EnumOption>, name: Seq<char>, j: int) -> bool {
    0 <= j < options.len() && spec_lower_seq(options[j].name@) == spec_lower_seq(name)
}

/// The index of the first option with the given name, ASCII case ignored
/// (meaningful when there is one).
pub open spec fn first_named_option(options: Seq<EnumOption>, name: Seq<char>) -> int {
    choose|j: int| named_option_at(options, name, j) && forall|k: int| 0 <= k < j ==> !named_option_at(options, name, k)
}

impl HttpDeviceInfo {
    /// The "musicMode" capability and its music mode options.
    fn music_options(&self) -> (r: Result<(&DeviceCapability, &Vec<EnumOption>), MusicModeError>)
        ensures
            match spec_music_options(self.capabilities@) {
                Ok((i, options)) => r matches Ok((c, o)) && *c == self.capabilities@[i] && o@ == options,
                Err(e) => r matches Err(f) && same_music_error(e, f),
            },
    {
        let cap = match self.capability_by_instance("musicMode") {
            None => return Err(MusicModeError::NoMusicMode),
            Some(c) => c,
        };
        match cap.struct_field_by_name("musicMode") {
            Some(field) => match &field.field_type {
                DeviceParameters::Enum { options } => Ok((cap, options)),
                _ => Err(MusicModeError::UnexpectedParameters),
            },
            None => match &cap.parameters {
                Some(DeviceParameters::Struct { .. }) => Err(MusicModeError::FieldMissing),
                _ => Err(MusicModeError::UnexpectedParameters),
            },
        }
    }

    /// The names of the device's music modes.
    pub fn music_mode_names(&self) -> (r: Result<Vec<String>, MusicModeError>)
        ensures
            match spec_music_options(self.capabilities@) {
                Ok((_, options)) => r matches Ok(names) && strings_view(names@) == options.map_values(
                    |o: EnumOption| o.name@,
                ),
                Err(e) => r matches Err(f) && same_music_error(e, f),
            },
    {
        let options = match self.music_options() {
            Ok((_, o)) => o,
            Err(e) => return Err(e),
        };
        let ghost opts = options@;
        let mut names: Vec<String> = Vec::new();
        let mut j: usize = 0;
        while j < options.len()
            invariant
                j <= options.len(),
                names@.len() == j,
                opts == options@,
                strings_view(names@) == opts.take(j as int).map_values(|o: EnumOption| o.name@),
            decreases options.len() - j,
        {
            let ghost before = names@;
            let n = owned(options[j].name.as_str());
            names.push(n);
            assert(names@ == before.push(n));
            assert(strings_view(names@) =~= strings_view(before).push(n@));
            assert(opts.take(j + 1) =~= opts.take(j as int).push(opts[j as int]));
            assert(strings_view(names@) =~= opts.take(j + 1).map_values(|o: EnumOption| o.name@));
            j = j + 1;
        }
        assert(options@.take(options.len() as int) =~= options@);
        Ok(names)
    }

    /// The request that switches the device to the music mode with the given
    /// name (ASCII case ignored), with the given sensitivity, automatic
    /// colour and colour.
    #[verifier::rlimit(40)]
    pub fn music_control(
        &self,
        mode: &str,
        sensitivity: u8,
        auto_color: bool,
        rgb: Option<(u8, u8, u8)>,
    ) -> (r: Result<DeviceControl, MusicModeError>)
        ensures
            match spec_music_options(self.capabilities@) {
                Ok((i, options)) => if exists|j: int| named_option_at(options, mode@, j) {
                    r matches Ok(c) && is_control(
                        c,
                        *self,
                        self.capabilities@[i],
                        ControlValueView::Choice(OptionValueView::Other(music_value_text(
                            options[first_named_option(options, mode@)].value@,
                            sensitivity,
                            auto_color,
                            rgb,
                        ))),
                    )
                } else {
                    r matches Err(MusicModeError::ModeNotFound { mode: m }) && m@ == mode@
                },
                Err(e) => r matches Err(f) && same_music_error(e, f),
            },
    {
        let ghost sm = spec_music_options(self.capabilities@);
        let (cap, options) = match self.music_options() {
            Ok(p) => p,
            Err(e) => {
                return Err(e);
            },
        };
        assert(sm is Ok);
        let ghost i = sm->Ok_0.0;
        assert(*cap == self.capabilities@[i] && options@ == sm->Ok_0.1);
        match find_named_option(options, mode) {
            Some(j) => {
                let text = music_text(&options[j].value, sensitivity, auto_color, rgb);
                let c = make_control(self, cap, ControlValue::Choice(OptionValue::Other(text)));
                return Ok(c);
            },
            None => {},
        }
        Err(MusicModeError::ModeNotFound { mode: owned(mode) })
    }
}

/// The index of the first option with the given name, ASCII case ignored.
fn find_named_option(options: &Vec<EnumOption>, name: &str) -> (r: Option<usize>)
    ensures
        match r {
            Some(j) => j < options@.len() && (exists|k: int| named_option_at(options@, name@, k)) && j
                == first_named_option(options@, name@),
            None => !exists|k: int| named_option_at(options@, name@, k),
        },
{
    let mut j: usize = 0;
    while j < options.len()
        invariant
            j <= options.len(),
            forall|k: int| 0 <= k < j ==> !named_option_at(options@, name@, k),
        decreases options.len() - j,
    {
        if eq_ignore_ascii_case(options[j].name.as_str(), name) {
            proof {
                assert(named_option_at(options@, name@, j as int));
                let w = first_named_option(options@, name@);
                assert(w == j) by {
                    if w < j {
                    } else if w > j {
                    }
                }
            }
            return Some(j);
        }
        j = j + 1;
    }
    None
}

/// The JSON text of a music mode request.
fn music_text(mode: &OptionValue, sensitivity: u8, auto_color: bool, rgb: Option<(u8, u8, u8)>) -> (r: String)
    ensures
        r@ == music_value_text(mode@, sensitivity, auto_color, rgb),
{
    let mut t: Vec<char> = Vec::new();
    append_str(&mut t, "{\"autoColor\":");
    if auto_color {
        append_str(&mut t, "1");
    } else {
        append_str(&mut t, "0");
    }
    append_str(&mut t, ",\"musicMode\":");
    match mode {
        OptionValue::Integer(i) => {
            let d = signed_decimal_chars(*i);
            append_chars(&mut t, &d);
        },
        OptionValue::Other(text) => append_str(&mut t, text.as_str()),
    }
    append_str(&mut t, ",\"rgb\":");
    match rgb {
        Some((r, g, b)) => {
            let value: u32 = ((r as u32) << 16u32) | ((g as u32) << 8u32) | (b as u32);
            assert(((r as u32) << 16u32) | ((g as u32) << 8u32) | (b as u32) == (r as u32) * 65536 + (g as u32) * 256 + (b as u32)) by (bit_vector);
            let d = decimal_chars_u64(value as u64);
            append_chars(&mut t, &d);
        },
        None => append_str(&mut t, "null"),
    }
    append_str(&mut t, ",\"sensitivity\":");
    let s = decimal_chars_u64(sensitivity as u64);
    append_chars(&mut t, &s);
    append_str(&mut t, "}");
    string_of(&t)
}

} // verus!

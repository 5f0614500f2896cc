//! The Home Assistant side of the bridge: MQTT topic names, the broker
//! settings, and what to do with the commands Home Assistant sends.

use vstd::prelude::*;
use crate::strings::{
    chars_of, string_of, owned, str_eq, ascii_lower, ascii_upper, spec_ascii_lower,
    spec_ascii_upper, is_uppercase, spec_is_uppercase, spec_decimal, decimal_chars,
    append_str, append_chars,
};
use crate::device::{Device, drop_char};
use crate::device_database::{without_char, opt_view};
use crate::env::{EnvVar, SettingError, spec_text_setting, text_setting, spec_parse_unsigned,
    parse_unsigned, spec_int_error_message};
use crate::lan_api::DeviceColor;
use crate::temperature::{TemperatureScale, names_celsius, names_fahrenheit};

verus! {

// ---------------------------------------------------------------------------
// Topics
// ---------------------------------------------------------------------------

/// The characters that cannot stand in a topic name.
pub open spec fn is_topic_unsafe(c: char) -> bool {
    c == ':' || c == ' ' || c == '\\' || c == '/' || c == '\'' || c == '"'
}

/// A character of a topic-safe string.
pub open spec fn spec_topic_safe_char(c: char) -> char {
    if is_topic_unsafe(c) {
        '_'
    } else {
        spec_ascii_lower(c)
    }
}

/// `s` with the characters that cannot stand in a topic replaced by `_`,
/// and ASCII letters in lower case.
pub open spec fn spec_topic_safe_string(s: Seq<char>) -> Seq<char> {
    Seq::new(s.len(), |i: int| spec_topic_safe_char(s[i]))
}

/// Makes a string safe to use as part of an MQTT topic.
pub fn topic_safe_string(s: &str) -> (r: String)
    ensures
        r@ == spec_topic_safe_string(s@),
{
    let t = chars_of(s);
    let mut out: Vec<char> = Vec::new();
    let mut i: usize = 0;
    while i < t.len()
        invariant
            i <= t.len(),
            t@ == s@,
            out@ == spec_topic_safe_string(s@).take(i as int),
        decreases t.len() - i,
    {
        let c = t[i];
        if c == ':' || c == ' ' || c == '\\' || c == '/' || c == '\'' || c == '"' {
            out.push('_');
        } else {
            out.push(ascii_lower(c));
        }
        i = i + 1;
        assert(out@ =~= spec_topic_safe_string(s@).take(i as int));
    }
    assert(spec_topic_safe_string(s@).take(t.len() as int) =~= spec_topic_safe_string(s@));
    string_of(&out)
}

/// Making a string topic-safe twice changes nothing more.
pub proof fn lemma_topic_safe_idempotent(s: Seq<char>)
    ensures
        spec_topic_safe_string(spec_topic_safe_string(s)) == spec_topic_safe_string(s),
{
    let once = spec_topic_safe_string(s);
    assert forall|i: int| 0 <= i < once.len() implies #[trigger] spec_topic_safe_char(once[i]) == once[i] by {
        let c = s[i];
        if !is_topic_unsafe(c) && 'A' <= c && c <= 'Z' {
            assert(('a' as u32) <= (spec_ascii_lower(c) as u32) <= ('z' as u32));
        }
    }
    assert(spec_topic_safe_string(once) =~= once);
}

/// The id of a device without colons and spaces.
pub open spec fn spec_topic_safe_id(id: Seq<char>) -> Seq<char> {
    without_char(without_char(id, ':'), ' ')
}

/// The device id in the form used in topic names.
pub fn topic_safe_id(device: &Device) -> (r: String)
    ensures
        r@ == spec_topic_safe_id(device.id@),
{
    let id = chars_of(device.id.as_str());
    let a = drop_char(&id, ':');
    let b = drop_char(&a, ' ');
    string_of(&b)
}

/// The state topic of one switch instance of a device.
pub fn switch_instance_state_topic(device: &Device, instance: &str) -> (r: String)
    ensures
        r@ == "gv2mqtt/switch/"@ + spec_topic_safe_id(device.id@) + "/"@ + instance@ + "/state"@,
{
    let id = topic_safe_id(device);
    let mut v = chars_of("gv2mqtt/switch/");
    append_str(&mut v, id.as_str());
    append_str(&mut v, "/");
    append_str(&mut v, instance);
    append_str(&mut v, "/state");
    string_of(&v)
}

/// The state topic of a light.
pub fn light_state_topic(device: &Device) -> (r: String)
    ensures
        r@ == "gv2mqtt/light/"@ + spec_topic_safe_id(device.id@) + "/state"@,
{
    let id = topic_safe_id(device);
    let mut v = chars_of("gv2mqtt/light/");
    append_str(&mut v, id.as_str());
    append_str(&mut v, "/state");
    string_of(&v)
}

/// The state topic of one segment of a light.
pub fn light_segment_state_topic(device: &Device, segment: u32) -> (r: String)
    ensures
        r@ == "gv2mqtt/light/"@ + spec_topic_safe_id(device.id@) + "/state/"@ + spec_decimal(
            segment as nat,
        ),
{
    let id = topic_safe_id(device);
    let mut v = chars_of("gv2mqtt/light/");
    append_str(&mut v, id.as_str());
    append_str(&mut v, "/state/");
    let digits = decimal_chars(segment);
    append_chars(&mut v, &digits);
    string_of(&v)
}

/// All entities use the same topic so that they can be marked unavailable
/// through the broker's last will.
pub fn availability_topic() -> (r: String)
    ensures
        r@ == "gv2mqtt/availability"@,
{
    owned("gv2mqtt/availability")
}

/// The topic on which a one-click shortcut is activated.
pub fn oneclick_topic() -> (r: String)
    ensures
        r@ == "gv2mqtt/oneclick"@,
{
    owned("gv2mqtt/oneclick")
}

/// The topic on which the caches are purged.
pub fn purge_cache_topic() -> (r: String)
    ensures
        r@ == "gv2mqtt/purge-caches"@,
{
    owned("gv2mqtt/purge-caches")
}

/// The `id` parameter of a topic.
pub struct IdParameter {
    pub id: String,
}

// ---------------------------------------------------------------------------
// Colour temperature
// ---------------------------------------------------------------------------

/// Mireds to kelvin (and back): one million divided by the value, with zero
/// kept as zero.
pub open spec fn spec_reciprocal_million(v: u32) -> u32 {
    if v == 0 {
        0
    } else {
        (1000000u32 / v) as u32
    }
}

/// Converts a colour temperature in mireds to kelvin.
pub fn mired_to_kelvin(mired: u32) -> (r: u32)
    ensures
        r == spec_reciprocal_million(mired),
{
    if mired == 0 {
        0
    } else {
        1000000 / mired
    }
}

/// Converts a colour temperature in kelvin to mireds.
pub fn kelvin_to_mired(kelvin: u32) -> (r: u32)
    ensures
        r == spec_reciprocal_million(kelvin),
{
    if kelvin == 0 {
        0
    } else {
        1000000 / kelvin
    }
}

// ---------------------------------------------------------------------------
// Names
// ---------------------------------------------------------------------------

/// The characters of `s` with a space before each upper-case character.
pub open spec fn spec_space_before_upper(s: Seq<char>) -> Seq<char>
    decreases s.len(),
{
    if s.len() == 0 {
        s
    } else {
        let rest = spec_space_before_upper(s.drop_last());
        if spec_is_uppercase(s.last()) {
            rest.push(' ').push(s.last())
        } else {
            rest.push(s.last())
        }
    }
}

/// A camel-case name as words: the first character in upper case, and a
/// space before each following upper-case character.
pub open spec fn spec_camel_to_words(camel: Seq<char>) -> Seq<char> {
    seq![spec_ascii_upper(camel[0])] + spec_space_before_upper(camel.skip(1))
}

/// Turns a camel-case name such as "powerSwitch" into "Power Switch". The
/// first character must be ASCII, as the name is cut after its first byte.
pub fn camel_case_to_space_separated(camel: &str) -> (r: String)
    requires
        camel@.len() > 0,
        (camel@[0] as int) < 128,
    ensures
        r@ == spec_camel_to_words(camel@),
{
    let t = chars_of(camel);
    let mut out: Vec<char> = Vec::new();
    out.push(ascii_upper(t[0]));
    let ghost rest = camel@.skip(1);
    let mut i: usize = 1;
    while i < t.len()
        invariant
            1 <= i <= t.len(),
            t@ == camel@,
            rest == camel@.skip(1),
            out@ == seq![spec_ascii_upper(camel@[0])] + spec_space_before_upper(rest.take(i - 1)),
        decreases t.len() - i,
    {
        let c = t[i];
        let ghost before = out@;
        assert(rest.take(i as int).drop_last() =~= rest.take(i - 1));
        assert(rest.take(i as int).last() == c);
        if is_uppercase(c) {
            out.push(' ');
        }
        out.push(c);
        i = i + 1;
        assert(out@ =~= seq![spec_ascii_upper(camel@[0])] + spec_space_before_upper(rest.take(i - 1)));
    }
    assert(rest.take(t.len() - 1) =~= rest);
    string_of(&out)
}

// ---------------------------------------------------------------------------
// Broker settings
// ---------------------------------------------------------------------------

/// The message when no broker host is given.
pub const MQTT_HOST_REQUIRED: &'static str = "Please specify the mqtt broker either via the --mqtt-host parameter or by setting $GOVEE_MQTT_HOST";

/// The broker port used when none is given.
pub const DEFAULT_MQTT_PORT: u16 = 1883;

/// The Home Assistant settings from the command line. Each setting that is
/// not given there is read from its environment variable.
pub struct HassArguments {
    /// The mqtt broker hostname or address (GOVEE_MQTT_HOST).
    pub mqtt_host: Option<String>,
    /// The mqtt broker port (GOVEE_MQTT_PORT); 1883 if unspecified.
    pub mqtt_port: Option<u16>,
    /// The username to authenticate against the broker (GOVEE_MQTT_USER).
    pub mqtt_username: Option<String>,
    /// The password to authenticate against the broker (GOVEE_MQTT_PASSWORD).
    pub mqtt_password: Option<String>,
    pub mqtt_bind_address: Option<String>,
    pub hass_discovery_prefix: String,
    /// The temperature scale for temperature entities: "C" or "F"
    /// (GOVEE_TEMPERATURE_SCALE).
    pub temperature_scale: Option<String>,
}

/// The scale that a text names, when it names one.
pub open spec fn spec_named_scale(s: Seq<char>) -> Option<TemperatureScale> {
    if names_celsius(s) {
        Some(TemperatureScale::Celsius)
    } else if names_fahrenheit(s) {
        Some(TemperatureScale::Fahrenheit)
    } else {
        None
    }
}

/// An optional text setting is read as described by `spec_text_setting`.
pub open spec fn text_setting_result(
    r: Result<Option<String>, SettingError>,
    arg: Option<String>,
    name: Seq<char>,
    env: EnvVar,
) -> bool {
    match spec_text_setting(arg, env) {
        Some(v) => r is Ok && opt_view(r->Ok_0) == v,
        None => r matches Err(SettingError::NotUnicode { name: n }) && n@ == name,
    }
}

impl HassArguments {
    /// The broker host, if given: the argument, else GOVEE_MQTT_HOST, whose
    /// value the caller passes as `env`.
    pub fn opt_mqtt_host(&self, env: &EnvVar) -> (r: Result<Option<String>, SettingError>)
        ensures
            text_setting_result(r, self.mqtt_host, "GOVEE_MQTT_HOST"@, *env),
    {
        text_setting(&self.mqtt_host, "GOVEE_MQTT_HOST", env)
    }

    /// The broker host, which is required.
    pub fn mqtt_host(&self, env: &EnvVar) -> (r: Result<String, SettingError>)
        ensures
            match spec_text_setting(self.mqtt_host, *env) {
                Some(Some(v)) => r is Ok && r->Ok_0@ == v,
                Some(None) => r matches Err(SettingError::Required { message }) && message@ == MQTT_HOST_REQUIRED@,
                None => r matches Err(SettingError::NotUnicode { name }) && name@ == "GOVEE_MQTT_HOST"@,
            },
    {
        match self.opt_mqtt_host(env) {
            Ok(Some(h)) => Ok(h),
            Ok(None) => Err(SettingError::Required { message: owned(MQTT_HOST_REQUIRED) }),
            Err(e) => Err(e),
        }
    }

    /// The broker port: the argument, else GOVEE_MQTT_PORT read as a
    /// number, else 1883.
    pub fn mqtt_port(&self, env: &EnvVar) -> (r: Result<u16, SettingError>)
        ensures
            match self.mqtt_port {
                Some(p) => r matches Ok(q) && q == p,
                None => match *env {
                    EnvVar::Missing => r matches Ok(q) && q == DEFAULT_MQTT_PORT,
                    EnvVar::Text(t) => match spec_parse_unsigned(t@, 65535) {
                        Ok(n) => r matches Ok(q) && q == n,
                        Err(k) => r matches Err(SettingError::Invalid { name, reason })
                            && name@ == "GOVEE_MQTT_PORT"@ && reason@ == spec_int_error_message(k),
                    },
                    EnvVar::NotUnicode => r matches Err(SettingError::NotUnicode { name }) && name@ == "GOVEE_MQTT_PORT"@,
                },
            },
    {
        match self.mqtt_port {
            Some(p) => Ok(p),
            None => match env {
                EnvVar::Missing => Ok(DEFAULT_MQTT_PORT),
                EnvVar::Text(t) => match parse_unsigned(t.as_str(), 65535) {
                    Ok(n) => Ok(n as u16),
                    Err(k) => Err(SettingError::Invalid { name: owned("GOVEE_MQTT_PORT"), reason: owned(k.message()) }),
                },
                EnvVar::NotUnicode => Err(SettingError::NotUnicode { name: owned("GOVEE_MQTT_PORT") }),
            },
        }
    }

    /// The broker user name, if given: the argument, else GOVEE_MQTT_USER.
    pub fn mqtt_username(&self, env: &EnvVar) -> (r: Result<Option<String>, SettingError>)
        ensures
            text_setting_result(r, self.mqtt_username, "GOVEE_MQTT_USER"@, *env),
    {
        text_setting(&self.mqtt_username, "GOVEE_MQTT_USER", env)
    }

    /// The broker password, if given: the argument, else
    /// GOVEE_MQTT_PASSWORD.
    pub fn mqtt_password(&self, env: &EnvVar) -> (r: Result<Option<String>, SettingError>)
        ensures
            text_setting_result(r, self.mqtt_password, "GOVEE_MQTT_PASSWORD"@, *env),
    {
        text_setting(&self.mqtt_password, "GOVEE_MQTT_PASSWORD", env)
    }

    /// The temperature scale: the argument, else GOVEE_TEMPERATURE_SCALE,
    /// else Celsius. A text that names no scale is an error.
    pub fn temperature_scale(&self, env: &EnvVar) -> (r: Result<TemperatureScale, SettingError>)
        ensures
            match self.temperature_scale {
                Some(s) => match spec_named_scale(s@) {
                    Some(scale) => r == Ok::<TemperatureScale, SettingError>(scale),
                    None => r matches Err(SettingError::Rejected { message })
                        && message@ == "Unknown temperature scale "@ + s@,
                },
                None => match *env {
                    EnvVar::Missing => r == Ok::<TemperatureScale, SettingError>(TemperatureScale::Celsius),
                    EnvVar::Text(t) => match spec_named_scale(t@) {
                        Some(scale) => r == Ok::<TemperatureScale, SettingError>(scale),
                        None => r matches Err(SettingError::Invalid { name, reason })
                            && name@ == "GOVEE_TEMPERATURE_SCALE"@
                            && reason@ == "Unknown temperature scale "@ + t@,
                    },
                    EnvVar::NotUnicode => r matches Err(SettingError::NotUnicode { name })
                        && name@ == "GOVEE_TEMPERATURE_SCALE"@,
                },
            },
    {
        match &self.temperature_scale {
            Some(s) => match TemperatureScale::parse(s.as_str()) {
                Ok(scale) => Ok(scale),
                Err(e) => Err(SettingError::Rejected { message: e.message() }),
            },
            None => match env {
                EnvVar::Missing => Ok(TemperatureScale::Celsius),
                EnvVar::Text(t) => match TemperatureScale::parse(t.as_str()) {
                    Ok(scale) => Ok(scale),
                    Err(e) => Err(SettingError::Invalid { name: owned("GOVEE_TEMPERATURE_SCALE"), reason: e.message() }),
                },
                EnvVar::NotUnicode => Err(SettingError::NotUnicode { name: owned("GOVEE_TEMPERATURE_SCALE") }),
            },
        }
    }
}

// ---------------------------------------------------------------------------
// Commands from Home Assistant
// ---------------------------------------------------------------------------

/// A command that Home Assistant sends to a light.
pub struct HassLightCommand {
    pub state: String,
    pub color_temp: Option<u32>,
    pub color: Option<DeviceColor>,
    pub effect: Option<String>,
    pub brightness: Option<u8>,
}

/// One step of carrying out a light command.
pub enum LightAction {
    /// Turn the light on or off.
    PowerOn(bool),
    /// Set the brightness, in percent.
    SetBrightness(u8),
    /// Activate the named scene.
    SetScene(String),
    /// Set the colour.
    SetColorRgb(DeviceColor),
    /// Set the colour temperature, in kelvin.
    SetColorTemperature(u32),
}

/// A step of carrying out a light command, as a value.
pub enum LightStep {
    PowerOn(bool),
    SetBrightness(u8),
    SetScene(Seq<char>),
    SetColorRgb(DeviceColor),
    SetColorTemperature(u32),
}

impl View for LightAction {
    type V = LightStep;

    open spec fn view(&self) -> LightStep {
        match *self {
            LightAction::PowerOn(on) => LightStep::PowerOn(on),
            LightAction::SetBrightness(b) => LightStep::SetBrightness(b),
            LightAction::SetScene(s) => LightStep::SetScene(s@),
            LightAction::SetColorRgb(c) => LightStep::SetColorRgb(c),
            LightAction::SetColorTemperature(k) => LightStep::SetColorTemperature(k),
        }
    }
}

/// The steps that carry out a light command. "OFF" turns a light off, or
/// sets the brightness of another device to zero. Otherwise: the brightness
/// first, if given; then a scene, which ends the command; else the colour and
/// the colour temperature, if given. When none of brightness, colour and
/// colour temperature is given, a light is turned on and another device is
/// set to full brightness.
pub open spec fn spec_light_plan(
    state: Seq<char>,
    brightness: Option<u8>,
    effect: Option<Seq<char>>,
    color: Option<DeviceColor>,
    color_temp: Option<u32>,
    is_light: bool,
) -> Seq<LightStep> {
    if state == "OFF"@ {
        if is_light {
            seq![LightStep::PowerOn(false)]
        } else {
            seq![LightStep::SetBrightness(0)]
        }
    } else {
        let b = match brightness {
            Some(v) => seq![LightStep::SetBrightness(v)],
            None => Seq::<LightStep>::empty(),
        };
        match effect {
            Some(e) => b.push(LightStep::SetScene(e)),
            None => {
                let c = match color {
                    Some(c) => seq![LightStep::SetColorRgb(c)],
                    None => Seq::<LightStep>::empty(),
                };
                let t = match color_temp {
                    Some(m) => seq![LightStep::SetColorTemperature(spec_reciprocal_million(m))],
                    None => Seq::<LightStep>::empty(),
                };
                let p = if brightness is None && color is None && color_temp is None {
                    if is_light {
                        seq![LightStep::PowerOn(true)]
                    } else {
                        seq![LightStep::SetBrightness(100)]
                    }
                } else {
                    Seq::<LightStep>::empty()
                };
                b + c + t + p
            },
        }
    }
}

/// What carrying out a light command does. "OFF" turns a light off, or
/// sets another device's brightness to zero, and nothing else. Any other
/// state: a given brightness is set first; a given effect is activated as
/// the last step, with no colour step; without an effect, a given colour is
/// set, a given colour temperature in mireds is set as 1,000,000 divided by
/// it (0 for 0) kelvin, no colour is set that was not asked for, and only
/// when none of brightness, colour and colour temperature is given is a
/// light turned on (another device set to full brightness).
pub proof fn lemma_light_plan(
    state: Seq<char>,
    brightness: Option<u8>,
    effect: Option<Seq<char>>,
    color: Option<DeviceColor>,
    color_temp: Option<u32>,
    is_light: bool,
)
    ensures
        ({
            let p = spec_light_plan(state, brightness, effect, color, color_temp, is_light);
            &&& state == "OFF"@ ==> p == (if is_light {
                seq![LightStep::PowerOn(false)]
            } else {
                seq![LightStep::SetBrightness(0)]
            })
            &&& state != "OFF"@ ==> {
                &&& brightness matches Some(v) ==> p.len() > 0 && p[0] == LightStep::SetBrightness(v)
                &&& forall|i: int| 0 <= i < p.len() ==> (#[trigger] p[i] matches LightStep::SetColorRgb(c) ==> color
                    == Some(c) && effect is None)
                &&& effect matches Some(e) ==> p.len() == (if brightness is Some { 2int } else { 1int })
                    && p[p.len() - 1] == LightStep::SetScene(e)
                &&& effect is None ==> {
                    &&& color matches Some(c) ==> p.contains(LightStep::SetColorRgb(c))
                    &&& color_temp matches Some(m) ==> p.contains(
                        LightStep::SetColorTemperature(if m == 0 { 0u32 } else { (1000000u32 / m) as u32 }),
                    )
                    &&& (brightness is None && color is None && color_temp is None) ==> p == (if is_light {
                        seq![LightStep::PowerOn(true)]
                    } else {
                        seq![LightStep::SetBrightness(100)]
                    })
                    &&& !(brightness is None && color is None && color_temp is None) ==> forall|i: int|
                        0 <= i < p.len() ==> !(#[trigger] p[i] is PowerOn)
                }
            }
        }),
{
    let p = spec_light_plan(state, brightness, effect, color, color_temp, is_light);
    if state != "OFF"@ {
        let b = match brightness {
            Some(v) => seq![LightStep::SetBrightness(v)],
            None => Seq::<LightStep>::empty(),
        };
        match effect {
            Some(e) => {
                assert(p == b.push(LightStep::SetScene(e)));
            },
            None => {
                let c = match color {
                    Some(c) => seq![LightStep::SetColorRgb(c)],
                    None => Seq::<LightStep>::empty(),
                };
                let t = match color_temp {
                    Some(m) => seq![LightStep::SetColorTemperature(spec_reciprocal_million(m))],
                    None => Seq::<LightStep>::empty(),
                };
                let q = if brightness is None && color is None && color_temp is None {
                    if is_light {
                        seq![LightStep::PowerOn(true)]
                    } else {
                        seq![LightStep::SetBrightness(100)]
                    }
                } else {
                    Seq::<LightStep>::empty()
                };
                assert(p == b + c + t + q);
                if let Some(cc) = color {
                    assert(p[b.len() as int] == LightStep::SetColorRgb(cc));
                }
                if let Some(m) = color_temp {
                    assert(p[(b.len() + c.len()) as int] == LightStep::SetColorTemperature(spec_reciprocal_million(m)));
                }
                assert forall|i: int| 0 <= i < p.len() implies (#[trigger] p[i] matches LightStep::SetColorRgb(cc) ==> color
                    == Some(cc) && effect is None) by {
                    if i < b.len() {
                        assert(p[i] == b[i]);
                    } else if i < b.len() + c.len() {
                        assert(p[i] == c[i - b.len()]);
                    } else if i < b.len() + c.len() + t.len() {
                        assert(p[i] == t[i - b.len() - c.len()]);
                    } else {
                        assert(p[i] == q[i - b.len() - c.len() - t.len()]);
                    }
                }
                if !(brightness is None && color is None && color_temp is None) {
                    assert forall|i: int| 0 <= i < p.len() implies !(#[trigger] p[i] is PowerOn) by {
                        if i < b.len() {
                            assert(p[i] == b[i]);
                        } else if i < b.len() + c.len() {
                            assert(p[i] == c[i - b.len()]);
                        } else {
                            assert(p[i] == t[i - b.len() - c.len()]);
                        }
                    }
                } else {
                    assert(p =~= q);
                }
            },
        }
    }
}

/// The view of each step.
pub open spec fn light_steps(v: Seq<LightAction>) -> Seq<LightStep> {
    v.map_values(|a: LightAction| a@)
}

/// The steps that carry out a light command, in order; `is_light` says
/// whether the device is primarily a light.
pub fn plan_light_command(command: &HassLightCommand, is_light: bool) -> (r: Vec<LightAction>)
    ensures
        light_steps(r@) == spec_light_plan(
            command.state@,
            command.brightness,
            opt_view(command.effect),
            command.color,
            command.color_temp,
            is_light,
        ),
{
    let mut out: Vec<LightAction> = Vec::new();
    if str_eq(command.state.as_str(), "OFF") {
        if is_light {
            out.push(LightAction::PowerOn(false));
        } else {
            out.push(LightAction::SetBrightness(0));
        }
        assert(light_steps(out@) =~= spec_light_plan(
            command.state@, command.brightness, opt_view(command.effect), command.color,
            command.color_temp, is_light));
        return out;
    }
    let mut power_on = true;
    if let Some(b) = command.brightness {
        out.push(LightAction::SetBrightness(b));
        power_on = false;
    }
    let ghost b_steps = light_steps(out@);
    if let Some(effect) = &command.effect {
        out.push(LightAction::SetScene(owned(effect.as_str())));
        assert(light_steps(out@) =~= b_steps.push(LightStep::SetScene(effect@)));
        return out;
    }
    if let Some(c) = command.color {
        out.push(LightAction::SetColorRgb(c));
        power_on = false;
    }
    if let Some(m) = command.color_temp {
        out.push(LightAction::SetColorTemperature(mired_to_kelvin(m)));
        power_on = false;
    }
    if power_on {
        if is_light {
            out.push(LightAction::PowerOn(true));
        } else if command.brightness.is_none() {
            out.push(LightAction::SetBrightness(100));
        }
    }
    assert(light_steps(out@) =~= spec_light_plan(
        command.state@, command.brightness, opt_view(command.effect), command.color,
        command.color_temp, is_light));
    out
}

/// One step of carrying out a command for a segment of a light.
#[derive(PartialEq, Eq, Structural, Clone, Copy, Debug)]
pub enum SegmentAction {
    /// Set the segment's brightness, in percent.
    SetBrightness(u8),
    /// Set the segment's colour.
    SetColorRgb(DeviceColor),
}

/// Why a segment command cannot be carried out.
#[derive(PartialEq, Eq, Structural, Clone, Copy, Debug)]
pub enum SegmentCommandError {
    /// The device information of the Platform API is missing.
    MissingDeviceInfo,
    /// The Platform API is not available.
    PlatformUnavailable,
}

/// The steps for a segment command: its brightness, then its colour, each
/// when given. "OFF" alone does nothing, so that turning off an area does
/// not switch the device back on. Segments can only be controlled through
/// the Platform API.
pub open spec fn spec_segment_plan(
    brightness: Option<u8>,
    color: Option<DeviceColor>,
    has_platform: bool,
    has_device_info: bool,
) -> Result<Seq<SegmentAction>, SegmentCommandError> {
    if !has_platform {
        Err(SegmentCommandError::PlatformUnavailable)
    } else if !has_device_info {
        Err(SegmentCommandError::MissingDeviceInfo)
    } else {
        let b = match brightness {
            Some(v) => seq![SegmentAction::SetBrightness(v)],
            None => Seq::<SegmentAction>::empty(),
        };
        let c = match color {
            Some(c) => seq![SegmentAction::SetColorRgb(c)],
            None => Seq::<SegmentAction>::empty(),
        };
        Ok(b + c)
    }
}

/// The steps that carry out a command for one segment of a light.
pub fn plan_segment_command(
    command: &HassLightCommand,
    has_platform: bool,
    has_device_info: bool,
) -> (r: Result<Vec<SegmentAction>, SegmentCommandError>)
    ensures
        match spec_segment_plan(command.brightness, command.color, has_platform, has_device_info) {
            Ok(steps) => r is Ok && r->Ok_0@ == steps,
            Err(e) => r == Err::<Vec<SegmentAction>, SegmentCommandError>(e),
        },
{
    if !has_platform {
        return Err(SegmentCommandError::PlatformUnavailable);
    }
    if !has_device_info {
        return Err(SegmentCommandError::MissingDeviceInfo);
    }
    let mut out: Vec<SegmentAction> = Vec::new();
    if let Some(b) = command.brightness {
        out.push(SegmentAction::SetBrightness(b));
    }
    if let Some(c) = command.color {
        out.push(SegmentAction::SetColorRgb(c));
    }
    assert(out@ =~= spec_segment_plan(command.brightness, command.color, has_platform, has_device_info)->Ok_0);
    Ok(out)
}

/// What a switch command asks for: "ON" or "on", "OFF" or "off".
pub open spec fn spec_switch_value(command: Seq<char>) -> Option<bool> {
    if command == "ON"@ || command == "on"@ {
        Some(true)
    } else if command == "OFF"@ || command == "off"@ {
        Some(false)
    } else {
        None
    }
}

/// How a switch command is carried out.
#[derive(PartialEq, Eq, Structural, Clone, Copy, Debug)]
pub enum SwitchAction {
    /// Turn the device on or off.
    DevicePower(bool),
    /// Set the toggle of the instance through the Platform API.
    PlatformToggle(bool),
}

/// Why a switch command cannot be carried out.
#[derive(PartialEq, Eq, Structural, Clone, Copy, Debug)]
pub enum SwitchCommandError {
    /// The command is neither on nor off.
    InvalidCommand,
    /// The Platform API has no state for the device.
    NoPlatformState,
    /// There is no way to set the instance.
    Unsupported,
}

/// The way to carry out a switch command: the "powerSwitch" instance turns
/// the device on or off; another instance is set through the Platform API.
pub open spec fn spec_switch_plan(
    command: Seq<char>,
    instance: Seq<char>,
    has_platform: bool,
    has_device_info: bool,
) -> Result<SwitchAction, SwitchCommandError> {
    match spec_switch_value(command) {
        None => Err(SwitchCommandError::InvalidCommand),
        Some(on) => if instance == "powerSwitch"@ {
            Ok(SwitchAction::DevicePower(on))
        } else if !has_platform {
            Err(SwitchCommandError::Unsupported)
        } else if !has_device_info {
            Err(SwitchCommandError::NoPlatformState)
        } else {
            Ok(SwitchAction::PlatformToggle(on))
        },
    }
}

/// How to carry out a command for a switch instance of a device.
pub fn plan_switch_command(
    command: &str,
    instance: &str,
    has_platform: bool,
    has_device_info: bool,
) -> (r: Result<SwitchAction, SwitchCommandError>)
    ensures
        r == spec_switch_plan(command@, instance@, has_platform, has_device_info),
{
    let on = if str_eq(command, "ON") || str_eq(command, "on") {
        true
    } else if str_eq(command, "OFF") || str_eq(command, "off") {
        false
    } else {
        return Err(SwitchCommandError::InvalidCommand);
    };
    if str_eq(instance, "powerSwitch") {
        Ok(SwitchAction::DevicePower(on))
    } else if !has_platform {
        Err(SwitchCommandError::Unsupported)
    } else if !has_device_info {
        Err(SwitchCommandError::NoPlatformState)
    } else {
        Ok(SwitchAction::PlatformToggle(on))
    }
}

} // verus!

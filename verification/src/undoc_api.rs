//! The account-based ("undocumented") Govee API: its settings, the client's
//! identity, the data it returns, and how one-click shortcuts are read
//! from it. The HTTP requests themselves are made outside this library.

use vstd::prelude::*;
use crate::strings::{chars_of, string_of, owned, append_str, append_chars, spec_signed_decimal,
    signed_decimal_chars, concat_str};
use crate::env::{EnvVar, SettingError, spec_text_setting, text_setting};
use crate::device_database::opt_view;
use crate::lan_api::{truthy, spec_is_true_text, spec_is_false_text};
use crate::clock::{now_millis, CLOCK_BOUND_MS};
use crate::quirks::strings_view;
use crate::strings::{spec_decimal, decimal_chars_u64, eq_ignore_ascii_case, spec_lower_seq};
use crate::platform_api::{DeviceCapability, DeviceCapabilityKind, DeviceParameters, EnumOption, OptionValue,
    OptionValueView};

verus! {

/// The app version the account API expects.
pub const APP_VERSION: &'static str = "5.6.01";

/// Some data is not meant for human eyes except in very unusual
/// circumstances; it is shown only when sensitive data may be logged.
pub struct Redacted<T>(pub T);

/// The text shown in place of a redacted value.
pub const REDACTED_TEXT: &'static str = "REDACTED";

/// Sensitive data may be logged when GOVEE_LOG_SENSITIVE_DATA reads as
/// true; the caller passes the variable's value.
pub open spec fn spec_log_sensitive(env: EnvVar) -> bool {
    env matches EnvVar::Text(v) && spec_is_true_text(v@)
}

/// Whether sensitive data may be logged, given the value of
/// GOVEE_LOG_SENSITIVE_DATA. A value that is not a boolean, or not Unicode,
/// counts as false.
pub fn should_log_sensitive_data(env: &EnvVar) -> (r: bool)
    ensures
        r == spec_log_sensitive(*env),
{
    match env {
        EnvVar::Text(v) => match truthy(v.as_str()) {
            Ok(b) => b,
            Err(_) => false,
        },
        _ => false,
    }
}

/// The user agent sent to the account API.
pub fn user_agent() -> (r: String)
    ensures
        r@ == "GoveeHome/"@ + APP_VERSION@ + " (com.ihoment.GoVeeSensor; build:2; iOS 16.5.0) Alamofire/5.6.4"@,
{
    let mut v = chars_of("GoveeHome/");
    append_str(&mut v, APP_VERSION);
    append_str(&mut v, " (com.ihoment.GoVeeSensor; build:2; iOS 16.5.0) Alamofire/5.6.4");
    string_of(&v)
}

/// The current time in milliseconds since the Unix epoch, in decimal.
pub fn ms_timestamp() -> (r: String)
    ensures
        exists|t: i64| -CLOCK_BOUND_MS < t < CLOCK_BOUND_MS && r@ == spec_signed_decimal(t as int),
{
    let t = now_millis();
    let d = signed_decimal_chars(t);
    string_of(&d)
}

/// The message when no account email is given.
pub const EMAIL_REQUIRED: &'static str = "Please specify the govee account email either via the --govee-email parameter or by setting $GOVEE_EMAIL";

/// The message when no account password is given.
pub const PASSWORD_REQUIRED: &'static str = "Please specify the govee account password either via the --govee-password parameter or by setting $GOVEE_PASSWORD";

/// The account settings from the command line.
pub struct UndocApiArguments {
    /// The email address registered with Govee (else GOVEE_EMAIL).
    pub govee_email: Option<String>,
    /// The password of the Govee account (else GOVEE_PASSWORD).
    pub govee_password: Option<String>,
    /// Where to store the AWS IoT key file.
    pub govee_iot_key: String,
    /// Where to store the AWS IoT certificate file.
    pub govee_iot_cert: String,
    /// Where to find the AWS root CA certificate.
    pub amazon_root_ca: String,
}

/// A required text setting is read as described by `spec_text_setting`.
pub open spec fn required_setting_result(
    r: Result<String, SettingError>,
    arg: Option<String>,
    name: Seq<char>,
    message: Seq<char>,
    env: EnvVar,
) -> bool {
    match spec_text_setting(arg, env) {
        Some(Some(v)) => r is Ok && r->Ok_0@ == v,
        Some(None) => r matches Err(SettingError::Required { message: m }) && m@ == message,
        None => r matches Err(SettingError::NotUnicode { name: n }) && n@ == name,
    }
}

impl UndocApiArguments {
    /// The account email, if given: the argument, else GOVEE_EMAIL.
    pub fn opt_email(&self, env: &EnvVar) -> (r: Result<Option<String>, SettingError>)
        ensures
            match spec_text_setting(self.govee_email, *env) {
                Some(v) => r is Ok && opt_view(r->Ok_0) == v,
                None => r matches Err(SettingError::NotUnicode { name }) && name@ == "GOVEE_EMAIL"@,
            },
    {
        text_setting(&self.govee_email, "GOVEE_EMAIL", env)
    }

    /// The account email, which is required.
    pub fn email(&self, env: &EnvVar) -> (r: Result<String, SettingError>)
        ensures
            required_setting_result(r, self.govee_email, "GOVEE_EMAIL"@, EMAIL_REQUIRED@, *env),
    {
        match self.opt_email(env) {
            Ok(Some(v)) => Ok(v),
            Ok(None) => Err(SettingError::Required { message: owned(EMAIL_REQUIRED) }),
            Err(e) => Err(e),
        }
    }

    /// The account password, if given: the argument, else GOVEE_PASSWORD.
    pub fn opt_password(&self, env: &EnvVar) -> (r: Result<Option<String>, SettingError>)
        ensures
            match spec_text_setting(self.govee_password, *env) {
                Some(v) => r is Ok && opt_view(r->Ok_0) == v,
                None => r matches Err(SettingError::NotUnicode { name }) && name@ == "GOVEE_PASSWORD"@,
            },
    {
        text_setting(&self.govee_password, "GOVEE_PASSWORD", env)
    }

    /// The account password, which is required.
    pub fn password(&self, env: &EnvVar) -> (r: Result<String, SettingError>)
        ensures
            required_setting_result(r, self.govee_password, "GOVEE_PASSWORD"@, PASSWORD_REQUIRED@, *env),
    {
        match self.opt_password(env) {
            Ok(Some(v)) => Ok(v),
            Ok(None) => Err(SettingError::Required { message: owned(PASSWORD_REQUIRED) }),
            Err(e) => Err(e),
        }
    }

    /// A client of the account API for the given email and password; the
    /// caller passes the values of GOVEE_EMAIL and GOVEE_PASSWORD.
    pub fn api_client(&self, email_env: &EnvVar, password_env: &EnvVar) -> (r: Result<GoveeUndocumentedApi, SettingError>)
        ensures
            match spec_text_setting(self.govee_email, *email_env) {
                None => r matches Err(SettingError::NotUnicode { name }) && name@ == "GOVEE_EMAIL"@,
                Some(None) => r matches Err(SettingError::Required { message }) && message@ == EMAIL_REQUIRED@,
                Some(Some(e)) => match spec_text_setting(self.govee_password, *password_env) {
                    None => r matches Err(SettingError::NotUnicode { name }) && name@ == "GOVEE_PASSWORD"@,
                    Some(None) => r matches Err(SettingError::Required { message }) && message@ == PASSWORD_REQUIRED@,
                    Some(Some(p)) => r matches Ok(c) && c.email@ == e && c.password@ == p && c.client_id@ == spec_name_uuid(e),
                },
            },
    {
        let email = match self.email(email_env) {
            Ok(e) => e,
            Err(e) => return Err(e),
        };
        let password = match self.password(password_env) {
            Ok(p) => p,
            Err(e) => return Err(e),
        };
        Ok(GoveeUndocumentedApi::new(email.as_str(), password.as_str()))
    }
}

/// The simple form of the name-based (SHA-1) UUID of a text's UTF-8 bytes
/// in the DNS namespace.
pub uninterp spec fn spec_name_uuid(text: Seq<char>) -> Seq<char>;

/// Computes `uuid::Uuid::new_v5` in the DNS namespace over the text's
/// bytes, written in the simple form. The contract names the result and
/// states that the simple form is 32 lower-case hexadecimal digits.
#[verifier::external_body]
pub(crate) fn name_uuid(text: &str) -> (r: String)
    ensures
        r@ == spec_name_uuid(text@),
        r@.len() == 32,
        forall|i: int| 0 <= i < 32 ==> ('0' <= #[trigger] r@[i] <= '9' || 'a' <= r@[i] <= 'f'),
{
    uuid::Uuid::new_v5(&uuid::Uuid::NAMESPACE_DNS, text.as_bytes()).simple().to_string()
}

/// A client of the account API.
pub struct GoveeUndocumentedApi {
    pub email: String,
    pub password: String,
    pub client_id: String,
}

impl GoveeUndocumentedApi {
    /// A client for the account with this email and password; its client id
    /// is derived from the email.
    pub fn new(email: &str, password: &str) -> (r: Self)
        ensures
            r.email@ == email@,
            r.password@ == password@,
            r.client_id@ == spec_name_uuid(email@),
    {
        let client_id = name_uuid(email);
        GoveeUndocumentedApi { email: owned(email), password: owned(password), client_id }
    }

    /// The cache entry to drop so that the account logs in again.
    pub fn invalidate_account_login(&self) -> (r: (String, String))
        ensures
            r.0@ == "undoc-api"@,
            r.1@ == "account-info"@,
    {
        (owned("undoc-api"), owned("account-info"))
    }

    /// The cache entry to drop so that the community site logs in again.
    pub fn invalidate_community_login(&self) -> (r: (String, String))
        ensures
            r.0@ == "undoc-api"@,
            r.1@ == "community-login"@,
    {
        (owned("undoc-api"), owned("community-login"))
    }
}

// ---------------------------------------------------------------------------
// Data returned by the account API
// ---------------------------------------------------------------------------

/// The key that gives access to the AWS IoT service.
pub struct IotKey {
    pub endpoint: String,
    pub log: String,
    pub p12: Redacted<String>,
    pub p12_pass: Redacted<String>,
}

/// The command of a one-click rule entry.
pub struct OneClickIotRuleEntryCmd {
    pub open: Option<u32>,
    pub scenes_code: Option<u16>,
    pub scence_id: Option<u16>,
    pub scenes_str: Option<String>,
    pub scence_param_id: Option<u16>,
}

/// The answer to logging in to the account.
pub struct LoginAccountResponse {
    pub a: Redacted<String>,
    pub b: Redacted<String>,
    pub account_id: Redacted<u64>,
    /// The client id that was passed in.
    pub client: Redacted<String>,
    pub is_savvy_user: bool,
    pub refresh_token: Option<Redacted<String>>,
    pub client_name: Option<String>,
    pub push_token: Option<Redacted<String>>,
    pub version_code: Option<String>,
    pub version_name: Option<String>,
    pub sys_version: Option<String>,
    pub token: Redacted<String>,
    /// How long the token lasts, in seconds.
    pub token_expire_cycle: u32,
    pub topic: Redacted<String>,
}

/// A group (room) of the account.
pub struct GroupEntry {
    pub group_id: u64,
    pub group_name: String,
}

/// The name of the last group with the given id, if any.
pub open spec fn spec_group_name(groups: Seq<GroupEntry>, group_id: u64) -> Option<Seq<char>>
    decreases groups.len(),
{
    if groups.len() == 0 {
        None
    } else if groups.last().group_id == group_id {
        Some(groups.last().group_name@)
    } else {
        spec_group_name(groups.drop_last(), group_id)
    }
}

/// The room of a device in group `group_id`: the name of that group; where
/// several groups share the id, the last one listed.
pub fn room_for_group(groups: &Vec<GroupEntry>, group_id: u64) -> (r: Option<String>)
    ensures
        opt_view(r) == spec_group_name(groups@, group_id),
{
    let mut i: usize = groups.len();
    assert(groups@.take(i as int) =~= groups@);
    while i > 0
        invariant
            i <= groups.len(),
            spec_group_name(groups@.take(i as int), group_id) == spec_group_name(groups@, group_id),
        decreases i,
    {
        let ghost prefix = groups@.take(i as int);
        assert(prefix.last() == groups@[i - 1]);
        assert(prefix.drop_last() =~= groups@.take(i - 1));
        i = i - 1;
        if groups[i].group_id == group_id {
            return Some(owned(groups[i].group_name.as_str()));
        }
    }
    assert(groups@.take(0) =~= Seq::<GroupEntry>::empty());
    None
}

/// Images and other resources of a device.
pub struct ExtResources {
    pub sku_url: Option<String>,
    pub head_on_img_new: Option<String>,
    pub head_on_img: Option<String>,
    pub head_off_img: Option<String>,
    pub head_off_img_new: Option<String>,
    pub ext: Option<String>,
    pub ic: Option<u32>,
}

/// The last data a device reported to the account.
pub struct LastDeviceData {
    pub online: Option<bool>,
    pub bind: Option<bool>,
    pub tem: Option<i64>,
    pub hum: Option<i64>,
    /// Timestamp in milliseconds.
    pub last_time: Option<u64>,
    pub avg_day_tem: Option<i64>,
    pub avg_day_hum: Option<i64>,
}

// ---------------------------------------------------------------------------
// One-click shortcuts
// ---------------------------------------------------------------------------

/// One rule of a one-click shortcut: the IoT topic of its device, if it has
/// one, and the JSON text of the IoT message of each entry.
pub struct OneClickIotRule {
    pub topic: Option<Redacted<String>>,
    pub iot_msgs: Vec<String>,
}

/// A one-click shortcut of the account.
pub struct OneClick {
    pub name: String,
    pub iot_rules: Vec<OneClickIotRule>,
}

/// A group of one-click shortcuts.
pub struct OneClickComponent {
    pub name: String,
    pub one_clicks: Vec<OneClick>,
}

/// The messages to send to one device topic.
pub struct ParsedOneClickEntry {
    pub topic: Redacted<String>,
    pub msgs: Vec<String>,
}

/// A one-click shortcut ready to activate.
pub struct ParsedOneClick {
    pub name: String,
    pub entries: Vec<ParsedOneClickEntry>,
}

/// The content of a parsed entry: the topic and the messages.
pub open spec fn entry_view(e: ParsedOneClickEntry) -> (Seq<char>, Seq<Seq<char>>) {
    (e.topic.0@, strings_view(e.msgs@))
}

/// The entries of a shortcut: one for each rule that has a topic, in order.
pub open spec fn spec_entries(rules: Seq<OneClickIotRule>) -> Seq<(Seq<char>, Seq<Seq<char>>)>
    decreases rules.len(),
{
    if rules.len() == 0 {
        Seq::empty()
    } else {
        let prev = spec_entries(rules.drop_last());
        match rules.last().topic {
            Some(t) => prev.push((t.0@, strings_view(rules.last().iot_msgs@))),
            None => prev,
        }
    }
}

/// The name of a parsed shortcut: "One-Click: <group>: <shortcut>".
pub open spec fn one_click_name(group: Seq<char>, name: Seq<char>) -> Seq<char> {
    "One-Click: "@ + group + ": "@ + name
}

/// The parsed shortcuts of one group: each shortcut that has rules.
pub open spec fn spec_group_one_clicks(group: Seq<char>, ocs: Seq<OneClick>) -> Seq<(Seq<char>, Seq<(Seq<char>, Seq<Seq<char>>)>)>
    decreases ocs.len(),
{
    if ocs.len() == 0 {
        Seq::empty()
    } else {
        let prev = spec_group_one_clicks(group, ocs.drop_last());
        let oc = ocs.last();
        if oc.iot_rules@.len() == 0 {
            prev
        } else {
            prev.push((one_click_name(group, oc.name@), spec_entries(oc.iot_rules@)))
        }
    }
}

/// The parsed shortcuts of all groups, in order.
pub open spec fn spec_parse_one_clicks(groups: Seq<OneClickComponent>) -> Seq<(Seq<char>, Seq<(Seq<char>, Seq<Seq<char>>)>)>
    decreases groups.len(),
{
    if groups.len() == 0 {
        Seq::empty()
    } else {
        spec_parse_one_clicks(groups.drop_last()) + spec_group_one_clicks(groups.last().name@, groups.last().one_clicks@)
    }
}

/// The contents of a list of parsed entries.
pub open spec fn entries_view(v: Seq<ParsedOneClickEntry>) -> Seq<(Seq<char>, Seq<Seq<char>>)> {
    v.map_values(|e: ParsedOneClickEntry| entry_view(e))
}

/// The contents of a list of parsed shortcuts.
pub open spec fn parsed_list_view(v: Seq<ParsedOneClick>) -> Seq<(Seq<char>, Seq<(Seq<char>, Seq<Seq<char>>)>)> {
    v.map_values(|p: ParsedOneClick| parsed_view(p))
}

/// The content of a parsed shortcut.
pub open spec fn parsed_view(p: ParsedOneClick) -> (Seq<char>, Seq<(Seq<char>, Seq<Seq<char>>)>) {
    (p.name@, entries_view(p.entries@))
}

/// Copies a list of strings.
fn copy_strings(v: &Vec<String>) -> (r: Vec<String>)
    ensures
        strings_view(r@) == strings_view(v@),
{
    let mut out: Vec<String> = Vec::new();
    let mut i: usize = 0;
    while i < v.len()
        invariant
            i <= v.len(),
            strings_view(out@) == strings_view(v@.take(i as int)),
        decreases v.len() - i,
    {
        let ghost before = strings_view(out@);
        let x = owned(v[i].as_str());
        out.push(x);
        assert(strings_view(out@) =~= before.push(v@[i as int]@));
        assert(strings_view(v@.take(i + 1)) =~= strings_view(v@.take(i as int)).push(v@[i as int]@));
        i = i + 1;
    }
    assert(v@.take(v.len() as int) =~= v@);
    out
}

/// The entries of a shortcut's rules.
fn parse_entries(rules: &Vec<OneClickIotRule>) -> (r: Vec<ParsedOneClickEntry>)
    ensures
        entries_view(r@) == spec_entries(rules@),
{
    let mut out: Vec<ParsedOneClickEntry> = Vec::new();
    let mut i: usize = 0;
    while i < rules.len()
        invariant
            i <= rules.len(),
            entries_view(out@) == spec_entries(rules@.take(i as int)),
        decreases rules.len() - i,
    {
        assert(rules@.take(i + 1).drop_last() =~= rules@.take(i as int));
        let ghost before = entries_view(out@);
        match &rules[i].topic {
            Some(t) => {
                let e = ParsedOneClickEntry { topic: Redacted(owned(t.0.as_str())), msgs: copy_strings(&rules[i].iot_msgs) };
                out.push(e);
                assert(entries_view(out@) =~= before.push(entry_view(e)));
            },
            None => {},
        }
        i = i + 1;
    }
    assert(rules@.take(rules.len() as int) =~= rules@);
    out
}

/// The one-click shortcuts of the account that can be activated: each
/// shortcut with rules, named "One-Click: <group>: <shortcut>", with an
/// entry for each rule that has a device topic.
pub fn parse_one_clicks(groups: &Vec<OneClickComponent>) -> (r: Vec<ParsedOneClick>)
    ensures
        parsed_list_view(r@) == spec_parse_one_clicks(groups@),
{
    let mut out: Vec<ParsedOneClick> = Vec::new();
    let mut g: usize = 0;
    while g < groups.len()
        invariant
            g <= groups.len(),
            parsed_list_view(out@) == spec_parse_one_clicks(groups@.take(g as int)),
        decreases groups.len() - g,
    {
        assert(groups@.take(g + 1).drop_last() =~= groups@.take(g as int));
        let group = &groups[g];
        let ghost start = parsed_list_view(out@);
        let mut k: usize = 0;
        while k < group.one_clicks.len()
            invariant
                k <= group.one_clicks.len(),
                *group == groups@[g as int],
                parsed_list_view(out@)
                    == start + spec_group_one_clicks(group.name@, group.one_clicks@.take(k as int)),
            decreases group.one_clicks.len() - k,
        {
            let oc = &group.one_clicks[k];
            assert(group.one_clicks@.take(k + 1).drop_last() =~= group.one_clicks@.take(k as int));
            let ghost before = parsed_list_view(out@);
            if oc.iot_rules.len() > 0 {
                let mut name = chars_of("One-Click: ");
                append_str(&mut name, group.name.as_str());
                append_str(&mut name, ": ");
                append_str(&mut name, oc.name.as_str());
                let p = ParsedOneClick { name: string_of(&name), entries: parse_entries(&oc.iot_rules) };
                out.push(p);
                assert(parsed_list_view(out@) =~= before.push(parsed_view(p)));
            }
            k = k + 1;
        }
        assert(group.one_clicks@.take(group.one_clicks.len() as int) =~= group.one_clicks@);
        g = g + 1;
    }
    assert(groups@.take(groups.len() as int) =~= groups@);
    out
}

// ---------------------------------------------------------------------------
// The light effect library
// ---------------------------------------------------------------------------

/// One effect of a scene in the light effect library.
pub struct LightEffectEntry {
    pub scence_param_id: u32,
    pub scence_name: String,
    /// The effect's packet data, base64 encoded.
    pub scence_param: String,
    pub scene_code: u16,
}

/// A scene of the light effect library.
pub struct LightEffectScene {
    pub scene_id: u32,
    pub scene_name: String,
    pub scene_code: u32,
    pub light_effects: Vec<LightEffectEntry>,
}

/// A category of scenes of the light effect library.
pub struct LightEffectCategory {
    pub category_id: u32,
    pub category_name: String,
    pub scenes: Vec<LightEffectScene>,
}

/// A scene option made from the library: the scene's name, the parameter
/// id of its first effect, and the scene's id.
pub open spec fn scene_options_of(scenes: Seq<LightEffectScene>) -> Seq<(Seq<char>, u32, u32)>
    decreases scenes.len(),
{
    if scenes.len() == 0 {
        Seq::empty()
    } else {
        let rest = scene_options_of(scenes.drop_last());
        let s = scenes.last();
        if s.light_effects@.len() > 0 {
            rest.push((s.scene_name@, s.light_effects@[0].scence_param_id, s.scene_id))
        } else {
            rest
        }
    }
}

/// The scene options of a whole catalog, category by category: one for
/// each scene that has an effect.
pub open spec fn catalog_scene_options(cats: Seq<LightEffectCategory>) -> Seq<(Seq<char>, u32, u32)>
    decreases cats.len(),
{
    if cats.len() == 0 {
        Seq::empty()
    } else {
        catalog_scene_options(cats.drop_last()) + scene_options_of(cats.last().scenes@)
    }
}

/// The JSON text that selects a scene through the Platform API:
/// `{"id":<scene id>,"paramId":<parameter id>}`.
pub open spec fn scene_value_text(scene_id: u32, param_id: u32) -> Seq<char> {
    "{\"id\":"@ + spec_decimal(scene_id as nat) + ",\"paramId\":"@ + spec_decimal(param_id as nat) + "}"@
}

/// `o` is the enumeration option made from the scene option `e`.
pub open spec fn is_scene_option(o: EnumOption, e: (Seq<char>, u32, u32)) -> bool {
    &&& o.name@ == e.0
    &&& o.value@ == OptionValueView::Other(scene_value_text(e.2, e.1))
    &&& o.extras@.len() == 0
    &&& o.mode_options is None
}

/// The enumeration option that selects a scene.
fn scene_option(name: &str, scene_id: u32, param_id: u32) -> (r: EnumOption)
    ensures
        is_scene_option(r, (name@, param_id, scene_id)),
{
    let mut text: Vec<char> = Vec::new();
    append_str(&mut text, "{\"id\":");
    let id = decimal_chars_u64(scene_id as u64);
    append_chars(&mut text, &id);
    append_str(&mut text, ",\"paramId\":");
    let p = decimal_chars_u64(param_id as u64);
    append_chars(&mut text, &p);
    append_str(&mut text, "}");
    EnumOption {
        name: owned(name),
        value: OptionValue::Other(string_of(&text)),
        extras: Vec::new(),
        mode_options: None,
    }
}

/// A scene capability listing every scene of the light effect library that
/// has an effect, for devices whose Platform API scene list is incomplete.
pub fn synthesize_platform_api_scene_list(catalog: &Vec<LightEffectCategory>) -> (r: Vec<DeviceCapability>)
    ensures
        r@.len() == 1,
        r@[0].kind == DeviceCapabilityKind::DynamicScene,
        r@[0].instance@ == "lightScene"@,
        r@[0].alarm_type is None,
        r@[0].event_state is None,
        ({
            let entries = catalog_scene_options(catalog@);
            r@[0].parameters matches Some(DeviceParameters::Enum { options })
                && options@.len() == entries.len()
                && forall|k: int| 0 <= k < entries.len() ==> is_scene_option(#[trigger] options@[k], entries[k])
        }),
{
    let mut options: Vec<EnumOption> = Vec::new();
    let mut c: usize = 0;
    while c < catalog.len()
        invariant
            c <= catalog.len(),
            options@.len() == catalog_scene_options(catalog@.take(c as int)).len(),
            forall|k: int| 0 <= k < options@.len() ==> is_scene_option(
                #[trigger] options@[k],
                catalog_scene_options(catalog@.take(c as int))[k],
            ),
        decreases catalog.len() - c,
    {
        let ghost done = catalog_scene_options(catalog@.take(c as int));
        let scenes = &catalog[c].scenes;
        let mut s: usize = 0;
        while s < scenes.len()
            invariant
                s <= scenes.len(),
                options@.len() == done.len() + scene_options_of(scenes@.take(s as int)).len(),
                forall|k: int| 0 <= k < options@.len() ==> is_scene_option(
                    #[trigger] options@[k],
                    (done + scene_options_of(scenes@.take(s as int)))[k],
                ),
            decreases scenes.len() - s,
        {
            let ghost before = scene_options_of(scenes@.take(s as int));
            assert(scenes@.take(s + 1).drop_last() =~= scenes@.take(s as int));
            let scene = &scenes[s];
            if scene.light_effects.len() > 0 {
                let o = scene_option(scene.scene_name.as_str(), scene.scene_id, scene.light_effects[0].scence_param_id);
                options.push(o);
                assert(done + scene_options_of(scenes@.take(s + 1)) =~= (done + before).push(
                    (scene.scene_name@, scene.light_effects@[0].scence_param_id, scene.scene_id),
                ));
            } else {
                assert(done + scene_options_of(scenes@.take(s + 1)) =~= done + before);
            }
            s = s + 1;
        }
        assert(scenes@.take(scenes.len() as int) =~= scenes@);
        assert(catalog@.take(c + 1).drop_last() =~= catalog@.take(c as int));
        assert(catalog@.take(c + 1).last() == catalog@[c as int]);
        c = c + 1;
    }
    assert(catalog@.take(catalog.len() as int) =~= catalog@);
    let cap = DeviceCapability {
        kind: DeviceCapabilityKind::DynamicScene,
        instance: owned("lightScene"),
        parameters: Some(DeviceParameters::Enum { options }),
        alarm_type: None,
        event_state: None,
    };
    let mut r: Vec<DeviceCapability> = Vec::new();
    r.push(cap);
    r
}

/// The LAN scene code of a scene: that of its first effect with a non-zero
/// code, when it has one.
pub open spec fn first_nonzero_code(effects: Seq<LightEffectEntry>) -> Option<u16>
    decreases effects.len(),
{
    if effects.len() == 0 {
        None
    } else if effects[0].scene_code != 0 {
        Some(effects[0].scene_code)
    } else {
        first_nonzero_code(effects.drop_first())
    }
}

/// The scenes that can be set over the LAN, in catalog order: each name
/// with its code.
pub open spec fn scene_codes_of(scenes: Seq<LightEffectScene>) -> Seq<(Seq<char>, u16)>
    decreases scenes.len(),
{
    if scenes.len() == 0 {
        Seq::empty()
    } else {
        let rest = scene_codes_of(scenes.drop_last());
        match first_nonzero_code(scenes.last().light_effects@) {
            Some(code) => rest.push((scenes.last().scene_name@, code)),
            None => rest,
        }
    }
}

/// The LAN scene codes of a whole catalog, category by category.
pub open spec fn catalog_scene_codes(cats: Seq<LightEffectCategory>) -> Seq<(Seq<char>, u16)>
    decreases cats.len(),
{
    if cats.len() == 0 {
        Seq::empty()
    } else {
        catalog_scene_codes(cats.drop_last()) + scene_codes_of(cats.last().scenes@)
    }
}

/// The code of the scene with the given name, ASCII case ignored; when
/// several scenes have that name, the last one's.
pub open spec fn spec_scene_code(codes: Seq<(Seq<char>, u16)>, name: Seq<char>) -> Option<u16>
    decreases codes.len(),
{
    if codes.len() == 0 {
        None
    } else if spec_lower_seq(codes.last().0) == spec_lower_seq(name) {
        Some(codes.last().1)
    } else {
        spec_scene_code(codes.drop_last(), name)
    }
}

fn first_code(effects: &Vec<LightEffectEntry>) -> (r: Option<u16>)
    ensures
        r == first_nonzero_code(effects@),
{
    let mut i: usize = 0;
    assert(effects@.skip(0) =~= effects@);
    while i < effects.len()
        invariant
            i <= effects.len(),
            first_nonzero_code(effects@) == first_nonzero_code(effects@.skip(i as int)),
        decreases effects.len() - i,
    {
        assert(effects@.skip(i as int).drop_first() =~= effects@.skip(i + 1));
        assert(effects@.skip(i as int)[0] == effects@[i as int]);
        if effects[i].scene_code != 0 {
            return Some(effects[i].scene_code);
        }
        i = i + 1;
    }
    assert(effects@.skip(i as int).len() == 0);
    None
}

/// The scenes of a catalog that can be set over the LAN, each name with
/// its code, in catalog order.
pub fn lan_scene_codes(catalog: &Vec<LightEffectCategory>) -> (r: Vec<(String, u16)>)
    ensures
        r@.len() == catalog_scene_codes(catalog@).len(),
        forall|k: int| 0 <= k < r@.len() ==> (#[trigger] r@[k]).0@ == catalog_scene_codes(catalog@)[k].0
            && r@[k].1 == catalog_scene_codes(catalog@)[k].1,
{
    let mut out: Vec<(String, u16)> = Vec::new();
    let mut c: usize = 0;
    while c < catalog.len()
        invariant
            c <= catalog.len(),
            out@.len() == catalog_scene_codes(catalog@.take(c as int)).len(),
            forall|k: int| 0 <= k < out@.len() ==> (#[trigger] out@[k]).0@ == catalog_scene_codes(catalog@.take(c as int))[k].0
                && out@[k].1 == catalog_scene_codes(catalog@.take(c as int))[k].1,
        decreases catalog.len() - c,
    {
        let ghost done = catalog_scene_codes(catalog@.take(c as int));
        let scenes = &catalog[c].scenes;
        let mut s: usize = 0;
        while s < scenes.len()
            invariant
                s <= scenes.len(),
                out@.len() == done.len() + scene_codes_of(scenes@.take(s as int)).len(),
                forall|k: int| 0 <= k < out@.len() ==> (#[trigger] out@[k]).0@ == (done + scene_codes_of(scenes@.take(s as int)))[k].0
                    && out@[k].1 == (done + scene_codes_of(scenes@.take(s as int)))[k].1,
            decreases scenes.len() - s,
        {
            let ghost before = scene_codes_of(scenes@.take(s as int));
            assert(scenes@.take(s + 1).drop_last() =~= scenes@.take(s as int));
            let scene = &scenes[s];
            match first_code(&scene.light_effects) {
                Some(code) => {
                    out.push((owned(scene.scene_name.as_str()), code));
                    assert(done + scene_codes_of(scenes@.take(s + 1)) =~= (done + before).push((scene.scene_name@, code)));
                },
                None => {
                    assert(done + scene_codes_of(scenes@.take(s + 1)) =~= done + before);
                },
            }
            s = s + 1;
        }
        assert(scenes@.take(scenes.len() as int) =~= scenes@);
        assert(catalog@.take(c + 1).drop_last() =~= catalog@.take(c as int));
        assert(catalog@.take(c + 1).last() == catalog@[c as int]);
        c = c + 1;
    }
    assert(catalog@.take(catalog.len() as int) =~= catalog@);
    out
}

/// The LAN scene code of the scene with the given name (ASCII case
/// ignored); when several scenes have the name, the one listed last.
pub fn lan_scene_code(codes: &Vec<(String, u16)>, name: &str) -> (r: Option<u16>)
    ensures
        r == spec_scene_code(codes@.map_values(|e: (String, u16)| (e.0@, e.1)), name@),
{
    let ghost view = codes@.map_values(|e: (String, u16)| (e.0@, e.1));
    let mut i: usize = codes.len();
    assert(view.take(codes.len() as int) =~= view);
    while i > 0
        invariant
            i <= codes.len(),
            view == codes@.map_values(|e: (String, u16)| (e.0@, e.1)),
            spec_scene_code(view, name@) == spec_scene_code(view.take(i as int), name@),
        decreases i,
    {
        let ghost t = view.take(i as int);
        assert(t.drop_last() =~= view.take(i - 1));
        assert(t.last() == view[i - 1]);
        if eq_ignore_ascii_case(codes[i - 1].0.as_str(), name) {
            return Some(codes[i - 1].1);
        }
        i = i - 1;
    }
    None
}

} // verus!

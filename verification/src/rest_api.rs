//! The older Govee REST API: its client, the device data it lists, and the
//! control requests it takes. The HTTP requests themselves are made outside
//! this library.

use vstd::prelude::*;
use crate::strings::{owned, str_eq, concat_str};
use crate::lan_api::DeviceColor;

verus! {

/// The server of the REST API.
pub const SERVER: &'static str = "https://developer-api.govee.com";

/// The full URL of a path on the REST API server.
pub fn endpoint(url: &str) -> (r: String)
    ensures
        r@ == SERVER@ + url@,
{
    concat_str(SERVER, url)
}

/// A client of the REST API: the key it authenticates with.
pub struct RestApiClient {
    pub key: String,
}

impl RestApiClient {
    /// A client that authenticates with `key`.
    pub fn new(key: &str) -> (r: Self)
        ensures
            r.key@ == key@,
    {
        RestApiClient { key: owned(key) }
    }
}

/// A range of values.
#[derive(Clone, Copy, Debug, Default, PartialEq, Eq, Structural)]
pub struct RestRange {
    pub min: i64,
    pub max: i64,
}

/// The colour temperature range of a device.
#[derive(Clone, Copy, Debug, Default, PartialEq, Eq, Structural)]
pub struct ColorTemperatureProperties {
    pub range: RestRange,
}

/// A command that a device supports.
#[derive(Clone, Copy, Debug, PartialEq, Eq, Structural)]
pub enum SupportedCommand {
    Turn,
    Brightness,
    Color,
    ColorTemperature,
    Mode,
    Gear,
}

/// The name of each command in the API.
pub open spec fn spec_command_name(c: SupportedCommand) -> Seq<char> {
    match c {
        SupportedCommand::Turn => "turn"@,
        SupportedCommand::Brightness => "brightness"@,
        SupportedCommand::Color => "color"@,
        SupportedCommand::ColorTemperature => "colorTem"@,
        SupportedCommand::Mode => "mode"@,
        SupportedCommand::Gear => "gear"@,
    }
}

impl SupportedCommand {
    /// The command's name in the API.
    pub fn as_str(&self) -> (r: &'static str)
        ensures
            r@ == spec_command_name(*self),
    {
        match self {
            SupportedCommand::Turn => "turn",
            SupportedCommand::Brightness => "brightness",
            SupportedCommand::Color => "color",
            SupportedCommand::ColorTemperature => "colorTem",
            SupportedCommand::Mode => "mode",
            SupportedCommand::Gear => "gear",
        }
    }

    /// The command with the given name.
    pub fn parse(s: &str) -> (r: Option<SupportedCommand>)
        ensures
            match r {
                Some(c) => spec_command_name(c) == s@,
                None => forall|c: SupportedCommand| spec_command_name(c) != s@,
            },
    {
        if str_eq(s, "turn") {
            Some(SupportedCommand::Turn)
        } else if str_eq(s, "brightness") {
            Some(SupportedCommand::Brightness)
        } else if str_eq(s, "color") {
            Some(SupportedCommand::Color)
        } else if str_eq(s, "colorTem") {
            Some(SupportedCommand::ColorTemperature)
        } else if str_eq(s, "mode") {
            Some(SupportedCommand::Mode)
        } else if str_eq(s, "gear") {
            Some(SupportedCommand::Gear)
        } else {
            None
        }
    }
}

/// The names of two different commands differ.
pub proof fn lemma_command_names_distinct(a: SupportedCommand, b: SupportedCommand)
    ensures
        spec_command_name(a) == spec_command_name(b) ==> a == b,
{
    reveal_strlit("turn");
    reveal_strlit("brightness");
    reveal_strlit("color");
    reveal_strlit("colorTem");
    reveal_strlit("mode");
    reveal_strlit("gear");
    if a != b {
        assert(spec_command_name(a) != spec_command_name(b)) by {
            match a {
                SupportedCommand::Turn => assert(spec_command_name(a)[0] == 't'),
                SupportedCommand::Brightness => assert(spec_command_name(a)[0] == 'b'),
                SupportedCommand::Color => assert(spec_command_name(a).len() == 5),
                SupportedCommand::ColorTemperature => assert(spec_command_name(a).len() == 8),
                SupportedCommand::Mode => assert(spec_command_name(a)[0] == 'm'),
                SupportedCommand::Gear => assert(spec_command_name(a)[0] == 'g'),
            }
        }
    }
}

/// Reading a command's name gives the command back.
pub proof fn lemma_command_name_round_trip(c: SupportedCommand, r: Option<SupportedCommand>)
    requires
        match r {
            Some(d) => spec_command_name(d) == spec_command_name(c),
            None => forall|d: SupportedCommand| spec_command_name(d) != spec_command_name(c),
        },
    ensures
        r == Some(c),
{
    if let Some(d) = r {
        assert(spec_command_name(c) == spec_command_name(d));
        lemma_command_names_distinct(c, d);
        assert(c == d);
    } else {
        let n = spec_command_name(c);
        assert(spec_command_name(c) != n);
    }
}

/// A device as the REST API lists it.
pub struct RestDeviceInfo {
    pub sku: String,
    pub device: String,
    pub device_name: String,
    pub controllable: bool,
    pub properties: RestDeviceProperties,
    pub retrievable: bool,
    pub supported_commands: Vec<SupportedCommand>,
}

/// The properties of a listed device.
pub struct RestDeviceProperties {
    pub color_temperature: Option<ColorTemperatureProperties>,
    /// The JSON text of the mode property.
    pub mode: Option<String>,
    /// The JSON text of the gear property.
    pub gear: Option<String>,
}

/// A command to a device.
#[derive(Clone, Copy, Debug, PartialEq, Eq, Structural)]
pub enum RestCommand {
    Turn(bool),
    Brightness(u8),
    Color(DeviceColor),
    ColorTemperature(u16),
}

/// A control request: the device, its model and the command.
pub struct RestControl {
    pub device: String,
    pub model: String,
    pub command: RestCommand,
}

impl RestDeviceInfo {
    /// The request that sends `command` to this device.
    pub fn control(&self, command: RestCommand) -> (r: RestControl)
        ensures
            r.device@ == self.device@,
            r.model@ == self.sku@,
            r.command == command,
    {
        RestControl { device: owned(self.device.as_str()), model: owned(self.sku.as_str()), command }
    }
}

} // verus!

//! Per-SKU device quirks: facts about particular Govee models that their
//! API metadata gets wrong or leaves out.

use vstd::prelude::*;
use crate::platform_api::DeviceType;
use crate::temperature::TemperatureUnits;
use crate::strings::{owned, str_eq};

verus! {

/// How a device reports relative humidity.
#[derive(Clone, Copy, Debug, PartialEq, Eq, Structural)]
pub enum HumidityUnits {
    RelativePercent,
    RelativePercentTimes100,
}

/// Facts about a device model.
pub struct Quirk {
    pub sku: String,
    pub icon: String,
    pub supports_rgb: bool,
    pub supports_brightness: bool,
    pub color_temp_range: Option<(u32, u32)>,
    pub avoid_platform_api: bool,
    pub ble_only: bool,
    pub lan_api_capable: bool,
    pub device_type: DeviceType,
    pub platform_temperature_sensor_units: Option<TemperatureUnits>,
    pub platform_humidity_sensor_units: Option<HumidityUnits>,
    /// If true, we can correctly parse all appropriate
    /// packets from the MQTT subscription and apply
    /// their state.
    pub iot_api_supported: bool,
    pub show_as_preset_buttons: Option<Vec<String>>,
}

/// The content of a `Quirk`.
pub struct QuirkView {
    pub sku: Seq<char>,
    pub icon: Seq<char>,
    pub supports_rgb: bool,
    pub supports_brightness: bool,
    pub color_temp_range: Option<(u32, u32)>,
    pub avoid_platform_api: bool,
    pub ble_only: bool,
    pub lan_api_capable: bool,
    pub device_type: DeviceType,
    pub platform_temperature_sensor_units: Option<TemperatureUnits>,
    pub platform_humidity_sensor_units: Option<HumidityUnits>,
    pub iot_api_supported: bool,
    pub show_as_preset_buttons: Option<Seq<Seq<char>>>,
}

/// The views of a list of strings.
pub open spec fn strings_view(v: Seq<String>) -> Seq<Seq<char>> {
    v.map_values(|s: String| s@)
}

/// The views of a list of string slices.
pub open spec fn strs_view(v: Seq<&str>) -> Seq<Seq<char>> {
    v.map_values(|s: &str| s@)
}

impl View for Quirk {
    type V = QuirkView;

    open spec fn view(&self) -> QuirkView {
        QuirkView {
            sku: self.sku@,
            icon: self.icon@,
            supports_rgb: self.supports_rgb,
            supports_brightness: self.supports_brightness,
            color_temp_range: self.color_temp_range,
            avoid_platform_api: self.avoid_platform_api,
            ble_only: self.ble_only,
            lan_api_capable: self.lan_api_capable,
            device_type: self.device_type,
            platform_temperature_sensor_units: self.platform_temperature_sensor_units,
            platform_humidity_sensor_units: self.platform_humidity_sensor_units,
            iot_api_supported: self.iot_api_supported,
            show_as_preset_buttons: match self.show_as_preset_buttons {
                Some(v) => Some(strings_view(v@)),
                None => None,
            },
        }
    }
}

impl QuirkView {
    /// A device of the given type with no special abilities.
    pub open spec fn device(sku: Seq<char>, device_type: DeviceType, icon: Seq<char>) -> QuirkView {
        QuirkView {
            sku,
            icon,
            supports_rgb: false,
            supports_brightness: false,
            color_temp_range: None,
            avoid_platform_api: false,
            ble_only: false,
            lan_api_capable: false,
            device_type,
            platform_temperature_sensor_units: None,
            platform_humidity_sensor_units: None,
            iot_api_supported: false,
            show_as_preset_buttons: None,
        }
    }

    /// A light with colour, brightness, colour temperature and IoT support.
    pub open spec fn light(sku: Seq<char>, icon: Seq<char>) -> QuirkView {
        QuirkView::device(sku, DeviceType::Light, icon).with_rgb().with_brightness().with_color_temp().with_iot_api_support(true)
    }

    /// An ice maker.
    pub open spec fn ice_maker(sku: Seq<char>) -> QuirkView {
        QuirkView::device(sku, DeviceType::IceMaker, "mdi:snowflake"@)
    }

    /// A space heater.
    pub open spec fn space_heater(sku: Seq<char>) -> QuirkView {
        QuirkView::device(sku, DeviceType::Heater, "mdi:heat-wave"@)
    }

    /// A humidifier.
    pub open spec fn humidifier(sku: Seq<char>) -> QuirkView {
        QuirkView::device(sku, DeviceType::Humidifier, "mdi:air-humidifier"@)
    }

    /// A thermometer.
    pub open spec fn thermometer(sku: Seq<char>) -> QuirkView {
        QuirkView::device(sku, DeviceType::Thermometer, "mdi:thermometer"@)
    }

    /// A light that speaks the LAN API.
    pub open spec fn lan_api_capable_light(sku: Seq<char>, icon: Seq<char>) -> QuirkView {
        QuirkView::light(sku, icon).with_lan_api()
    }

    pub open spec fn with_rgb(self) -> QuirkView {
        QuirkView { supports_rgb: true, ..self }
    }

    pub open spec fn with_brightness(self) -> QuirkView {
        QuirkView { supports_brightness: true, ..self }
    }

    pub open spec fn with_platform_temperature_sensor_units(self, units: TemperatureUnits) -> QuirkView {
        QuirkView { platform_temperature_sensor_units: Some(units), ..self }
    }

    pub open spec fn with_platform_humidity_sensor_units(self, units: HumidityUnits) -> QuirkView {
        QuirkView { platform_humidity_sensor_units: Some(units), ..self }
    }

    pub open spec fn with_iot_api_support(self, supported: bool) -> QuirkView {
        QuirkView { iot_api_supported: supported, ..self }
    }

    pub open spec fn with_color_temp(self) -> QuirkView {
        QuirkView { color_temp_range: Some((2000u32, 9000u32)), ..self }
    }

    pub open spec fn with_color_temp_range(self, min: u32, max: u32) -> QuirkView {
        QuirkView { color_temp_range: Some((min, max)), ..self }
    }

    pub open spec fn with_lan_api(self) -> QuirkView {
        QuirkView { lan_api_capable: true, ..self }
    }

    pub open spec fn with_show_as_preset_modes(self, modes: Seq<Seq<char>>) -> QuirkView {
        QuirkView { show_as_preset_buttons: Some(modes), ..self }
    }

    pub open spec fn with_broken_platform(self) -> QuirkView {
        QuirkView { avoid_platform_api: true, ..self }
    }

    pub open spec fn with_ble_only(self, ble_only: bool) -> QuirkView {
        QuirkView { ble_only, ..self }
    }
}

impl Quirk {
    /// A device of the given type with no special abilities.
    pub fn device(sku: &str, device_type: DeviceType, icon: &str) -> (r: Self)
        ensures
            r@ == QuirkView::device(sku@, device_type, icon@),
    {
        Quirk {
            sku: owned(sku),
            supports_rgb: false,
            supports_brightness: false,
            color_temp_range: None,
            avoid_platform_api: false,
            ble_only: false,
            icon: owned(icon),
            lan_api_capable: false,
            device_type,
            platform_temperature_sensor_units: None,
            platform_humidity_sensor_units: None,
            iot_api_supported: false,
            show_as_preset_buttons: None,
        }
    }

    /// A light with colour, brightness, colour temperature and IoT support.
    pub fn light(sku: &str, icon: &str) -> (r: Self)
        ensures
            r@ == QuirkView::light(sku@, icon@),
    {
        Self::device(sku, DeviceType::Light, icon).with_rgb().with_brightness().with_color_temp().with_iot_api_support(true)
    }

    /// An ice maker.
    pub fn ice_maker(sku: &str) -> (r: Self)
        ensures
            r@ == QuirkView::ice_maker(sku@),
    {
        Self::device(sku, DeviceType::IceMaker, "mdi:snowflake")
    }

    /// A space heater.
    pub fn space_heater(sku: &str) -> (r: Self)
        ensures
            r@ == QuirkView::space_heater(sku@),
    {
        Self::device(sku, DeviceType::Heater, "mdi:heat-wave")
    }

    /// A humidifier.
    pub fn humidifier(sku: &str) -> (r: Self)
        ensures
            r@ == QuirkView::humidifier(sku@),
    {
        Self::device(sku, DeviceType::Humidifier, "mdi:air-humidifier")
    }

    /// A thermometer.
    pub fn thermometer(sku: &str) -> (r: Self)
        ensures
            r@ == QuirkView::thermometer(sku@),
    {
        Self::device(sku, DeviceType::Thermometer, "mdi:thermometer")
    }

    pub fn with_rgb(self) -> (r: Self)
        ensures
            r@ == self@.with_rgb(),
    {
        let mut s = self;
        s.supports_rgb = true;
        s
    }

    pub fn with_brightness(self) -> (r: Self)
        ensures
            r@ == self@.with_brightness(),
    {
        let mut s = self;
        s.supports_brightness = true;
        s
    }

    pub fn with_platform_temperature_sensor_units(self, units: TemperatureUnits) -> (r: Self)
        ensures
            r@ == self@.with_platform_temperature_sensor_units(units),
    {
        let mut s = self;
        s.platform_temperature_sensor_units = Some(units);
        s
    }

    pub fn with_platform_humidity_sensor_units(self, units: HumidityUnits) -> (r: Self)
        ensures
            r@ == self@.with_platform_humidity_sensor_units(units),
    {
        let mut s = self;
        s.platform_humidity_sensor_units = Some(units);
        s
    }

    pub fn with_iot_api_support(self, supported: bool) -> (r: Self)
        ensures
            r@ == self@.with_iot_api_support(supported),
    {
        let mut s = self;
        s.iot_api_supported = supported;
        s
    }

    pub fn with_color_temp(self) -> (r: Self)
        ensures
            r@ == self@.with_color_temp(),
    {
        let mut s = self;
        s.color_temp_range = Some((2000, 9000));
        s
    }

    pub fn with_color_temp_range(self, min: u32, max: u32) -> (r: Self)
        ensures
            r@ == self@.with_color_temp_range(min, max),
    {
        let mut s = self;
        s.color_temp_range = Some((min, max));
        s
    }

    pub fn with_lan_api(self) -> (r: Self)
        ensures
            r@ == self@.with_lan_api(),
    {
        let mut s = self;
        s.lan_api_capable = true;
        s
    }

    pub fn with_show_as_preset_modes(self, modes: &[&str]) -> (r: Self)
        ensures
            r@ == self@.with_show_as_preset_modes(strs_view(modes@)),
    {
        let mut list: Vec<String> = Vec::new();
        let mut i: usize = 0;
        while i < modes.len()
            invariant
                i <= modes.len(),
                list@.len() == i,
                forall|j: int| 0 <= j < i ==> (#[trigger] list@[j])@ == modes@[j]@,
            decreases modes.len() - i,
        {
            list.push(owned(modes[i]));
            i = i + 1;
        }
        assert(strings_view(list@) =~= strs_view(modes@));
        let mut s = self;
        s.show_as_preset_buttons = Some(list);
        s
    }

    pub fn with_broken_platform(self) -> (r: Self)
        ensures
            r@ == self@.with_broken_platform(),
    {
        let mut s = self;
        s.avoid_platform_api = true;
        s
    }

    pub fn with_ble_only(self, ble_only: bool) -> (r: Self)
        ensures
            r@ == self@.with_ble_only(ble_only),
    {
        let mut s = self;
        s.ble_only = ble_only;
        s
    }

    /// A light that speaks the LAN API.
    pub fn lan_api_capable_light(sku: &str, icon: &str) -> (r: Self)
        ensures
            r@ == QuirkView::lan_api_capable_light(sku@, icon@),
    {
        Self::light(sku, icon).with_lan_api()
    }

    /// The mode is one that is shown as a preset button.
    pub fn should_show_mode_as_preset(&self, mode: &str) -> (r: bool)
        ensures
            r == (self@.show_as_preset_buttons matches Some(modes) && modes.contains(mode@)),
    {
        match &self.show_as_preset_buttons {
            Some(modes) => {
                let mut i: usize = 0;
                assert(self@.show_as_preset_buttons == Some(strings_view(modes@)));
                while i < modes.len()
                    invariant
                        self@.show_as_preset_buttons == Some(strings_view(modes@)),
                        i <= modes.len(),
                        forall|j: int| 0 <= j < i ==> modes@[j]@ != mode@,
                    decreases modes.len() - i,
                {
                    if str_eq(modes[i].as_str(), mode) {
                        assert(strings_view(modes@)[i as int] == mode@);
                        return true;
                    }
                    i = i + 1;
                }
                assert(!strings_view(modes@).contains(mode@));
                false
            },
            None => false,
        }
    }
}

/// An icon name.
pub const STRIP: &'static str = "mdi:led-strip-variant";
/// An icon name.
pub const STRIP_ALT: &'static str = "mdi:led-strip";
/// An icon name.
pub const FLOOD: &'static str = "mdi:light-flood-down";
/// An icon name.
pub const STRING: &'static str = "mdi:string-lights";
/// The icon of bulbs.
pub const BULB: &'static str = "mdi:lightbulb";
/// An icon name.
pub const FLOOR_LAMP: &'static str = "mdi:floor-lamp";
/// An icon name.
pub const TV_BACK: &'static str = "mdi:television-ambient-light";
/// An icon name.
pub const DESK: &'static str = "mdi:desk-lamp";
/// An icon name.
pub const HEX: &'static str = "mdi:hexagon-multiple";
/// An icon name.
pub const TRIANGLE: &'static str = "mdi:triangle";
/// An icon name.
pub const CEILING: &'static str = "mdi:ceiling-light";
/// An icon name.
pub const NIGHTLIGHT: &'static str = "mdi:lightbulb-night";
/// An icon name.
pub const WALL_SCONCE: &'static str = "mdi:wall-sconce";
/// An icon name.
pub const OUTDOOR_LAMP: &'static str = "mdi:outdoor-lamp";
/// An icon name.
pub const SPOTLIGHT: &'static str = "mdi:lightbulb-spot";

/// The views of a list of quirks.
pub open spec fn quirks_view(v: Seq<Quirk>) -> Seq<QuirkView> {
    v.map_values(|q: Quirk| q@)
}

/// Part 1 of the quirk table.
pub open spec fn quirk_table_part1() -> Seq<QuirkView> {
    seq![
        QuirkView::lan_api_capable_light("H60A1"@, CEILING@).with_color_temp_range(2200, 6500),
        QuirkView::lan_api_capable_light("H6022"@, BULB@).with_color_temp_range(2700, 6500),
        QuirkView::lan_api_capable_light("H610A"@, STRIP@),
        QuirkView::light("H6141"@, STRIP@).with_broken_platform(),
        QuirkView::light("H6159"@, STRIP@).with_broken_platform(),
        QuirkView::light("H6003"@, BULB@).with_broken_platform(),
        QuirkView::light("H6121"@, STRIP@).with_iot_api_support(false),
        QuirkView::light("H6154"@, STRIP@).with_iot_api_support(false),
        QuirkView::light("H6176"@, STRIP@).with_iot_api_support(false),
        QuirkView::light("H6102"@, STRIP@) .with_broken_platform() .with_ble_only(true),
        QuirkView::light("H6053"@, STRIP@) .with_broken_platform() .with_ble_only(true),
        QuirkView::light("H617C"@, STRIP@) .with_broken_platform() .with_ble_only(true),
    ]
}

/// Part 2 of the quirk table.
pub open spec fn quirk_table_part2() -> Seq<QuirkView> {
    seq![
        QuirkView::light("H617E"@, STRIP@) .with_broken_platform() .with_ble_only(true),
        QuirkView::light("H617F"@, STRIP@) .with_broken_platform() .with_ble_only(true),
        QuirkView::light("H6119"@, STRIP@) .with_broken_platform() .with_ble_only(true),
        QuirkView::humidifier("H7160"@) .with_broken_platform() .with_iot_api_support(true) .with_rgb() .with_brightness(),
        QuirkView::space_heater("H7130"@) .with_platform_temperature_sensor_units(TemperatureUnits::Fahrenheit),
        QuirkView::space_heater("H7131"@) .with_platform_temperature_sensor_units(TemperatureUnits::Fahrenheit) .with_show_as_preset_modes(strs_view(seq!["gearMode"])) .with_rgb() .with_brightness(),
        QuirkView::space_heater("H713A"@) .with_platform_temperature_sensor_units(TemperatureUnits::Fahrenheit),
        QuirkView::space_heater("H713B"@) .with_platform_temperature_sensor_units(TemperatureUnits::Fahrenheit),
        QuirkView::space_heater("H7132"@) .with_platform_temperature_sensor_units(TemperatureUnits::Fahrenheit),
        QuirkView::space_heater("H7133"@) .with_platform_temperature_sensor_units(TemperatureUnits::Fahrenheit) .with_show_as_preset_modes(strs_view(seq!["gearMode"])) .with_rgb() .with_brightness(),
        QuirkView::space_heater("H7134"@) .with_platform_temperature_sensor_units(TemperatureUnits::Fahrenheit) .with_show_as_preset_modes(strs_view(seq!["gearMode"])) .with_color_temp() .with_brightness(),
        QuirkView::space_heater("H7135"@) .with_platform_temperature_sensor_units(TemperatureUnits::Fahrenheit),
    ]
}

/// Part 3 of the quirk table.
pub open spec fn quirk_table_part3() -> Seq<QuirkView> {
    seq![
        QuirkView::ice_maker("H7172"@).with_iot_api_support(false),
        QuirkView::thermometer("H5051"@) .with_platform_temperature_sensor_units(TemperatureUnits::Fahrenheit) .with_platform_humidity_sensor_units(HumidityUnits::RelativePercent),
        QuirkView::thermometer("H5100"@) .with_platform_temperature_sensor_units(TemperatureUnits::Fahrenheit) .with_platform_humidity_sensor_units(HumidityUnits::RelativePercent),
        QuirkView::thermometer("H5103"@) .with_platform_temperature_sensor_units(TemperatureUnits::Fahrenheit) .with_platform_humidity_sensor_units(HumidityUnits::RelativePercent),
        QuirkView::thermometer("H5179"@) .with_platform_temperature_sensor_units(TemperatureUnits::Fahrenheit) .with_platform_humidity_sensor_units(HumidityUnits::RelativePercent),
        QuirkView::device("H7170"@, DeviceType::Kettle, "mdi:kettle"@) .with_platform_temperature_sensor_units(TemperatureUnits::Fahrenheit),
        QuirkView::device("H7171"@, DeviceType::Kettle, "mdi:kettle"@) .with_platform_temperature_sensor_units(TemperatureUnits::Fahrenheit) .with_show_as_preset_modes(strs_view(seq!["M1", "M2", "M3", "M4"])),
        QuirkView::device("H7173"@, DeviceType::Kettle, "mdi:kettle"@) .with_platform_temperature_sensor_units(TemperatureUnits::Fahrenheit) .with_show_as_preset_modes(strs_view(seq!["Tea", "Coffee", "DIY"])),
        QuirkView::lan_api_capable_light("H6072"@, FLOOR_LAMP@),
        QuirkView::lan_api_capable_light("H619B"@, STRIP@),
        QuirkView::lan_api_capable_light("H619C"@, STRIP@),
        QuirkView::lan_api_capable_light("H619Z"@, STRIP@),
    ]
}

/// Part 4 of the quirk table.
pub open spec fn quirk_table_part4() -> Seq<QuirkView> {
    seq![
        QuirkView::lan_api_capable_light("H7060"@, FLOOD@),
        QuirkView::lan_api_capable_light("H6046"@, TV_BACK@),
        QuirkView::lan_api_capable_light("H6047"@, TV_BACK@),
        QuirkView::lan_api_capable_light("H6051"@, DESK@),
        QuirkView::lan_api_capable_light("H6056"@, STRIP_ALT@),
        QuirkView::lan_api_capable_light("H6059"@, NIGHTLIGHT@),
        QuirkView::lan_api_capable_light("H6061"@, HEX@),
        QuirkView::lan_api_capable_light("H6062"@, STRIP@),
        QuirkView::lan_api_capable_light("H6065"@, STRIP@),
        QuirkView::lan_api_capable_light("H6066"@, HEX@),
        QuirkView::lan_api_capable_light("H6067"@, TRIANGLE@),
        QuirkView::lan_api_capable_light("H6073"@, FLOOR_LAMP@),
    ]
}

/// Part 5 of the quirk table.
pub open spec fn quirk_table_part5() -> Seq<QuirkView> {
    seq![
        QuirkView::lan_api_capable_light("H6076"@, FLOOR_LAMP@),
        QuirkView::lan_api_capable_light("H6078"@, FLOOR_LAMP@),
        QuirkView::lan_api_capable_light("H6087"@, WALL_SCONCE@),
        QuirkView::lan_api_capable_light("H610A"@, STRIP@),
        QuirkView::lan_api_capable_light("H610B"@, STRIP@),
        QuirkView::lan_api_capable_light("H6117"@, STRIP@),
        QuirkView::lan_api_capable_light("H6159"@, STRIP@),
        QuirkView::lan_api_capable_light("H615E"@, STRIP@),
        QuirkView::lan_api_capable_light("H6163"@, STRIP@),
        QuirkView::lan_api_capable_light("H6168"@, TV_BACK@),
        QuirkView::lan_api_capable_light("H6172"@, STRIP@),
        QuirkView::lan_api_capable_light("H6173"@, STRIP@),
    ]
}

/// Part 6 of the quirk table.
pub open spec fn quirk_table_part6() -> Seq<QuirkView> {
    seq![
        QuirkView::lan_api_capable_light("H618A"@, STRIP@),
        QuirkView::lan_api_capable_light("H618C"@, STRIP@),
        QuirkView::lan_api_capable_light("H618E"@, STRIP@),
        QuirkView::lan_api_capable_light("H618F"@, STRIP@),
        QuirkView::lan_api_capable_light("H619A"@, STRIP@),
        QuirkView::lan_api_capable_light("H619D"@, STRIP@),
        QuirkView::lan_api_capable_light("H619E"@, STRIP@),
        QuirkView::lan_api_capable_light("H61A0"@, STRIP@),
        QuirkView::lan_api_capable_light("H61A1"@, STRIP@),
        QuirkView::lan_api_capable_light("H61A2"@, STRIP@),
        QuirkView::lan_api_capable_light("H61A3"@, STRIP@),
        QuirkView::lan_api_capable_light("H61A5"@, STRIP@),
    ]
}

/// Part 7 of the quirk table.
pub open spec fn quirk_table_part7() -> Seq<QuirkView> {
    seq![
        QuirkView::lan_api_capable_light("H61A8"@, STRIP@),
        QuirkView::lan_api_capable_light("H61B2"@, TV_BACK@),
        QuirkView::lan_api_capable_light("H61E1"@, STRIP@),
        QuirkView::lan_api_capable_light("H66A1"@, TV_BACK@),
        QuirkView::lan_api_capable_light("H7012"@, STRING@),
        QuirkView::lan_api_capable_light("H7013"@, STRING@),
        QuirkView::lan_api_capable_light("H7021"@, STRING@),
        QuirkView::lan_api_capable_light("H7028"@, STRING@),
        QuirkView::lan_api_capable_light("H7041"@, STRING@),
        QuirkView::lan_api_capable_light("H7042"@, STRING@),
        QuirkView::lan_api_capable_light("H7050"@, BULB@),
        QuirkView::lan_api_capable_light("H7051"@, BULB@),
    ]
}

/// Part 8 of the quirk table.
pub open spec fn quirk_table_part8() -> Seq<QuirkView> {
    seq![
        QuirkView::lan_api_capable_light("H7052"@, STRING@),
        QuirkView::lan_api_capable_light("H7055"@, BULB@),
        QuirkView::lan_api_capable_light("H705A"@, OUTDOOR_LAMP@),
        QuirkView::lan_api_capable_light("H705B"@, OUTDOOR_LAMP@),
        QuirkView::lan_api_capable_light("H7061"@, FLOOD@),
        QuirkView::lan_api_capable_light("H7062"@, FLOOD@),
        QuirkView::lan_api_capable_light("H7065"@, SPOTLIGHT@),
        QuirkView::lan_api_capable_light("H60B0"@, STRIP@),
    ]
}

/// The quirk table: later entries for a SKU take precedence.
pub open spec fn quirk_table() -> Seq<QuirkView> {
    quirk_table_part1() + quirk_table_part2() + quirk_table_part3() + quirk_table_part4() + quirk_table_part5() + quirk_table_part6() + quirk_table_part7() + quirk_table_part8()
}

/// Appends part 1 of the quirk table.
#[verifier::rlimit(50)]
fn push_quirks_part1(v: &mut Vec<Quirk>)
    ensures
        quirks_view(final(v)@) == quirks_view(old(v)@) + quirk_table_part1(),
{
    let ghost start = quirks_view(v@);
    v.push(Quirk::lan_api_capable_light("H60A1", CEILING).with_color_temp_range(2200, 6500));
    v.push(Quirk::lan_api_capable_light("H6022", BULB).with_color_temp_range(2700, 6500));
    v.push(Quirk::lan_api_capable_light("H610A", STRIP));
    v.push(Quirk::light("H6141", STRIP).with_broken_platform());
    v.push(Quirk::light("H6159", STRIP).with_broken_platform());
    v.push(Quirk::light("H6003", BULB).with_broken_platform());
    v.push(Quirk::light("H6121", STRIP).with_iot_api_support(false));
    v.push(Quirk::light("H6154", STRIP).with_iot_api_support(false));
    v.push(Quirk::light("H6176", STRIP).with_iot_api_support(false));
    v.push(Quirk::light("H6102", STRIP) .with_broken_platform() .with_ble_only(true));
    v.push(Quirk::light("H6053", STRIP) .with_broken_platform() .with_ble_only(true));
    v.push(Quirk::light("H617C", STRIP) .with_broken_platform() .with_ble_only(true));
    assert(quirks_view(v@) =~~= start + quirk_table_part1());
}

/// Appends part 2 of the quirk table.
#[verifier::rlimit(50)]
fn push_quirks_part2(v: &mut Vec<Quirk>)
    ensures
        quirks_view(final(v)@) == quirks_view(old(v)@) + quirk_table_part2(),
{
    let ghost start = quirks_view(v@);
    let modes0: &[&str] = &["gearMode"];
    assert(modes0@ =~= seq!["gearMode"]);
    v.push(Quirk::light("H617E", STRIP) .with_broken_platform() .with_ble_only(true));
    v.push(Quirk::light("H617F", STRIP) .with_broken_platform() .with_ble_only(true));
    v.push(Quirk::light("H6119", STRIP) .with_broken_platform() .with_ble_only(true));
    v.push(Quirk::humidifier("H7160") .with_broken_platform() .with_iot_api_support(true) .with_rgb() .with_brightness());
    v.push(Quirk::space_heater("H7130") .with_platform_temperature_sensor_units(TemperatureUnits::Fahrenheit));
    v.push(Quirk::space_heater("H7131") .with_platform_temperature_sensor_units(TemperatureUnits::Fahrenheit) .with_show_as_preset_modes(modes0) .with_rgb() .with_brightness());
    v.push(Quirk::space_heater("H713A") .with_platform_temperature_sensor_units(TemperatureUnits::Fahrenheit));
    v.push(Quirk::space_heater("H713B") .with_platform_temperature_sensor_units(TemperatureUnits::Fahrenheit));
    v.push(Quirk::space_heater("H7132") .with_platform_temperature_sensor_units(TemperatureUnits::Fahrenheit));
    v.push(Quirk::space_heater("H7133") .with_platform_temperature_sensor_units(TemperatureUnits::Fahrenheit) .with_show_as_preset_modes(modes0) .with_rgb() .with_brightness());
    v.push(Quirk::space_heater("H7134") .with_platform_temperature_sensor_units(TemperatureUnits::Fahrenheit) .with_show_as_preset_modes(modes0) .with_color_temp() .with_brightness());
    v.push(Quirk::space_heater("H7135") .with_platform_temperature_sensor_units(TemperatureUnits::Fahrenheit));
    assert(quirks_view(v@) =~~= start + quirk_table_part2());
}

/// Appends part 3 of the quirk table.
#[verifier::rlimit(50)]
fn push_quirks_part3(v: &mut Vec<Quirk>)
    ensures
        quirks_view(final(v)@) == quirks_view(old(v)@) + quirk_table_part3(),
{
    let ghost start = quirks_view(v@);
    let modes0: &[&str] = &["M1", "M2", "M3", "M4"];
    assert(modes0@ =~= seq!["M1", "M2", "M3", "M4"]);
    let modes1: &[&str] = &["Tea", "Coffee", "DIY"];
    assert(modes1@ =~= seq!["Tea", "Coffee", "DIY"]);
    v.push(Quirk::ice_maker("H7172").with_iot_api_support(false));
    v.push(Quirk::thermometer("H5051") .with_platform_temperature_sensor_units(TemperatureUnits::Fahrenheit) .with_platform_humidity_sensor_units(HumidityUnits::RelativePercent));
    v.push(Quirk::thermometer("H5100") .with_platform_temperature_sensor_units(TemperatureUnits::Fahrenheit) .with_platform_humidity_sensor_units(HumidityUnits::RelativePercent));
    v.push(Quirk::thermometer("H5103") .with_platform_temperature_sensor_units(TemperatureUnits::Fahrenheit) .with_platform_humidity_sensor_units(HumidityUnits::RelativePercent));
    v.push(Quirk::thermometer("H5179") .with_platform_temperature_sensor_units(TemperatureUnits::Fahrenheit) .with_platform_humidity_sensor_units(HumidityUnits::RelativePercent));
    v.push(Quirk::device("H7170", DeviceType::Kettle, "mdi:kettle") .with_platform_temperature_sensor_units(TemperatureUnits::Fahrenheit));
    v.push(Quirk::device("H7171", DeviceType::Kettle, "mdi:kettle") .with_platform_temperature_sensor_units(TemperatureUnits::Fahrenheit) .with_show_as_preset_modes(modes0));
    v.push(Quirk::device("H7173", DeviceType::Kettle, "mdi:kettle") .with_platform_temperature_sensor_units(TemperatureUnits::Fahrenheit) .with_show_as_preset_modes(modes1));
    v.push(Quirk::lan_api_capable_light("H6072", FLOOR_LAMP));
    v.push(Quirk::lan_api_capable_light("H619B", STRIP));
    v.push(Quirk::lan_api_capable_light("H619C", STRIP));
    v.push(Quirk::lan_api_capable_light("H619Z", STRIP));
    assert(quirks_view(v@) =~~= start + quirk_table_part3());
}

/// Appends part 4 of the quirk table.
#[verifier::rlimit(50)]
fn push_quirks_part4(v: &mut Vec<Quirk>)
    ensures
        quirks_view(final(v)@) == quirks_view(old(v)@) + quirk_table_part4(),
{
    let ghost start = quirks_view(v@);
    v.push(Quirk::lan_api_capable_light("H7060", FLOOD));
    v.push(Quirk::lan_api_capable_light("H6046", TV_BACK));
    v.push(Quirk::lan_api_capable_light("H6047", TV_BACK));
    v.push(Quirk::lan_api_capable_light("H6051", DESK));
    v.push(Quirk::lan_api_capable_light("H6056", STRIP_ALT));
    v.push(Quirk::lan_api_capable_light("H6059", NIGHTLIGHT));
    v.push(Quirk::lan_api_capable_light("H6061", HEX));
    v.push(Quirk::lan_api_capable_light("H6062", STRIP));
    v.push(Quirk::lan_api_capable_light("H6065", STRIP));
    v.push(Quirk::lan_api_capable_light("H6066", HEX));
    v.push(Quirk::lan_api_capable_light("H6067", TRIANGLE));
    v.push(Quirk::lan_api_capable_light("H6073", FLOOR_LAMP));
    assert(quirks_view(v@) =~~= start + quirk_table_part4());
}

/// Appends part 5 of the quirk table.
#[verifier::rlimit(50)]
fn push_quirks_part5(v: &mut Vec<Quirk>)
    ensures
        quirks_view(final(v)@) == quirks_view(old(v)@) + quirk_table_part5(),
{
    let ghost start = quirks_view(v@);
    v.push(Quirk::lan_api_capable_light("H6076", FLOOR_LAMP));
    v.push(Quirk::lan_api_capable_light("H6078", FLOOR_LAMP));
    v.push(Quirk::lan_api_capable_light("H6087", WALL_SCONCE));
    v.push(Quirk::lan_api_capable_light("H610A", STRIP));
    v.push(Quirk::lan_api_capable_light("H610B", STRIP));
    v.push(Quirk::lan_api_capable_light("H6117", STRIP));
    v.push(Quirk::lan_api_capable_light("H6159", STRIP));
    v.push(Quirk::lan_api_capable_light("H615E", STRIP));
    v.push(Quirk::lan_api_capable_light("H6163", STRIP));
    v.push(Quirk::lan_api_capable_light("H6168", TV_BACK));
    v.push(Quirk::lan_api_capable_light("H6172", STRIP));
    v.push(Quirk::lan_api_capable_light("H6173", STRIP));
    assert(quirks_view(v@) =~~= start + quirk_table_part5());
}

/// Appends part 6 of the quirk table.
#[verifier::rlimit(50)]
fn push_quirks_part6(v: &mut Vec<Quirk>)
    ensures
        quirks_view(final(v)@) == quirks_view(old(v)@) + quirk_table_part6(),
{
    let ghost start = quirks_view(v@);
    v.push(Quirk::lan_api_capable_light("H618A", STRIP));
    v.push(Quirk::lan_api_capable_light("H618C", STRIP));
    v.push(Quirk::lan_api_capable_light("H618E", STRIP));
    v.push(Quirk::lan_api_capable_light("H618F", STRIP));
    v.push(Quirk::lan_api_capable_light("H619A", STRIP));
    v.push(Quirk::lan_api_capable_light("H619D", STRIP));
    v.push(Quirk::lan_api_capable_light("H619E", STRIP));
    v.push(Quirk::lan_api_capable_light("H61A0", STRIP));
    v.push(Quirk::lan_api_capable_light("H61A1", STRIP));
    v.push(Quirk::lan_api_capable_light("H61A2", STRIP));
    v.push(Quirk::lan_api_capable_light("H61A3", STRIP));
    v.push(Quirk::lan_api_capable_light("H61A5", STRIP));
    assert(quirks_view(v@) =~~= start + quirk_table_part6());
}

/// Appends part 7 of the quirk table.
#[verifier::rlimit(50)]
fn push_quirks_part7(v: &mut Vec<Quirk>)
    ensures
        quirks_view(final(v)@) == quirks_view(old(v)@) + quirk_table_part7(),
{
    let ghost start = quirks_view(v@);
    v.push(Quirk::lan_api_capable_light("H61A8", STRIP));
    v.push(Quirk::lan_api_capable_light("H61B2", TV_BACK));
    v.push(Quirk::lan_api_capable_light("H61E1", STRIP));
    v.push(Quirk::lan_api_capable_light("H66A1", TV_BACK));
    v.push(Quirk::lan_api_capable_light("H7012", STRING));
    v.push(Quirk::lan_api_capable_light("H7013", STRING));
    v.push(Quirk::lan_api_capable_light("H7021", STRING));
    v.push(Quirk::lan_api_capable_light("H7028", STRING));
    v.push(Quirk::lan_api_capable_light("H7041", STRING));
    v.push(Quirk::lan_api_capable_light("H7042", STRING));
    v.push(Quirk::lan_api_capable_light("H7050", BULB));
    v.push(Quirk::lan_api_capable_light("H7051", BULB));
    assert(quirks_view(v@) =~~= start + quirk_table_part7());
}

/// Appends part 8 of the quirk table.
#[verifier::rlimit(50)]
fn push_quirks_part8(v: &mut Vec<Quirk>)
    ensures
        quirks_view(final(v)@) == quirks_view(old(v)@) + quirk_table_part8(),
{
    let ghost start = quirks_view(v@);
    v.push(Quirk::lan_api_capable_light("H7052", STRING));
    v.push(Quirk::lan_api_capable_light("H7055", BULB));
    v.push(Quirk::lan_api_capable_light("H705A", OUTDOOR_LAMP));
    v.push(Quirk::lan_api_capable_light("H705B", OUTDOOR_LAMP));
    v.push(Quirk::lan_api_capable_light("H7061", FLOOD));
    v.push(Quirk::lan_api_capable_light("H7062", FLOOD));
    v.push(Quirk::lan_api_capable_light("H7065", SPOTLIGHT));
    // H60B0 Govee Neon Rope Light 2
    v.push(Quirk::lan_api_capable_light("H60B0", STRIP));
    assert(quirks_view(v@) =~~= start + quirk_table_part8());
}

/// The table of all known quirks, in order; a later entry for a SKU
/// overrides an earlier one.
pub fn load_quirks() -> (r: Vec<Quirk>)
    ensures
        quirks_view(r@) == quirk_table(),
{
    let mut v: Vec<Quirk> = Vec::new();
    assert(quirks_view(v@) =~= Seq::<QuirkView>::empty());
    push_quirks_part1(&mut v);
    push_quirks_part2(&mut v);
    push_quirks_part3(&mut v);
    push_quirks_part4(&mut v);
    push_quirks_part5(&mut v);
    push_quirks_part6(&mut v);
    push_quirks_part7(&mut v);
    push_quirks_part8(&mut v);
    assert(quirks_view(v@) =~= quirk_table());
    v
}


/// The index of the last entry of `t` for `sku`.
pub open spec fn last_index_for(t: Seq<QuirkView>, sku: Seq<char>) -> Option<int>
    decreases t.len(),
{
    if t.len() == 0 {
        None
    } else if t.last().sku == sku {
        Some(t.len() - 1)
    } else {
        last_index_for(t.drop_last(), sku)
    }
}

/// The quirk of a SKU: its last entry in the table.
pub open spec fn spec_resolve_quirk(sku: Seq<char>) -> Option<QuirkView> {
    match last_index_for(quirk_table(), sku) {
        Some(i) => Some(quirk_table()[i]),
        None => None,
    }
}

/// The quirk of a SKU, if the table has one.
pub fn resolve_quirk(sku: &str) -> (r: Option<Quirk>)
    ensures
        match r {
            Some(q) => spec_resolve_quirk(sku@) == Some(q@),
            None => spec_resolve_quirk(sku@) is None,
        },
{
    let mut table = load_quirks();
    let ghost t = quirks_view(table@);
    let mut i = table.len();
    assert(t.take(i as int) =~= t);
    while i > 0
        invariant
            i <= table.len(),
            quirks_view(table@) == t,
            t == quirk_table(),
            last_index_for(t, sku@) == last_index_for(t.take(i as int), sku@),
        decreases i,
    {
        assert(t.take(i as int).drop_last() =~= t.take(i - 1));
        if str_eq(table[i - 1].sku.as_str(), sku) {
            let q = table.swap_remove(i - 1);
            return Some(q);
        }
        i = i - 1;
    }
    None
}

} // verus!

//! Which Home Assistant entities a device gets: one for each of its
//! features, and for its work modes either preset buttons or a number
//! slider.

use vstd::prelude::*;
use crate::strings::{owned, concat_str, str_eq};
use crate::platform_api::{
    DeviceCapability, DeviceCapabilityKind, DeviceParameters, IntegerRange, OptionValue, OptionValueView,
    spec_struct_field,
};
use crate::temperature::TemperatureUnits;
use crate::quirks::{Quirk, QuirkView};
use crate::work_mode::{
    ParsedWorkMode, WorkModeView, WorkModeValueView, forms_range, preset_ints, seq_max, seq_min, spec_label,
};

verus! {

// ---------------------------------------------------------------------------
// Work mode entities
// ---------------------------------------------------------------------------

/// An entity for a work mode.
pub enum WorkModeEntity {
    /// A button that switches to the mode with the given value.
    PresetButton { label: String, mode_name: String, mode_num: i64, value: i64 },
    /// A number entity whose values, from `min` up to `max` excluded, are
    /// the mode's presets.
    Number { label: String, mode_name: String, mode_num: i64, min: i64, max: i64 },
}

/// The content of a work mode entity.
pub enum WorkModeEntityView {
    PresetButton { label: Seq<char>, mode_name: Seq<char>, mode_num: i64, value: i64 },
    Number { label: Seq<char>, mode_name: Seq<char>, mode_num: i64, min: i64, max: i64 },
}

impl View for WorkModeEntity {
    type V = WorkModeEntityView;

    open spec fn view(&self) -> WorkModeEntityView {
        match *self {
            WorkModeEntity::PresetButton { label, mode_name, mode_num, value } => WorkModeEntityView::PresetButton {
                label: label@,
                mode_name: mode_name@,
                mode_num,
                value,
            },
            WorkModeEntity::Number { label, mode_name, mode_num, min, max } => WorkModeEntityView::Number {
                label: label@,
                mode_name: mode_name@,
                mode_num,
                min,
                max,
            },
        }
    }
}

/// The views of a list of work mode entities.
pub open spec fn entities_view(v: Seq<WorkModeEntity>) -> Seq<WorkModeEntityView> {
    v.map_values(|e: WorkModeEntity| e@)
}

/// The quirk, when there is one, by its view.
pub open spec fn opt_quirk_view(q: Option<Quirk>) -> Option<QuirkView> {
    match q {
        Some(q) => Some(q@),
        None => None,
    }
}

/// A mode is shown as preset buttons when it has no presets, when its
/// presets do not form a range, or when the device's quirk asks for it.
pub open spec fn show_as_preset(m: WorkModeView, quirk: Option<QuirkView>) -> bool {
    ||| m.values.len() == 0
    ||| !forms_range(m.values)
    ||| (quirk matches Some(q) && q.show_as_preset_buttons matches Some(list) && list.contains(m.name))
}

/// One button for each preset with an integer value, in order.
pub open spec fn preset_buttons(m: WorkModeView, num: i64, vs: Seq<WorkModeValueView>) -> Seq<WorkModeEntityView>
    decreases vs.len(),
{
    if vs.len() == 0 {
        Seq::empty()
    } else {
        let rest = preset_buttons(m, num, vs.drop_last());
        match vs.last().value {
            OptionValueView::Integer(x) => rest.push(
                WorkModeEntityView::PresetButton {
                    label: vs.last().computed_label,
                    mode_name: m.name,
                    mode_num: num,
                    value: x,
                },
            ),
            OptionValueView::Other(_) => rest,
        }
    }
}

/// The entities of one mode: none unless its value is an integer; else a
/// button to activate it, a button for each preset, or a number over the
/// range of its presets.
pub open spec fn mode_entities(m: WorkModeView, quirk: Option<QuirkView>) -> Seq<WorkModeEntityView> {
    match m.value {
        OptionValueView::Integer(num) => if show_as_preset(m, quirk) {
            if m.values.len() == 0 {
                seq![
                    WorkModeEntityView::PresetButton {
                        label: "Activate Mode: "@ + spec_label(m),
                        mode_name: m.name,
                        mode_num: num,
                        value: 0,
                    },
                ]
            } else {
                preset_buttons(m, num, m.values)
            }
        } else {
            seq![
                WorkModeEntityView::Number {
                    label: spec_label(m),
                    mode_name: m.name,
                    mode_num: num,
                    min: seq_min(preset_ints(m.values)) as i64,
                    max: (seq_max(preset_ints(m.values)) + 1) as i64,
                },
            ]
        },
        OptionValueView::Other(_) => Seq::empty(),
    }
}

/// The entities of all the modes, mode by mode.
pub open spec fn spec_work_mode_entities(ms: Seq<WorkModeView>, quirk: Option<QuirkView>) -> Seq<WorkModeEntityView>
    decreases ms.len(),
{
    if ms.len() == 0 {
        Seq::empty()
    } else {
        spec_work_mode_entities(ms.drop_last(), quirk) + mode_entities(ms.last(), quirk)
    }
}

/// The range of a mode's presets can be given: its end, one past the
/// largest preset, fits in an `i64`.
pub open spec fn range_fits(m: WorkModeView) -> bool {
    m.value is Integer && forms_range(m.values) ==> seq_max(preset_ints(m.values)) < i64::MAX
}

/// The buttons of a mode's presets.
fn preset_button_list(
    mode_name: &str,
    num: i64,
    values: &Vec<crate::work_mode::WorkModeValue>,
    out: &mut Vec<WorkModeEntity>,
)
    ensures
        entities_view(final(out)@) == entities_view(old(out)@) + preset_buttons(
            WorkModeView { name: mode_name@, value: OptionValueView::Integer(num), label: Seq::empty(), values: Seq::empty() },
            num,
            crate::work_mode::values_view(values@),
        ),
{
    let ghost m = WorkModeView { name: mode_name@, value: OptionValueView::Integer(num), label: Seq::empty(), values: Seq::empty() };
    let ghost start = entities_view(out@);
    let ghost vs = crate::work_mode::values_view(values@);
    let mut j: usize = 0;
    while j < values.len()
        invariant
            j <= values.len(),
            vs == crate::work_mode::values_view(values@),
            m.name == mode_name@,
            entities_view(out@) == start + preset_buttons(m, num, vs.take(j as int)),
        decreases values.len() - j,
    {
        let ghost before = entities_view(out@);
        assert(vs.take(j + 1).drop_last() =~= vs.take(j as int));
        assert(vs.take(j + 1).last() == values@[j as int]@);
        match values[j].value {
            OptionValue::Integer(x) => {
                let e = WorkModeEntity::PresetButton {
                    label: owned(values[j].computed_label.as_str()),
                    mode_name: owned(mode_name),
                    mode_num: num,
                    value: x,
                };
                out.push(e);
                assert(entities_view(out@) =~= before.push(e@));
                assert(vs.take(j + 1).last() == values@[j as int]@);
                assert(preset_buttons(m, num, vs.take(j + 1)) == preset_buttons(m, num, vs.take(j as int)).push(e@));
            },
            OptionValue::Other(_) => {
                assert(preset_buttons(m, num, vs.take(j + 1)) == preset_buttons(m, num, vs.take(j as int)));
            },
        }
        j = j + 1;
    }
    assert(vs.take(values.len() as int) =~= vs);
}

/// Preset buttons do not depend on the rest of the mode.
proof fn lemma_preset_buttons_name_only(m: WorkModeView, n: WorkModeView, num: i64, vs: Seq<WorkModeValueView>)
    requires
        m.name == n.name,
    ensures
        preset_buttons(m, num, vs) == preset_buttons(n, num, vs),
    decreases vs.len(),
{
    if vs.len() > 0 {
        lemma_preset_buttons_name_only(m, n, num, vs.drop_last());
    }
}

/// The entities for the work modes of a device: for each mode with an
/// integer value, preset buttons or a number slider.
pub fn work_mode_entities(modes: &ParsedWorkMode, quirk: &Option<Quirk>) -> (r: Vec<WorkModeEntity>)
    requires
        forall|i: int| 0 <= i < modes@.len() ==> range_fits(#[trigger] modes@[i]),
    ensures
        entities_view(r@) == spec_work_mode_entities(modes@, opt_quirk_view(*quirk)),
{
    let ghost q = opt_quirk_view(*quirk);
    let mut out: Vec<WorkModeEntity> = Vec::new();
    let mut i: usize = 0;
    while i < modes.modes.len()
        invariant
            i <= modes.modes.len(),
            modes@.len() == modes.modes.len(),
            q == opt_quirk_view(*quirk),
            forall|k: int| 0 <= k < modes@.len() ==> range_fits(#[trigger] modes@[k]),
            entities_view(out@) == spec_work_mode_entities(modes@.take(i as int), q),
        decreases modes.modes.len() - i,
    {
        let m = &modes.modes[i];
        let ghost mv = modes@[i as int];
        assert(mv == m@);
        assert(modes@.take(i + 1).drop_last() =~= modes@.take(i as int));
        assert(modes@.take(i + 1).last() == mv);
        let ghost before = entities_view(out@);
        match m.value {
            OptionValue::Integer(num) => {
                assert(range_fits(modes@[i as int]));
                let range = m.contiguous_value_range();
                let quirk_preset = match quirk {
                    Some(qk) => qk.should_show_mode_as_preset(m.name.as_str()),
                    None => false,
                };
                if m.values.len() == 0 || range.is_none() || quirk_preset {
                    assert(show_as_preset(mv, q));
                    if m.values.len() == 0 {
                        let label = concat_str("Activate Mode: ", m.label());
                        let e = WorkModeEntity::PresetButton {
                            label,
                            mode_name: owned(m.name.as_str()),
                            mode_num: num,
                            value: 0,
                        };
                        out.push(e);
                        assert(entities_view(out@) =~= before + mode_entities(mv, q));
                    } else {
                        preset_button_list(m.name.as_str(), num, &m.values, &mut out);
                        proof {
                            lemma_preset_buttons_name_only(
                                WorkModeView { name: m.name@, value: OptionValueView::Integer(num), label: Seq::empty(), values: Seq::empty() },
                                mv,
                                num,
                                mv.values,
                            );
                        }
                        assert(entities_view(out@) =~= before + mode_entities(mv, q));
                    }
                } else {
                    assert(!show_as_preset(mv, q));
                    let (lo, hi) = match range {
                        Some(r) => r,
                        None => (0, 0),
                    };
                    let e = WorkModeEntity::Number {
                        label: owned(m.label()),
                        mode_name: owned(m.name.as_str()),
                        mode_num: num,
                        min: lo,
                        max: hi,
                    };
                    out.push(e);
                    assert(entities_view(out@) =~= before + mode_entities(mv, q));
                }
            },
            OptionValue::Other(_) => {
                assert(mode_entities(mv, q) =~= Seq::<WorkModeEntityView>::empty());
                assert(entities_view(out@) =~= before + mode_entities(mv, q));
            },
        }
        i = i + 1;
    }
    assert(modes@.take(modes.modes.len() as int) =~= modes@);
    out
}

// ---------------------------------------------------------------------------
// The entities of a device
// ---------------------------------------------------------------------------

/// One entity, or group of entities, of a device.
#[derive(Clone, Copy, Debug, PartialEq, Eq, Structural)]
pub enum EntityPlan {
    /// The diagnostic that reports the device's status.
    StatusDiagnostic,
    /// The button that asks for the device's Platform API state.
    RequestPlatformData,
    /// The light of the whole device.
    Light,
    /// The humidifier entity.
    Humidifier,
    /// A switch for the capability at this index.
    Switch(usize),
    /// The work mode entities of the capability at this index.
    WorkModes(usize),
    /// A target temperature entity for the capability at this index.
    TargetTemperature(usize),
    /// A capability at this index for which no entity is made.
    Unhandled(usize),
}

/// The entity for a capability: none for the colour, music and scene
/// settings and for the brightness and humidity ranges, which other
/// entities cover.
pub open spec fn capability_plan(cap: DeviceCapability, i: usize) -> Option<EntityPlan> {
    match cap.kind {
        DeviceCapabilityKind::Toggle | DeviceCapabilityKind::OnOff => Some(EntityPlan::Switch(i)),
        DeviceCapabilityKind::ColorSetting | DeviceCapabilityKind::SegmentColorSetting
        | DeviceCapabilityKind::MusicSetting | DeviceCapabilityKind::DynamicScene => None,
        DeviceCapabilityKind::Range => if cap.instance@ == "brightness"@ || cap.instance@ == "humidity"@ {
            None
        } else {
            Some(EntityPlan::Unhandled(i))
        },
        DeviceCapabilityKind::WorkMode => Some(EntityPlan::WorkModes(i)),
        DeviceCapabilityKind::TemperatureSetting => Some(EntityPlan::TargetTemperature(i)),
        _ => Some(EntityPlan::Unhandled(i)),
    }
}

/// The entities of the capabilities, in order.
pub open spec fn capability_plans(caps: Seq<DeviceCapability>) -> Seq<EntityPlan>
    decreases caps.len(),
{
    if caps.len() == 0 {
        Seq::empty()
    } else {
        let rest = capability_plans(caps.drop_last());
        match capability_plan(caps.last(), (caps.len() - 1) as usize) {
            Some(p) => rest.push(p),
            None => rest,
        }
    }
}

/// The entities of a device: none unless it can be controlled; else the
/// status diagnostic and the request button, the light when it has one,
/// the humidifier when it is one, and an entity for each capability of its
/// Platform API information.
pub open spec fn spec_device_entities(
    controllable: bool,
    has_light: bool,
    is_humidifier: bool,
    caps: Option<Seq<DeviceCapability>>,
) -> Seq<EntityPlan> {
    if !controllable {
        Seq::empty()
    } else {
        seq![EntityPlan::StatusDiagnostic, EntityPlan::RequestPlatformData] + (if has_light {
            seq![EntityPlan::Light]
        } else {
            Seq::empty()
        }) + (if is_humidifier {
            seq![EntityPlan::Humidifier]
        } else {
            Seq::empty()
        }) + match caps {
            Some(c) => capability_plans(c),
            None => Seq::empty(),
        }
    }
}

/// An entity is planned for the capabilities exactly when it is the entity
/// of one of them.
proof fn lemma_capability_plans_members(caps: Seq<DeviceCapability>, p: EntityPlan)
    ensures
        capability_plans(caps).contains(p) <==> exists|j: int|
            0 <= j < caps.len() && #[trigger] capability_plan(caps[j], j as usize) == Some(p),
    decreases caps.len(),
{
    if caps.len() > 0 {
        let d = caps.drop_last();
        let n = caps.len() - 1;
        let rest = capability_plans(d);
        let r = capability_plans(caps);
        lemma_capability_plans_members(d, p);
        if r.contains(p) {
            let k = choose|k: int| 0 <= k < r.len() && r[k] == p;
            if k < rest.len() {
                assert(rest[k] == p);
                assert(rest.contains(p));
                let j = choose|j: int| 0 <= j < d.len() && #[trigger] capability_plan(d[j], j as usize) == Some(p);
                assert(caps[j] == d[j]);
            } else {
                assert(capability_plan(caps[n], n as usize) == Some(p));
            }
        }
        if exists|j: int| 0 <= j < caps.len() && #[trigger] capability_plan(caps[j], j as usize) == Some(p) {
            let j = choose|j: int| 0 <= j < caps.len() && #[trigger] capability_plan(caps[j], j as usize) == Some(p);
            if j == n {
                assert(r[r.len() - 1] == p);
            } else {
                assert(d[j] == caps[j]);
                assert(rest.contains(p));
                let k = choose|k: int| 0 <= k < rest.len() && rest[k] == p;
                assert(r[k] == p);
            }
        }
    }
}

/// Which entity each capability gets: a switch for a toggle or on/off
/// capability, the work mode entities for a work mode capability, a target
/// temperature entity for a temperature setting, and none at all for the
/// colour, segment colour, music and scene capabilities; a device that
/// cannot be controlled gets no entity.
pub proof fn lemma_capability_entities(caps: Seq<DeviceCapability>, i: int, has_light: bool, is_humidifier: bool)
    requires
        caps.len() <= usize::MAX,
        0 <= i < caps.len(),
    ensures
        ({
            let plans = capability_plans(caps);
            let k = caps[i].kind;
            &&& plans.contains(EntityPlan::Switch(i as usize)) <==> (k == DeviceCapabilityKind::Toggle || k
                == DeviceCapabilityKind::OnOff)
            &&& plans.contains(EntityPlan::WorkModes(i as usize)) <==> k == DeviceCapabilityKind::WorkMode
            &&& plans.contains(EntityPlan::TargetTemperature(i as usize)) <==> k
                == DeviceCapabilityKind::TemperatureSetting
            &&& (k == DeviceCapabilityKind::ColorSetting || k == DeviceCapabilityKind::SegmentColorSetting || k
                == DeviceCapabilityKind::MusicSetting || k == DeviceCapabilityKind::DynamicScene) ==> !plans.contains(
                EntityPlan::Unhandled(i as usize),
            ) && !plans.contains(EntityPlan::Switch(i as usize))
            &&& spec_device_entities(true, has_light, is_humidifier, Some(caps)).contains(
                EntityPlan::Switch(i as usize),
            ) == plans.contains(EntityPlan::Switch(i as usize))
            &&& spec_device_entities(false, has_light, is_humidifier, Some(caps)).len() == 0
        }),
{
    let plans = capability_plans(caps);
    let u = i as usize;
    lemma_capability_plans_members(caps, EntityPlan::Switch(u));
    lemma_capability_plans_members(caps, EntityPlan::WorkModes(u));
    lemma_capability_plans_members(caps, EntityPlan::TargetTemperature(u));
    lemma_capability_plans_members(caps, EntityPlan::Unhandled(u));
    assert(capability_plan(caps[i], u) == capability_plan(caps[i], i as usize));
    let head = seq![EntityPlan::StatusDiagnostic, EntityPlan::RequestPlatformData] + (if has_light {
        seq![EntityPlan::Light]
    } else {
        Seq::empty()
    }) + (if is_humidifier {
        seq![EntityPlan::Humidifier]
    } else {
        Seq::empty()
    });
    let all = spec_device_entities(true, has_light, is_humidifier, Some(caps));
    assert(all == head + plans);
    assert(!head.contains(EntityPlan::Switch(u))) by {
        if head.contains(EntityPlan::Switch(u)) {
            let k = choose|k: int| 0 <= k < head.len() && head[k] == EntityPlan::Switch(u);
        }
    }
    if all.contains(EntityPlan::Switch(u)) {
        let k = choose|k: int| 0 <= k < all.len() && all[k] == EntityPlan::Switch(u);
        if k < head.len() {
            assert(head[k] == EntityPlan::Switch(u));
        } else {
            assert(plans[k - head.len()] == EntityPlan::Switch(u));
        }
    }
    if plans.contains(EntityPlan::Switch(u)) {
        let k = choose|k: int| 0 <= k < plans.len() && plans[k] == EntityPlan::Switch(u);
        assert(all[head.len() + k] == EntityPlan::Switch(u));
    }
}

/// The entity for one capability.
fn plan_capability(cap: &DeviceCapability, i: usize) -> (r: Option<EntityPlan>)
    ensures
        r == capability_plan(*cap, i),
{
    match cap.kind {
        DeviceCapabilityKind::Toggle | DeviceCapabilityKind::OnOff => Some(EntityPlan::Switch(i)),
        DeviceCapabilityKind::ColorSetting | DeviceCapabilityKind::SegmentColorSetting
        | DeviceCapabilityKind::MusicSetting | DeviceCapabilityKind::DynamicScene => None,
        DeviceCapabilityKind::Range => if str_eq(cap.instance.as_str(), "brightness") || str_eq(
            cap.instance.as_str(),
            "humidity",
        ) {
            None
        } else {
            Some(EntityPlan::Unhandled(i))
        },
        DeviceCapabilityKind::WorkMode => Some(EntityPlan::WorkModes(i)),
        DeviceCapabilityKind::TemperatureSetting => Some(EntityPlan::TargetTemperature(i)),
        _ => Some(EntityPlan::Unhandled(i)),
    }
}

/// The entities of a device; `caps` are the capabilities of its Platform
/// API information, when it has some.
pub fn plan_device_entities(
    controllable: bool,
    has_light: bool,
    is_humidifier: bool,
    caps: Option<&Vec<DeviceCapability>>,
) -> (r: Vec<EntityPlan>)
    ensures
        r@ == spec_device_entities(
            controllable,
            has_light,
            is_humidifier,
            match caps {
                Some(c) => Some(c@),
                None => None,
            },
        ),
{
    let mut out: Vec<EntityPlan> = Vec::new();
    if !controllable {
        return out;
    }
    out.push(EntityPlan::StatusDiagnostic);
    out.push(EntityPlan::RequestPlatformData);
    if has_light {
        out.push(EntityPlan::Light);
    }
    if is_humidifier {
        out.push(EntityPlan::Humidifier);
    }
    let ghost head = out@;
    match caps {
        Some(c) => {
            let mut i: usize = 0;
            while i < c.len()
                invariant
                    i <= c.len(),
                    out@ == head + capability_plans(c@.take(i as int)),
                decreases c.len() - i,
            {
                assert(c@.take(i + 1).drop_last() =~= c@.take(i as int));
                assert(c@.take(i + 1).last() == c@[i as int]);
                match plan_capability(&c[i], i) {
                    Some(p) => {
                        out.push(p);
                    },
                    None => {},
                }
                assert(out@ =~= head + capability_plans(c@.take(i + 1)));
                i = i + 1;
            }
            assert(c@.take(c.len() as int) =~= c@);
        },
        None => {
            assert(out@ =~= head + Seq::<EntityPlan>::empty());
        },
    }
    out
}


// ---------------------------------------------------------------------------
// Target temperature
// ---------------------------------------------------------------------------

/// How a target temperature capability is read: the units in which the
/// device reports temperatures, the units of the range of the
/// "temperature" field, and that range.
#[derive(Clone, Copy, Debug, PartialEq, Eq, Structural)]
pub struct TemperatureSetting {
    pub units: TemperatureUnits,
    pub range_units: TemperatureUnits,
    pub range: IntegerRange,
}

/// Why a target temperature capability cannot be read.
#[derive(Clone, Copy, Debug, PartialEq, Eq, Structural)]
pub enum TemperatureSettingError {
    /// The capability has no "temperature" field.
    NoTemperatureField,
    /// The "temperature" field is not an integer.
    UnexpectedTemperatureValue,
}

/// The units a unit name stands for: Celsius for the name "Celsius",
/// Fahrenheit for "Farenheit", else the fallback.
pub open spec fn units_named(name: Option<Seq<char>>, fallback: TemperatureUnits) -> TemperatureUnits {
    if name == Some("Celsius"@) {
        TemperatureUnits::Celsius
    } else if name == Some("Farenheit"@) {
        TemperatureUnits::Fahrenheit
    } else {
        fallback
    }
}

/// The units of a capability: those named by the JSON default value of its
/// "unit" field, Fahrenheit otherwise.
pub open spec fn setting_units(cap: DeviceCapability) -> TemperatureUnits {
    match spec_struct_field(cap.parameters, "unit"@) {
        Some(f) => if crate::device_database::opt_view(f.default_value) == Some("\"Celsius\""@) {
            TemperatureUnits::Celsius
        } else {
            TemperatureUnits::Fahrenheit
        },
        None => TemperatureUnits::Fahrenheit,
    }
}

/// How a target temperature capability is read.
pub open spec fn spec_temperature_setting(cap: DeviceCapability) -> Result<TemperatureSetting, TemperatureSettingError> {
    let units = setting_units(cap);
    match spec_struct_field(cap.parameters, "temperature"@) {
        None => Err(TemperatureSettingError::NoTemperatureField),
        Some(f) => match f.field_type {
            DeviceParameters::Integer { unit, range } => Ok(
                TemperatureSetting {
                    units,
                    range_units: units_named(crate::device_database::opt_view(unit), units),
                    range,
                },
            ),
            _ => Err(TemperatureSettingError::UnexpectedTemperatureValue),
        },
    }
}

/// Reads a target temperature capability.
pub fn temperature_setting(cap: &DeviceCapability) -> (r: Result<TemperatureSetting, TemperatureSettingError>)
    ensures
        r == spec_temperature_setting(*cap),
{
    let units = match cap.struct_field_by_name("unit") {
        Some(f) => match &f.default_value {
            Some(v) => if str_eq(v.as_str(), "\"Celsius\"") {
                TemperatureUnits::Celsius
            } else {
                TemperatureUnits::Fahrenheit
            },
            None => TemperatureUnits::Fahrenheit,
        },
        None => TemperatureUnits::Fahrenheit,
    };
    match cap.struct_field_by_name("temperature") {
        None => Err(TemperatureSettingError::NoTemperatureField),
        Some(f) => match &f.field_type {
            DeviceParameters::Integer { unit, range } => {
                let range_units = match unit {
                    Some(u) => if str_eq(u.as_str(), "Celsius") {
                        TemperatureUnits::Celsius
                    } else if str_eq(u.as_str(), "Farenheit") {
                        TemperatureUnits::Fahrenheit
                    } else {
                        units
                    },
                    None => units,
                };
                Ok(TemperatureSetting { units, range_units, range: *range })
            },
            _ => Err(TemperatureSettingError::UnexpectedTemperatureValue),
        },
    }
}

} // verus!

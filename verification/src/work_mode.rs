//! The work modes of a device, read from its "workMode" capability: each
//! mode's name and value, the label shown for it, and the preset values it
//! offers.

use vstd::prelude::*;
use crate::strings::{
    chars_of, string_of, owned, str_eq, append_str, append_chars, seq_lt, compare_chars, SeqOrder,
    signed_decimal_chars, spec_signed_decimal, lemma_seq_lt_total, lemma_seq_lt_transitive,
    lemma_seq_lt_irreflexive,
};
use crate::device_database::opt_view;
use crate::platform_api::{
    DeviceCapability, DeviceParameters, EnumOption, ModeOption, OptionValue, OptionValueView,
    HttpDeviceInfo, spec_struct_field, first_instance,
};
use crate::quirks::strings_view;

verus! {

// ---------------------------------------------------------------------------
// Data
// ---------------------------------------------------------------------------

/// A preset value of a work mode.
pub struct WorkModeValue {
    pub value: OptionValue,
    pub name: Option<String>,
    pub computed_label: String,
}

/// The content of a preset value.
pub struct WorkModeValueView {
    pub value: OptionValueView,
    pub name: Option<Seq<char>>,
    pub computed_label: Seq<char>,
}

impl View for WorkModeValue {
    type V = WorkModeValueView;

    open spec fn view(&self) -> WorkModeValueView {
        WorkModeValueView { value: self.value@, name: opt_view(self.name), computed_label: self.computed_label@ }
    }
}

/// A work mode.
pub struct WorkMode {
    pub name: String,
    pub value: OptionValue,
    pub label: String,
    pub values: Vec<WorkModeValue>,
}

/// The content of a work mode.
pub struct WorkModeView {
    pub name: Seq<char>,
    pub value: OptionValueView,
    pub label: Seq<char>,
    pub values: Seq<WorkModeValueView>,
}

/// The views of a list of preset values.
pub open spec fn values_view(v: Seq<WorkModeValue>) -> Seq<WorkModeValueView> {
    v.map_values(|x: WorkModeValue| x@)
}

impl View for WorkMode {
    type V = WorkModeView;

    open spec fn view(&self) -> WorkModeView {
        WorkModeView { name: self.name@, value: self.value@, label: self.label@, values: values_view(self.values@) }
    }
}

/// The work modes of a device, in order of name, each name once.
pub struct ParsedWorkMode {
    pub modes: Vec<WorkMode>,
}

/// The views of a list of work modes.
pub open spec fn modes_view(v: Seq<WorkMode>) -> Seq<WorkModeView> {
    v.map_values(|m: WorkMode| m@)
}

impl View for ParsedWorkMode {
    type V = Seq<WorkModeView>;

    open spec fn view(&self) -> Seq<WorkModeView> {
        modes_view(self.modes@)
    }
}

/// No two modes have the same name.
pub open spec fn distinct_names(ms: Seq<WorkModeView>) -> bool {
    forall|i: int, j: int| 0 <= i < ms.len() && 0 <= j < ms.len() && i != j ==> ms[i].name != ms[j].name
}

/// The names go up in code point order.
pub open spec fn names_sorted(ms: Seq<WorkModeView>) -> bool {
    forall|i: int, j: int| 0 <= i < j < ms.len() ==> seq_lt(#[trigger] ms[i].name, #[trigger] ms[j].name)
}

impl ParsedWorkMode {
    /// The modes are in order of name, each name once.
    pub open spec fn wf(&self) -> bool {
        distinct_names(self@) && names_sorted(self@)
    }
}

// ---------------------------------------------------------------------------
// Lookup
// ---------------------------------------------------------------------------

/// The mode at `i` has the given name.
pub open spec fn has_name_at(ms: Seq<WorkModeView>, name: Seq<char>, i: int) -> bool {
    0 <= i < ms.len() && ms[i].name == name
}

/// The index of the first mode with the given name (meaningful when there
/// is one).
pub open spec fn first_name_index(ms: Seq<WorkModeView>, name: Seq<char>) -> int {
    choose|i: int| has_name_at(ms, name, i) && forall|j: int| 0 <= j < i ==> !has_name_at(ms, name, j)
}

/// The index of the mode with the given name.
pub open spec fn name_index(ms: Seq<WorkModeView>, name: Seq<char>) -> Option<int> {
    if exists|i: int| has_name_at(ms, name, i) {
        Some(first_name_index(ms, name))
    } else {
        None
    }
}

/// Finds the mode with the given name.
fn find_name(modes: &Vec<WorkMode>, name: &str) -> (r: Option<usize>)
    ensures
        r matches Some(i) ==> i < modes.len() && name_index(modes_view(modes@), name@) == Some(i as int),
        r is None ==> name_index(modes_view(modes@), name@) is None,
{
    let ghost ms = modes_view(modes@);
    let mut i: usize = 0;
    while i < modes.len()
        invariant
            i <= modes.len(),
            ms == modes_view(modes@),
            forall|j: int| 0 <= j < i ==> !has_name_at(ms, name@, j),
        decreases modes.len() - i,
    {
        if str_eq(modes[i].name.as_str(), name) {
            proof {
                assert(has_name_at(ms, name@, i as int));
                let w = first_name_index(ms, name@);
                assert(w == i) by {
                    if w < i {
                    } else if w > i {
                    }
                }
            }
            return Some(i);
        }
        i = i + 1;
    }
    None
}

/// Two option values are equal.
pub fn same_value(a: &OptionValue, b: &OptionValue) -> (r: bool)
    ensures
        r == (a@ == b@),
{
    match (a, b) {
        (OptionValue::Integer(x), OptionValue::Integer(y)) => *x == *y,
        (OptionValue::Other(x), OptionValue::Other(y)) => str_eq(x.as_str(), y.as_str()),
        _ => false,
    }
}

/// The mode at `i` has the given value.
pub open spec fn has_value_at(ms: Seq<WorkModeView>, value: OptionValueView, i: int) -> bool {
    0 <= i < ms.len() && ms[i].value == value
}

/// The index of the first mode with the given value (meaningful when there
/// is one).
pub open spec fn first_value_index(ms: Seq<WorkModeView>, value: OptionValueView) -> int {
    choose|i: int| has_value_at(ms, value, i) && forall|j: int| 0 <= j < i ==> !has_value_at(ms, value, j)
}

/// The label shown for a mode: its label, or its name when the label is
/// empty.
pub open spec fn spec_label(m: WorkModeView) -> Seq<char> {
    if m.label.len() == 0 {
        m.name
    } else {
        m.label
    }
}

/// The mode at `i` shows the given label.
pub open spec fn has_label_at(ms: Seq<WorkModeView>, label: Seq<char>, i: int) -> bool {
    0 <= i < ms.len() && spec_label(ms[i]) == label
}

/// The index of the first mode showing the given label (meaningful when
/// there is one).
pub open spec fn first_label_index(ms: Seq<WorkModeView>, label: Seq<char>) -> int {
    choose|i: int| has_label_at(ms, label, i) && forall|j: int| 0 <= j < i ==> !has_label_at(ms, label, j)
}

impl WorkMode {
    /// The label shown for the mode.
    pub fn label(&self) -> (r: &str)
        ensures
            r@ == spec_label(self@),
    {
        if self.label.unicode_len() == 0 {
            self.name.as_str()
        } else {
            self.label.as_str()
        }
    }
}

impl ParsedWorkMode {
    /// The mode with the given name.
    pub fn mode_by_name(&self, name: &str) -> (r: Option<&WorkMode>)
        ensures
            match name_index(self@, name@) {
                Some(i) => r matches Some(m) && m@ == self@[i],
                None => r is None,
            },
    {
        let found = find_name(&self.modes, name);
        match found {
            Some(i) => {
                assert(self@[i as int] == self.modes@[i as int]@);
                Some(&self.modes[i])
            },
            None => None,
        }
    }

    /// A mode with the given value: the first in the list.
    pub fn mode_for_value(&self, value: &OptionValue) -> (r: Option<&WorkMode>)
        ensures
            (exists|i: int| has_value_at(self@, value@, i)) ==> (r matches Some(m) && m@ == self@[first_value_index(self@, value@)]),
            !(exists|i: int| has_value_at(self@, value@, i)) ==> r is None,
    {
        let ghost ms = self@;
        let mut i: usize = 0;
        while i < self.modes.len()
            invariant
                i <= self.modes.len(),
                ms == self@,
                forall|j: int| 0 <= j < i ==> !has_value_at(ms, value@, j),
            decreases self.modes.len() - i,
        {
            if same_value(&self.modes[i].value, value) {
                proof {
                    assert(has_value_at(ms, value@, i as int));
                    let w = first_value_index(ms, value@);
                    assert(w == i) by {
                        if w < i {
                        } else if w > i {
                        }
                    }
                }
                return Some(&self.modes[i]);
            }
            i = i + 1;
        }
        None
    }

    /// A mode showing the given label: the first in the list.
    pub fn mode_by_label(&self, label: &str) -> (r: Option<&WorkMode>)
        ensures
            (exists|i: int| has_label_at(self@, label@, i)) ==> (r matches Some(m) && m@ == self@[first_label_index(self@, label@)]),
            !(exists|i: int| has_label_at(self@, label@, i)) ==> r is None,
    {
        let ghost ms = self@;
        let mut i: usize = 0;
        while i < self.modes.len()
            invariant
                i <= self.modes.len(),
                ms == self@,
                forall|j: int| 0 <= j < i ==> !has_label_at(ms, label@, j),
            decreases self.modes.len() - i,
        {
            if str_eq(self.modes[i].label(), label) {
                proof {
                    assert(has_label_at(ms, label@, i as int));
                    let w = first_label_index(ms, label@);
                    assert(w == i) by {
                        if w < i {
                        } else if w > i {
                        }
                    }
                }
                return Some(&self.modes[i]);
            }
            i = i + 1;
        }
        None
    }
}

// ---------------------------------------------------------------------------
// Building the list of modes
// ---------------------------------------------------------------------------

/// A mode with a name and a value, no label and no presets.
pub open spec fn fresh_mode(name: Seq<char>, value: OptionValueView) -> WorkModeView {
    WorkModeView { name: name, value: value, label: Seq::empty(), values: Seq::empty() }
}

/// Where a new name goes: after every mode whose name does not come after
/// it, found from the end.
pub open spec fn sorted_pos(ms: Seq<WorkModeView>, name: Seq<char>) -> int
    decreases ms.len(),
{
    if ms.len() == 0 {
        0
    } else if seq_lt(name, ms.last().name) {
        sorted_pos(ms.drop_last(), name)
    } else {
        ms.len() as int
    }
}

/// Adding a mode replaces the mode of the same name, else inserts it in
/// order of name.
pub open spec fn spec_add(ms: Seq<WorkModeView>, name: Seq<char>, value: OptionValueView) -> Seq<WorkModeView> {
    match name_index(ms, name) {
        Some(i) => ms.update(i, fresh_mode(name, value)),
        None => ms.insert(sorted_pos(ms, name), fresh_mode(name, value)),
    }
}

/// The insertion place is within the list.
proof fn lemma_sorted_pos_bounds(ms: Seq<WorkModeView>, name: Seq<char>)
    ensures
        0 <= sorted_pos(ms, name) <= ms.len(),
    decreases ms.len(),
{
    if ms.len() > 0 {
        lemma_sorted_pos_bounds(ms.drop_last(), name);
    }
}

/// The insertion place found by scanning from the end.
proof fn lemma_sorted_pos_at(ms: Seq<WorkModeView>, name: Seq<char>, p: int)
    requires
        0 <= p <= ms.len(),
        forall|j: int| p <= j < ms.len() ==> seq_lt(name, #[trigger] ms[j].name),
        p == 0 || !seq_lt(name, ms[p - 1].name),
    ensures
        sorted_pos(ms, name) == p,
    decreases ms.len(),
{
    if ms.len() > 0 && p < ms.len() {
        assert(seq_lt(name, ms[ms.len() - 1].name));
        let d = ms.drop_last();
        assert forall|j: int| p <= j < d.len() implies seq_lt(name, #[trigger] d[j].name) by {
            assert(d[j] == ms[j]);
        }
        if p > 0 {
            assert(d[p - 1] == ms[p - 1]);
        }
        lemma_sorted_pos_at(d, name, p);
    }
}

/// Inserting a new name where it goes keeps the names in order.
proof fn lemma_insert_sorted_name(ms: Seq<WorkModeView>, p: int, m: WorkModeView)
    requires
        names_sorted(ms),
        0 <= p <= ms.len(),
        forall|j: int| p <= j < ms.len() ==> seq_lt(m.name, #[trigger] ms[j].name),
        p == 0 || seq_lt(ms[p - 1].name, m.name),
    ensures
        names_sorted(ms.insert(p, m)),
{
    let r = ms.insert(p, m);
    assert forall|a: int, b: int| 0 <= a < b < r.len() implies seq_lt(#[trigger] r[a].name, #[trigger] r[b].name) by {
        if b < p {
            assert(r[a] == ms[a] && r[b] == ms[b]);
        } else if b == p {
            assert(r[a] == ms[a]);
            if a < p - 1 {
                lemma_seq_lt_transitive(ms[a].name, ms[p - 1].name, m.name);
            }
        } else if a < p {
            assert(r[a] == ms[a] && r[b] == ms[b - 1]);
        } else if a == p {
            assert(r[b] == ms[b - 1]);
        } else {
            assert(r[a] == ms[a - 1] && r[b] == ms[b - 1]);
        }
    }
}

/// After a mode is added, looking up its name gives the new mode, and the
/// names stay distinct.
pub proof fn lemma_add_then_lookup(ms: Seq<WorkModeView>, name: Seq<char>, value: OptionValueView)
    requires
        distinct_names(ms),
    ensures
        name_index(spec_add(ms, name, value), name) matches Some(i) && spec_add(ms, name, value)[i] == fresh_mode(name, value),
        distinct_names(spec_add(ms, name, value)),
{
    let r = spec_add(ms, name, value);
    match name_index(ms, name) {
        Some(i) => {
            assert(has_name_at(ms, name, first_name_index(ms, name)));
            assert(has_name_at(r, name, i));
            let w = first_name_index(r, name);
            assert(w == i) by {
                if w != i {
                    assert(has_name_at(r, name, w));
                    assert(r[w] == ms[w]);
                }
            }
            assert forall|a: int, b: int| 0 <= a < r.len() && 0 <= b < r.len() && a != b implies r[a].name != r[b].name by {
                if a == i {
                    assert(r[b] == ms[b]);
                } else if b == i {
                    assert(r[a] == ms[a]);
                } else {
                    assert(r[a] == ms[a] && r[b] == ms[b]);
                }
            }
        },
        None => {
            lemma_sorted_pos_bounds(ms, name);
            lemma_insert_new_name(ms, name, value, sorted_pos(ms, name));
        },
    }
}

/// Inserting a mode under a name that is not there yet: the name is found
/// where it was put, and the names stay distinct.
proof fn lemma_insert_new_name(ms: Seq<WorkModeView>, name: Seq<char>, value: OptionValueView, i: int)
    requires
        distinct_names(ms),
        name_index(ms, name) is None,
        0 <= i <= ms.len(),
    ensures
        name_index(ms.insert(i, fresh_mode(name, value)), name) == Some(i),
        distinct_names(ms.insert(i, fresh_mode(name, value))),
{
    let r = ms.insert(i, fresh_mode(name, value));
    assert(has_name_at(r, name, i));
    let w = first_name_index(r, name);
    assert(w == i) by {
        if w < i {
            assert(r[w] == ms[w]);
            assert(has_name_at(ms, name, w));
        }
    }
    assert forall|a: int, b: int| 0 <= a < r.len() && 0 <= b < r.len() && a != b implies r[a].name != r[b].name by {
        if a == i {
            if b < i {
                assert(!has_name_at(ms, name, b));
            } else {
                assert(!has_name_at(ms, name, b - 1));
            }
        } else if b == i {
            if a < i {
                assert(!has_name_at(ms, name, a));
            } else {
                assert(!has_name_at(ms, name, a - 1));
            }
        } else {
            let x = if a < i { a } else { a - 1 };
            let y = if b < i { b } else { b - 1 };
            assert(r[a] == ms[x] && r[b] == ms[y]);
        }
    }
}

/// The text of an option value: an integer in decimal, else its JSON text.
pub open spec fn option_value_text(v: OptionValueView) -> Seq<char> {
    match v {
        OptionValueView::Integer(i) => spec_signed_decimal(i as int),
        OptionValueView::Other(t) => t,
    }
}

/// The label of a preset: "Activate <mode> Preset <name>", with the
/// value's text when the preset has no name.
pub open spec fn preset_label(mode_name: Seq<char>, name: Option<Seq<char>>, value: OptionValueView) -> Seq<char> {
    "Activate "@ + mode_name + " Preset "@ + match name {
        Some(n) => n,
        None => option_value_text(value),
    }
}

/// The preset of a mode for one mode choice.
pub open spec fn preset_of(mode_name: Seq<char>, o: ModeOption) -> WorkModeValueView {
    WorkModeValueView {
        value: o.value@,
        name: opt_view(o.name),
        computed_label: preset_label(mode_name, opt_view(o.name), o.value@),
    }
}

/// The presets of a mode for a list of mode choices.
pub open spec fn presets(mode_name: Seq<char>, list: Seq<ModeOption>) -> Seq<WorkModeValueView> {
    list.map_values(|o: ModeOption| preset_of(mode_name, o))
}

/// A mode with the presets of an option's mode choices appended.
pub open spec fn spec_add_values(m: WorkModeView, opt: EnumOption) -> WorkModeView {
    match opt.mode_options {
        Some(list) => WorkModeView { values: m.values + presets(m.name, list@), ..m },
        None => m,
    }
}

/// The text of an option value.
fn value_text(v: &OptionValue) -> (r: Vec<char>)
    ensures
        r@ == option_value_text(v@),
{
    match v {
        OptionValue::Integer(i) => signed_decimal_chars(*i),
        OptionValue::Other(t) => chars_of(t.as_str()),
    }
}

/// A copy of an optional string.
fn copy_opt(o: &Option<String>) -> (r: Option<String>)
    ensures
        opt_view(r) == opt_view(*o),
{
    match o {
        Some(s) => Some(owned(s.as_str())),
        None => None,
    }
}

impl WorkMode {
    /// Appends a preset for each mode choice of the option.
    pub fn add_values(&mut self, opt: &EnumOption)
        ensures
            final(self)@ == spec_add_values(old(self)@, *opt),
    {
        match &opt.mode_options {
            None => {},
            Some(list) => {
                let ghost start = self@;
                let mut i: usize = 0;
                while i < list.len()
                    invariant
                        i <= list.len(),
                        opt.mode_options matches Some(l) && l@ == list@,
                        self@ == (WorkModeView { values: start.values + presets(start.name, list@.take(i as int)), ..start }),
                    decreases list.len() - i,
                {
                    let o = &list[i];
                    let mut label = chars_of("Activate ");
                    append_str(&mut label, self.name.as_str());
                    append_str(&mut label, " Preset ");
                    match &o.name {
                        Some(n) => append_str(&mut label, n.as_str()),
                        None => {
                            let t = value_text(&o.value);
                            append_chars(&mut label, &t);
                        },
                    }
                    let ghost before = values_view(self.values@);
                    let v = WorkModeValue { value: o.value.duplicate(), name: copy_opt(&o.name), computed_label: string_of(&label) };
                    assert(v@ == preset_of(start.name, list@[i as int]));
                    self.values.push(v);
                    assert(values_view(self.values@) =~= before.push(preset_of(start.name, list@[i as int])));
                    i = i + 1;
                    assert(presets(start.name, list@.take(i as int)) =~= presets(start.name, list@.take(i - 1)).push(
                        preset_of(start.name, list@[i - 1]),
                    ));
                }
                assert(list@.take(list.len() as int) =~= list@);
            },
        }
    }
}

/// The modes of a "workMode" enumeration: each option added in turn.
pub open spec fn spec_modes_from(options: Seq<EnumOption>) -> Seq<WorkModeView>
    decreases options.len(),
{
    if options.len() == 0 {
        Seq::empty()
    } else {
        spec_add(spec_modes_from(options.drop_last()), options.last().name@, options.last().value@)
    }
}

/// The presets of a "modeValue" enumeration added to the modes they name.
pub open spec fn spec_apply_values(ms: Seq<WorkModeView>, options: Seq<EnumOption>) -> Seq<WorkModeView>
    decreases options.len(),
{
    if options.len() == 0 {
        ms
    } else {
        let prev = spec_apply_values(ms, options.drop_last());
        let o = options.last();
        match name_index(prev, o.name@) {
            Some(i) => prev.update(i, spec_add_values(prev[i], o)),
            None => prev,
        }
    }
}

/// Why the work modes of a device cannot be read.
#[derive(Clone, Copy, Debug, PartialEq, Eq, Structural)]
pub enum WorkModeError {
    /// The Platform API information of the device is unknown.
    NoPlatformState,
    /// The device has no "workMode" capability.
    NoWorkModeCapability,
    /// The capability has no "workMode" field.
    NoWorkModeField,
}

/// The work modes read from a "workMode" capability: the modes of its
/// "workMode" field, with the presets of its "modeValue" field.
pub open spec fn spec_with_capability(cap: DeviceCapability) -> Option<Seq<WorkModeView>> {
    match spec_struct_field(cap.parameters, "workMode"@) {
        None => None,
        Some(wm) => {
            let base = match wm.field_type {
                DeviceParameters::Enum { options } => spec_modes_from(options@),
                _ => Seq::empty(),
            };
            Some(match spec_struct_field(cap.parameters, "modeValue"@) {
                Some(mv) => match mv.field_type {
                    DeviceParameters::Enum { options } => spec_apply_values(base, options@),
                    _ => base,
                },
                None => base,
            })
        },
    }
}

/// Updating a mode in place keeps the names distinct when its name is kept.
proof fn lemma_update_keeps_names(ms: Seq<WorkModeView>, i: int, m: WorkModeView)
    requires
        distinct_names(ms),
        0 <= i < ms.len(),
        m.name == ms[i].name,
    ensures
        distinct_names(ms.update(i, m)),
        names_sorted(ms) ==> names_sorted(ms.update(i, m)),
        forall|n: Seq<char>| name_index(ms.update(i, m), n) == name_index(ms, n),
{
    let u = ms.update(i, m);
    assert forall|a: int, b: int| 0 <= a < u.len() && 0 <= b < u.len() implies #[trigger] u[a].name == ms[a].name
        && #[trigger] u[b].name == ms[b].name by {
        if a != i {
            assert(u[a] == ms[a]);
        }
        if b != i {
            assert(u[b] == ms[b]);
        }
    }
    assert forall|n: Seq<char>| name_index(u, n) == name_index(ms, n) by {
        assert forall|k: int| has_name_at(u, n, k) == has_name_at(ms, n, k) by {
            if k == i {
            } else if 0 <= k < ms.len() {
                assert(u[k] == ms[k]);
            }
        }
        if exists|k: int| has_name_at(ms, n, k) {
            let a = first_name_index(u, n);
            let b = first_name_index(ms, n);
            assert(has_name_at(ms, n, b));
            assert(has_name_at(u, n, b));
        }
    }
}

impl ParsedWorkMode {
    /// No modes.
    pub fn new() -> (r: Self)
        ensures
            r@ == Seq::<WorkModeView>::empty(),
            r.wf(),
    {
        let r = ParsedWorkMode { modes: Vec::new() };
        assert(r@ =~= Seq::<WorkModeView>::empty());
        r
    }

    /// Adds a mode, replacing a mode of the same name.
    pub fn add(&mut self, name: &str, value: OptionValue)
        requires
            old(self).wf(),
        ensures
            final(self)@ == spec_add(old(self)@, name@, value@),
            final(self).wf(),
    {
        let ghost before = self@;
        let m = WorkMode { name: owned(name), value, label: String::new(), values: Vec::new() };
        assert(m@.label =~= Seq::<char>::empty());
        assert(values_view(m.values@) =~= Seq::<WorkModeValueView>::empty());
        assert(m@ == fresh_mode(name@, m.value@));
        match find_name(&self.modes, name) {
            Some(i) => {
                self.modes.set(i, m);
                assert(self@ =~= before.update(i as int, fresh_mode(name@, m.value@)));
                proof {
                    lemma_update_keeps_names(before, i as int, fresh_mode(name@, m.value@));
                }
            },
            None => {
                let key = chars_of(name);
                let mut p: usize = self.modes.len();
                while p > 0 && compare_chars(&key, &chars_of(self.modes[p - 1].name.as_str())) == SeqOrder::Less
                    invariant
                        p <= self.modes.len(),
                        self@ == before,
                        key@ == name@,
                        forall|j: int| p <= j < before.len() ==> seq_lt(name@, #[trigger] before[j].name),
                    decreases p,
                {
                    assert(before[p - 1] == self.modes@[p - 1]@);
                    p = p - 1;
                }
                proof {
                    if p > 0 {
                        assert(before[p - 1] == self.modes@[p - 1]@);
                        assert(!has_name_at(before, name@, p - 1));
                        lemma_seq_lt_total(before[p - 1].name, name@);
                    }
                    lemma_sorted_pos_at(before, name@, p as int);
                    lemma_insert_sorted_name(before, p as int, fresh_mode(name@, m.value@));
                    lemma_add_then_lookup(before, name@, m.value@);
                }
                self.modes.insert(p, m);
                assert(self@ =~= before.insert(p as int, fresh_mode(name@, m.value@)));
            },
        }
    }

    /// Appends presets to the mode with the given name, when there is one.
    fn add_values_to(&mut self, opt: &EnumOption)
        requires
            old(self).wf(),
        ensures
            final(self).wf(),
            final(self)@ == match name_index(old(self)@, opt.name@) {
                Some(i) => old(self)@.update(i, spec_add_values(old(self)@[i], *opt)),
                None => old(self)@,
            },
    {
        let ghost before = self@;
        match find_name(&self.modes, opt.name.as_str()) {
            Some(i) => {
                let mut m = self.modes.remove(i);
                let ghost mid = self.modes@;
                assert(m@ == before[i as int]);
                m.add_values(opt);
                self.modes.insert(i, m);
                assert(self@ =~= before.update(i as int, spec_add_values(before[i as int], *opt))) by {
                    assert forall|k: int| 0 <= k < self@.len() implies #[trigger] self@[k] == before.update(i as int, spec_add_values(before[i as int], *opt))[k] by {
                        if k < i {
                            assert(self.modes@[k] == mid[k]);
                        } else if k > i {
                            assert(self.modes@[k] == mid[k - 1]);
                        }
                    }
                }
                proof {
                    lemma_update_keeps_names(before, i as int, spec_add_values(before[i as int], *opt));
                }
            },
            None => {},
        }
    }

    /// Adds each option as a mode, in order.
    fn add_all(&mut self, options: &Vec<EnumOption>)
        requires
            old(self)@ == Seq::<WorkModeView>::empty(),
            old(self).wf(),
        ensures
            final(self).wf(),
            final(self)@ == spec_modes_from(options@),
    {
        let mut i: usize = 0;
        assert(options@.take(0) =~= Seq::<EnumOption>::empty());
        while i < options.len()
            invariant
                i <= options.len(),
                self.wf(),
                self@ == spec_modes_from(options@.take(i as int)),
            decreases options.len() - i,
        {
            assert(options@.take(i + 1).drop_last() =~= options@.take(i as int));
            self.add(options[i].name.as_str(), options[i].value.duplicate());
            i = i + 1;
        }
        assert(options@.take(options.len() as int) =~= options@);
    }

    /// Adds the presets of each option to the mode it names, in order.
    fn apply_all(&mut self, options: &Vec<EnumOption>)
        requires
            old(self).wf(),
        ensures
            final(self).wf(),
            final(self)@ == spec_apply_values(old(self)@, options@),
    {
        let ghost base = self@;
        let mut i: usize = 0;
        assert(options@.take(0) =~= Seq::<EnumOption>::empty());
        while i < options.len()
            invariant
                i <= options.len(),
                self.wf(),
                self@ == spec_apply_values(base, options@.take(i as int)),
            decreases options.len() - i,
        {
            assert(options@.take(i + 1).drop_last() =~= options@.take(i as int));
            self.add_values_to(&options[i]);
            i = i + 1;
        }
        assert(options@.take(options.len() as int) =~= options@);
    }

    /// The work modes of a "workMode" capability.
    pub fn with_capability(cap: &DeviceCapability) -> (r: Result<ParsedWorkMode, WorkModeError>)
        ensures
            match spec_with_capability(*cap) {
                Some(ms) => r matches Ok(p) && p@ == ms && p.wf(),
                None => r == Err::<ParsedWorkMode, WorkModeError>(WorkModeError::NoWorkModeField),
            },
    {
        let wm = match cap.struct_field_by_name("workMode") {
            Some(f) => f,
            None => return Err(WorkModeError::NoWorkModeField),
        };
        let mut parsed = ParsedWorkMode::new();
        match &wm.field_type {
            DeviceParameters::Enum { options } => parsed.add_all(options),
            _ => {},
        }
        assert(parsed@ == match wm.field_type {
            DeviceParameters::Enum { options } => spec_modes_from(options@),
            _ => Seq::<WorkModeView>::empty(),
        });
        match cap.struct_field_by_name("modeValue") {
            Some(mv) => match &mv.field_type {
                DeviceParameters::Enum { options } => parsed.apply_all(options),
                _ => {},
            },
            None => {},
        }
        Ok(parsed)
    }

    /// The work modes of a device from its Platform API information, with
    /// labels adjusted for its SKU.
    pub fn with_device(sku: &str, info: &Option<HttpDeviceInfo>) -> (r: Result<ParsedWorkMode, WorkModeError>)
        ensures
            match *info {
                None => r == Err::<ParsedWorkMode, WorkModeError>(WorkModeError::NoPlatformState),
                Some(info) => match first_instance(info.capabilities@, "workMode"@) {
                    None => r == Err::<ParsedWorkMode, WorkModeError>(WorkModeError::NoWorkModeCapability),
                    Some(i) => match spec_with_capability(info.capabilities@[i]) {
                        None => r == Err::<ParsedWorkMode, WorkModeError>(WorkModeError::NoWorkModeField),
                        Some(ms) => r matches Ok(p) && p@ == spec_adjust(ms, sku@) && p.wf(),
                    },
                },
            },
    {
        let info = match info {
            Some(i) => i,
            None => return Err(WorkModeError::NoPlatformState),
        };
        let cap = match info.capability_by_instance("workMode") {
            Some(c) => c,
            None => return Err(WorkModeError::NoWorkModeCapability),
        };
        let mut parsed = match ParsedWorkMode::with_capability(cap) {
            Ok(p) => p,
            Err(e) => return Err(e),
        };
        parsed.adjust_for_device(sku);
        Ok(parsed)
    }
}

// ---------------------------------------------------------------------------
// Labels for particular devices
// ---------------------------------------------------------------------------

/// The mode with the given name, if any, relabelled.
pub open spec fn set_label(ms: Seq<WorkModeView>, name: Seq<char>, label: Seq<char>) -> Seq<WorkModeView> {
    match name_index(ms, name) {
        Some(i) => ms.update(i, WorkModeView { label: label, ..ms[i] }),
        None => ms,
    }
}

/// Labels for a SKU: the H7160 and H7143 call their "Manual" mode "Manual:
/// Mist Level"; the H7131 calls its "gearMode" "Heat"; other devices label
/// each mode with its name.
pub open spec fn spec_adjust(ms: Seq<WorkModeView>, sku: Seq<char>) -> Seq<WorkModeView> {
    if sku == "H7160"@ || sku == "H7143"@ {
        set_label(ms, "Manual"@, "Manual: Mist Level"@)
    } else if sku == "H7131"@ {
        set_label(ms, "gearMode"@, "Heat"@)
    } else {
        ms.map_values(|m: WorkModeView| WorkModeView { label: m.name, ..m })
    }
}

impl ParsedWorkMode {
    /// Relabels the mode with the given name, if any.
    fn relabel(&mut self, name: &str, label: &str)
        requires
            old(self).wf(),
        ensures
            final(self).wf(),
            final(self)@ == set_label(old(self)@, name@, label@),
    {
        let ghost before = self@;
        match find_name(&self.modes, name) {
            Some(i) => {
                let mut m = self.modes.remove(i);
                let ghost mid = self.modes@;
                m.label = owned(label);
                self.modes.insert(i, m);
                let ghost nm = WorkModeView { label: label@, ..before[i as int] };
                assert(self@ =~= before.update(i as int, nm)) by {
                    assert forall|k: int| 0 <= k < self@.len() implies #[trigger] self@[k] == before.update(i as int, nm)[k] by {
                        if k < i {
                            assert(self.modes@[k] == mid[k]);
                        } else if k > i {
                            assert(self.modes@[k] == mid[k - 1]);
                        }
                    }
                }
                proof {
                    lemma_update_keeps_names(before, i as int, nm);
                }
            },
            None => {},
        }
    }

    /// Adjusts the labels of the modes for a SKU.
    pub fn adjust_for_device(&mut self, sku: &str)
        requires
            old(self).wf(),
        ensures
            final(self).wf(),
            final(self)@ == spec_adjust(old(self)@, sku@),
    {
        if str_eq(sku, "H7160") || str_eq(sku, "H7143") {
            self.relabel("Manual", "Manual: Mist Level");
        } else if str_eq(sku, "H7131") {
            self.relabel("gearMode", "Heat");
        } else {
            let ghost before = self@;
            let mut rest: Vec<WorkMode> = Vec::new();
            std::mem::swap(&mut rest, &mut self.modes);
            let total: usize = rest.len();
            assert(modes_view(rest@) == before);
            assert(self@ =~= Seq::<WorkModeView>::empty());
            let mut k: usize = 0;
            while rest.len() > 0
                invariant
                    k + rest.len() == total,
                    total == before.len(),
                    modes_view(rest@) == before.skip(k as int),
                    self@ == named_labels(before.take(k as int)),
                decreases rest.len(),
            {
                let ghost r0 = modes_view(rest@);
                assert(r0[0] == rest@[0]@);
                assert(r0[0] == before[k as int]);
                let mut m = rest.remove(0);
                assert(modes_view(rest@) =~= r0.drop_first());
                m.label = owned(m.name.as_str());
                let ghost done = self@;
                self.modes.push(m);
                assert(self@ =~= done.push(WorkModeView { label: before[k as int].name, ..before[k as int] }));
                assert(before.take(k + 1).drop_last() =~= before.take(k as int));
                k = k + 1;
                assert(before.skip(k as int) =~= r0.drop_first());
            }
            assert(before.take(k as int) =~= before);
            proof {
                lemma_named_labels(before);
            }
            assert(self@ =~= spec_adjust(before, sku@));
            assert forall|a: int, b: int| 0 <= a < self@.len() && 0 <= b < self@.len() && a != b
                implies self@[a].name != self@[b].name by {
                assert(self@[a].name == before[a].name && self@[b].name == before[b].name);
            }
            assert forall|a: int, b: int| 0 <= a < b < self@.len()
                implies seq_lt(#[trigger] self@[a].name, #[trigger] self@[b].name) by {
                assert(self@[a].name == before[a].name && self@[b].name == before[b].name);
            }
        }
    }
}

/// Each mode labelled with its name.
pub open spec fn named_labels(ms: Seq<WorkModeView>) -> Seq<WorkModeView>
    decreases ms.len(),
{
    if ms.len() == 0 {
        ms
    } else {
        named_labels(ms.drop_last()).push(WorkModeView { label: ms.last().name, ..ms.last() })
    }
}

/// Labelling each mode with its name, element by element.
proof fn lemma_named_labels(ms: Seq<WorkModeView>)
    ensures
        named_labels(ms) == ms.map_values(|m: WorkModeView| WorkModeView { label: m.name, ..m }),
    decreases ms.len(),
{
    if ms.len() > 0 {
        lemma_named_labels(ms.drop_last());
        assert(ms.map_values(|m: WorkModeView| WorkModeView { label: m.name, ..m }) =~= ms.drop_last().map_values(
            |m: WorkModeView| WorkModeView { label: m.name, ..m },
        ).push(WorkModeView { label: ms.last().name, ..ms.last() }));
    } else {
        assert(ms.map_values(|m: WorkModeView| WorkModeView { label: m.name, ..m }) =~= ms);
    }
}

// ---------------------------------------------------------------------------
// Mode names in order
// ---------------------------------------------------------------------------

/// Inserts `x` after every element of `s` that does not come after it.
pub open spec fn name_insert(s: Seq<Seq<char>>, x: Seq<char>) -> Seq<Seq<char>>
    decreases s.len(),
{
    if s.len() == 0 {
        seq![x]
    } else if !seq_lt(x, s.last()) {
        s.push(x)
    } else {
        name_insert(s.drop_last(), x).push(s.last())
    }
}

/// `s` in order of code points.
pub open spec fn name_sort(s: Seq<Seq<char>>) -> Seq<Seq<char>>
    decreases s.len(),
{
    if s.len() == 0 {
        s
    } else {
        name_insert(name_sort(s.drop_last()), s.last())
    }
}

/// The names of the modes.
pub open spec fn mode_names(ms: Seq<WorkModeView>) -> Seq<Seq<char>> {
    ms.map_values(|m: WorkModeView| m.name)
}

/// Inserting at the place found by scanning from the end.
proof fn lemma_name_insert_at(s: Seq<Seq<char>>, x: Seq<char>, p: int)
    requires
        0 <= p <= s.len(),
        forall|j: int| p <= j < s.len() ==> seq_lt(x, #[trigger] s[j]),
        p == 0 || !seq_lt(x, s[p - 1]),
    ensures
        name_insert(s, x) == s.take(p).push(x) + s.skip(p),
    decreases s.len(),
{
    if s.len() == 0 {
        assert(s.take(p).push(x) + s.skip(p) =~= seq![x]);
    } else if p == s.len() {
        assert(s.take(p).push(x) + s.skip(p) =~= s.push(x));
    } else {
        assert(seq_lt(x, s[s.len() - 1]));
        let d = s.drop_last();
        assert forall|j: int| p <= j < d.len() implies seq_lt(x, #[trigger] d[j]) by {
            assert(d[j] == s[j]);
        }
        lemma_name_insert_at(d, x, p);
        assert(d.take(p).push(x) + d.skip(p) + seq![s.last()] =~= s.take(p).push(x) + s.skip(p));
    }
}

/// `s` never goes down in code point order.
pub open spec fn names_in_order(s: Seq<Seq<char>>) -> bool {
    forall|i: int, j: int| 0 <= i < j < s.len() ==> !seq_lt(#[trigger] s[j], #[trigger] s[i])
}

/// Not going down, chained.
proof fn lemma_not_lt_trans(a: Seq<char>, b: Seq<char>, c: Seq<char>)
    requires
        !seq_lt(b, a),
        !seq_lt(c, b),
    ensures
        !seq_lt(c, a),
{
    lemma_seq_lt_total(a, b);
    lemma_seq_lt_total(b, c);
    lemma_seq_lt_total(a, c);
    if seq_lt(c, a) {
        if a == b {
        } else if b == c {
        } else {
            lemma_seq_lt_transitive(a, b, c);
        }
    }
}

/// Every element of an insertion is `x` or an element of `s`.
proof fn lemma_name_insert_members(s: Seq<Seq<char>>, x: Seq<char>)
    ensures
        name_insert(s, x).len() == s.len() + 1,
        forall|i: int| 0 <= i < name_insert(s, x).len() ==>
            (#[trigger] name_insert(s, x)[i] == x || exists|k: int| 0 <= k < s.len() && s[k] == name_insert(s, x)[i]),
    decreases s.len(),
{
    if s.len() == 0 {
    } else if !seq_lt(x, s.last()) {
        let r = s.push(x);
        assert forall|i: int| 0 <= i < r.len() implies (#[trigger] r[i] == x || exists|k: int| 0 <= k < s.len() && s[k] == r[i]) by {
            if i < s.len() {
                assert(s[i] == r[i]);
            }
        }
    } else {
        let d = s.drop_last();
        lemma_name_insert_members(d, x);
        let t = name_insert(d, x);
        let r = t.push(s.last());
        assert forall|i: int| 0 <= i < r.len() implies (#[trigger] r[i] == x || exists|k: int| 0 <= k < s.len() && s[k] == r[i]) by {
            if i == t.len() {
                assert(s[s.len() - 1] == r[i]);
            } else {
                assert(r[i] == t[i]);
                if t[i] != x {
                    let k = choose|k: int| 0 <= k < d.len() && d[k] == t[i];
                    assert(s[k] == d[k]);
                }
            }
        }
    }
}

/// Inserting into names in order keeps them in order.
proof fn lemma_name_insert_in_order(s: Seq<Seq<char>>, x: Seq<char>)
    requires
        names_in_order(s),
    ensures
        names_in_order(name_insert(s, x)),
        name_insert(s, x).len() == s.len() + 1,
    decreases s.len(),
{
    if s.len() == 0 {
    } else if !seq_lt(x, s.last()) {
        let r = s.push(x);
        assert forall|i: int, j: int| 0 <= i < j < r.len() implies !seq_lt(#[trigger] r[j], #[trigger] r[i]) by {
            if j == s.len() {
                if i < s.len() - 1 {
                    assert(!seq_lt(s[s.len() - 1], s[i]));
                } else {
                    lemma_seq_lt_irreflexive(s[i]);
                }
                lemma_not_lt_trans(s[i], s.last(), x);
            } else {
                assert(r[i] == s[i] && r[j] == s[j]);
            }
        }
    } else {
        let d = s.drop_last();
        assert(names_in_order(d)) by {
            assert forall|i: int, j: int| 0 <= i < j < d.len() implies !seq_lt(#[trigger] d[j], #[trigger] d[i]) by {
                assert(d[i] == s[i] && d[j] == s[j]);
            }
        }
        lemma_name_insert_in_order(d, x);
        lemma_name_insert_members(d, x);
        let t = name_insert(d, x);
        let r = t.push(s.last());
        assert forall|i: int, j: int| 0 <= i < j < r.len() implies !seq_lt(#[trigger] r[j], #[trigger] r[i]) by {
            if j == t.len() {
                let e = t[i];
                if e == x {
                    lemma_seq_lt_total(x, s.last());
                } else {
                    let k = choose|k: int| 0 <= k < d.len() && d[k] == e;
                    assert(s[k] == d[k]);
                    if k < s.len() - 1 {
                        assert(!seq_lt(s[s.len() - 1], s[k]));
                    }
                }
            } else {
                assert(r[i] == t[i] && r[j] == t[j]);
            }
        }
    }
}

/// Inserting a name adds it once to the names.
proof fn lemma_name_insert_multiset(s: Seq<Seq<char>>, x: Seq<char>)
    ensures
        name_insert(s, x).to_multiset() =~= s.to_multiset().insert(x),
    decreases s.len(),
{
    broadcast use vstd::seq_lib::group_to_multiset_ensures;
    if s.len() == 0 {
        assert(seq![x] =~= Seq::<Seq<char>>::empty().push(x));
    } else if !seq_lt(x, s.last()) {
    } else {
        let d = s.drop_last();
        lemma_name_insert_multiset(d, x);
        assert(s =~= d.push(s.last()));
    }
}

/// The names that `name_sort` gives come in code point order, and they are
/// the names it was given, each as often: so `get_mode_names` and
/// `get_mode_labels` list every name or label of the modes once per mode,
/// in order.
pub proof fn lemma_name_sort_in_order(s: Seq<Seq<char>>)
    ensures
        names_in_order(name_sort(s)),
        name_sort(s).len() == s.len(),
        name_sort(s).to_multiset() =~= s.to_multiset(),
    decreases s.len(),
{
    broadcast use vstd::seq_lib::group_to_multiset_ensures;
    if s.len() > 0 {
        lemma_name_sort_in_order(s.drop_last());
        lemma_name_insert_in_order(name_sort(s.drop_last()), s.last());
        lemma_name_insert_multiset(name_sort(s.drop_last()), s.last());
        assert(s =~= s.drop_last().push(s.last()));
    }
}

/// `texts` in order of code points, by insertion from the back.
fn sort_texts(texts: &Vec<String>) -> (r: Vec<String>)
    ensures
        strings_view(r@) == name_sort(strings_view(texts@)),
{
    let ghost names = strings_view(texts@);
    let mut sorted: Vec<String> = Vec::new();
    let mut keys: Vec<Vec<char>> = Vec::new();
    let mut i: usize = 0;
    while i < texts.len()
        invariant
            i <= texts.len(),
            names == strings_view(texts@),
            strings_view(sorted@) == name_sort(names.take(i as int)),
            keys@.len() == sorted@.len(),
            forall|k: int| 0 <= k < keys@.len() ==> (#[trigger] keys@[k])@ == sorted@[k]@,
        decreases texts.len() - i,
    {
        let x = owned(texts[i].as_str());
        let xk = chars_of(x.as_str());
        let ghost s = strings_view(sorted@);
        let mut p: usize = sorted.len();
        while p > 0 && compare_chars(&xk, &keys[p - 1]) == SeqOrder::Less
            invariant
                p <= sorted@.len(),
                keys@.len() == sorted@.len(),
                s == strings_view(sorted@),
                xk@ == x@,
                forall|k: int| 0 <= k < keys@.len() ==> (#[trigger] keys@[k])@ == sorted@[k]@,
                forall|j: int| p <= j < s.len() ==> seq_lt(x@, #[trigger] s[j]),
            decreases p,
        {
            p = p - 1;
        }
        proof {
            if p > 0 {
                assert(keys@[p - 1]@ == s[p - 1]);
            }
            lemma_name_insert_at(s, x@, p as int);
            assert(names.take(i + 1).drop_last() =~= names.take(i as int));
            assert(names.take(i + 1).last() == x@);
        }
        let ghost old_sorted = sorted@;
        let ghost old_keys = keys@;
        sorted.insert(p, x);
        keys.insert(p, xk);
        assert(strings_view(sorted@) =~= s.take(p as int).push(x@) + s.skip(p as int));
        assert forall|k: int| 0 <= k < keys@.len() implies (#[trigger] keys@[k])@ == sorted@[k]@ by {
            if k < p {
                assert(keys@[k] == old_keys[k] && sorted@[k] == old_sorted[k]);
            } else if k > p {
                assert(keys@[k] == old_keys[k - 1] && sorted@[k] == old_sorted[k - 1]);
            }
        }
        i = i + 1;
    }
    assert(names.take(texts.len() as int) =~= names);
    sorted
}

/// The labels of the modes, as `label()` gives them.
pub open spec fn mode_labels(ms: Seq<WorkModeView>) -> Seq<Seq<char>> {
    ms.map_values(|m: WorkModeView| spec_label(m))
}

/// Whether a mode has presets.
pub open spec fn has_values(m: WorkModeView) -> bool {
    m.values.len() > 0
}

impl ParsedWorkMode {
    /// The names of the modes, in order of code points.
    pub fn get_mode_names(&self) -> (r: Vec<String>)
        ensures
            strings_view(r@) == name_sort(mode_names(self@)),
    {
        let mut names: Vec<String> = Vec::new();
        let mut i: usize = 0;
        while i < self.modes.len()
            invariant
                i <= self.modes.len(),
                names@.len() == i,
                self@.len() == self.modes.len(),
                strings_view(names@) == mode_names(self@).take(i as int),
            decreases self.modes.len() - i,
        {
            let ghost before = names@;
            names.push(owned(self.modes[i].name.as_str()));
            assert(self@[i as int] == self.modes@[i as int]@);
            assert(names@ == before.push(names@[i as int]));
            assert(strings_view(names@) =~= mode_names(self@).take(i + 1));
            i = i + 1;
        }
        assert(mode_names(self@).take(self.modes.len() as int) =~= mode_names(self@));
        sort_texts(&names)
    }

    /// The labels of the modes, in order of code points.
    pub fn get_mode_labels(&self) -> (r: Vec<String>)
        ensures
            strings_view(r@) == name_sort(mode_labels(self@)),
    {
        let mut labels: Vec<String> = Vec::new();
        let mut i: usize = 0;
        while i < self.modes.len()
            invariant
                i <= self.modes.len(),
                labels@.len() == i,
                self@.len() == self.modes.len(),
                strings_view(labels@) == mode_labels(self@).take(i as int),
            decreases self.modes.len() - i,
        {
            let ghost before = labels@;
            labels.push(owned(self.modes[i].label()));
            assert(self@[i as int] == self.modes@[i as int]@);
            assert(labels@ == before.push(labels@[i as int]));
            assert(strings_view(labels@) =~= mode_labels(self@).take(i + 1));
            i = i + 1;
        }
        assert(mode_labels(self@).take(self.modes.len() as int) =~= mode_labels(self@));
        sort_texts(&labels)
    }

    /// The modes that have presets, in the order they were added.
    pub fn modes_with_values(&self) -> (r: Vec<&WorkMode>)
        ensures
            r@.map_values(|m: &WorkMode| m@) == self@.filter(|m: WorkModeView| has_values(m)),
    {
        let mut out: Vec<&WorkMode> = Vec::new();
        let mut i: usize = 0;
        while i < self.modes.len()
            invariant
                i <= self.modes.len(),
                self@.len() == self.modes.len(),
                out@.map_values(|m: &WorkMode| m@) == self@.take(i as int).filter(|m: WorkModeView| has_values(m)),
            decreases self.modes.len() - i,
        {
            let ghost before = self@.take(i as int);
            assert(self@.take(i + 1).drop_last() =~= before);
            proof {
                before.lemma_filter_push(self@[i as int], |m: WorkModeView| has_values(m));
            }
            assert(self@.take(i + 1) =~= before.push(self@[i as int]));
            let m = &self.modes[i];
            if m.values.len() > 0 {
                out.push(m);
            }
            assert(out@.map_values(|m: &WorkMode| m@) =~= self@.take(i + 1).filter(|m: WorkModeView| has_values(m)));
            i = i + 1;
        }
        assert(self@.take(self.modes.len() as int) =~= self@);
        out
    }
}

// ---------------------------------------------------------------------------
// Presets that form a range
// ---------------------------------------------------------------------------

/// Every preset has an integer value and no name.
pub open spec fn plain_integer_presets(vs: Seq<WorkModeValueView>) -> bool {
    forall|i: int| 0 <= i < vs.len() ==> (#[trigger] vs[i]).value is Integer && vs[i].name is None
}

/// The integer values of the presets.
pub open spec fn preset_ints(vs: Seq<WorkModeValueView>) -> Seq<i64> {
    vs.map_values(|v: WorkModeValueView| v.value->Integer_0)
}

/// The least element of a non-empty sequence.
pub open spec fn seq_min(s: Seq<i64>) -> int
    decreases s.len(),
{
    if s.len() <= 1 {
        s[0] as int
    } else {
        let m = seq_min(s.drop_last());
        if (s.last() as int) < m { s.last() as int } else { m }
    }
}

/// The greatest element of a non-empty sequence.
pub open spec fn seq_max(s: Seq<i64>) -> int
    decreases s.len(),
{
    if s.len() <= 1 {
        s[0] as int
    } else {
        let m = seq_max(s.drop_last());
        if (s.last() as int) > m { s.last() as int } else { m }
    }
}

/// No value occurs twice.
pub open spec fn all_distinct(s: Seq<i64>) -> bool {
    forall|a: int, b: int| 0 <= a < s.len() && 0 <= b < s.len() && a != b ==> s[a] != s[b]
}

/// The presets form a range of consecutive integers, each once.
pub open spec fn forms_range(vs: Seq<WorkModeValueView>) -> bool {
    &&& vs.len() > 0
    &&& plain_integer_presets(vs)
    &&& all_distinct(preset_ints(vs))
    &&& seq_max(preset_ints(vs)) - seq_min(preset_ints(vs)) + 1 == vs.len()
}

impl WorkMode {
    /// When the presets are unnamed integers that form a range of
    /// consecutive values, that range (the end excluded), which is shown as
    /// a slider rather than as buttons.
    pub fn contiguous_value_range(&self) -> (r: Option<(i64, i64)>)
        requires
            forms_range(self@.values) ==> seq_max(preset_ints(self@.values)) < i64::MAX,
        ensures
            forms_range(self@.values) ==> r == Some((
                seq_min(preset_ints(self@.values)) as i64,
                (seq_max(preset_ints(self@.values)) + 1) as i64,
            )),
            !forms_range(self@.values) ==> r is None,
    {
        let ghost vs = self@.values;
        let n = self.values.len();
        let mut ints: Vec<i64> = Vec::new();
        let mut i: usize = 0;
        while i < n
            invariant
                i <= n,
                n == self.values.len(),
                vs == self@.values,
                ints@ == preset_ints(vs).take(i as int),
                forall|k: int| 0 <= k < i ==> (#[trigger] vs[k]).value is Integer && vs[k].name is None,
            decreases n - i,
        {
            let v = &self.values[i];
            assert(vs[i as int] == v@);
            match v.value {
                OptionValue::Integer(x) => {
                    if v.name.is_some() {
                        return None;
                    }
                    ints.push(x);
                    assert(ints@ =~= preset_ints(vs).take(i + 1));
                },
                _ => return None,
            }
            i = i + 1;
        }
        assert(preset_ints(vs).take(n as int) =~= preset_ints(vs));
        if n == 0 {
            return None;
        }
        let ghost s = ints@;
        let mut lo: i64 = ints[0];
        let mut hi: i64 = ints[0];
        let mut j: usize = 1;
        assert(s.take(1).len() == 1);
        while j < n
            invariant
                1 <= j <= n,
                n == ints.len(),
                s == ints@,
                lo == seq_min(s.take(j as int)),
                hi == seq_max(s.take(j as int)),
            decreases n - j,
        {
            assert(s.take(j + 1).drop_last() =~= s.take(j as int));
            if ints[j] < lo {
                lo = ints[j];
            }
            if ints[j] > hi {
                hi = ints[j];
            }
            j = j + 1;
        }
        assert(s.take(n as int) =~= s);
        let mut a: usize = 0;
        while a < n
            invariant
                a <= n,
                n == ints.len(),
                s == ints@,
                vs == self@.values,
                s == preset_ints(vs),
                forall|x: int, y: int| 0 <= x < a && 0 <= y < n && x != y ==> s[x] != s[y],
            decreases n - a,
        {
            let mut b: usize = 0;
            while b < n
                invariant
                    a < n,
                    b <= n,
                    n == ints.len(),
                    s == ints@,
                    vs == self@.values,
                    s == preset_ints(vs),
                    forall|x: int, y: int| 0 <= x < a && 0 <= y < n && x != y ==> s[x] != s[y],
                    forall|y: int| 0 <= y < b && a != y ==> s[a as int] != s[y],
                decreases n - b,
            {
                if a != b && ints[a] == ints[b] {
                    return None;
                }
                b = b + 1;
            }
            a = a + 1;
        }
        if (hi as i128) - (lo as i128) + 1 != n as i128 {
            return None;
        }
        Some((lo, hi + 1))
    }
}

// ---------------------------------------------------------------------------
// Commands that select a work mode
// ---------------------------------------------------------------------------

/// Why a work mode command cannot be carried out.
#[derive(Clone, Copy, Debug, PartialEq, Eq, Structural)]
pub enum ModeCommandError {
    /// No mode has the name.
    ModeNotFound,
    /// The mode's value is not a number.
    NotANumber,
}

/// The number of the named mode, when its value is an integer.
pub open spec fn spec_mode_number(ms: Seq<WorkModeView>, name: Seq<char>) -> Result<i64, ModeCommandError> {
    match name_index(ms, name) {
        None => Err(ModeCommandError::ModeNotFound),
        Some(i) => match ms[i].value {
            OptionValueView::Integer(n) => Ok(n),
            _ => Err(ModeCommandError::NotANumber),
        },
    }
}

/// The value sent with a mode: its first preset's integer value, else 0.
pub open spec fn spec_first_preset_value(m: WorkModeView) -> i64 {
    if m.values.len() > 0 && m.values[0].value is Integer {
        m.values[0].value->Integer_0
    } else {
        0
    }
}

/// How a target humidity is set.
#[derive(Clone, Copy, Debug, PartialEq, Eq, Structural)]
pub enum TargetRoute {
    /// Control the "humidity" capability through the Platform API.
    Platform,
    /// Select the "Auto" work mode with the target as its parameter.
    WorkMode,
}

/// A target is set through the Platform API when the device is not read
/// through the IoT API and has a "humidity" capability; else through the
/// "Auto" work mode.
pub fn choose_target_route(use_iot: bool, has_humidity_capability: bool) -> (r: TargetRoute)
    ensures
        r == (if !use_iot && has_humidity_capability { TargetRoute::Platform } else { TargetRoute::WorkMode }),
{
    if !use_iot && has_humidity_capability {
        TargetRoute::Platform
    } else {
        TargetRoute::WorkMode
    }
}

impl ParsedWorkMode {
    /// The number of the named mode.
    pub fn mode_number(&self, name: &str) -> (r: Result<i64, ModeCommandError>)
        ensures
            r == spec_mode_number(self@, name@),
    {
        match self.mode_by_name(name) {
            None => Err(ModeCommandError::ModeNotFound),
            Some(m) => match m.value {
                OptionValue::Integer(n) => Ok(n),
                _ => Err(ModeCommandError::NotANumber),
            },
        }
    }

    /// The work mode and parameter that select the named mode: its number
    /// and its first preset's value (0 when it has none).
    pub fn work_mode_parameter(&self, name: &str) -> (r: Result<(i64, i64), ModeCommandError>)
        ensures
            match spec_mode_number(self@, name@) {
                Err(e) => r == Err::<(i64, i64), ModeCommandError>(e),
                Ok(n) => r == Ok::<(i64, i64), ModeCommandError>(
                    (n, spec_first_preset_value(self@[name_index(self@, name@)->Some_0])),
                ),
            },
    {
        match self.mode_by_name(name) {
            None => Err(ModeCommandError::ModeNotFound),
            Some(m) => match m.value {
                OptionValue::Integer(n) => {
                    let v = if m.values.len() > 0 {
                        match m.values[0].value {
                            OptionValue::Integer(x) => x,
                            _ => 0,
                        }
                    } else {
                        0
                    };
                    assert(m.values.len() > 0 ==> m@.values[0] == m.values@[0]@);
                    Ok((n, v))
                },
                _ => Err(ModeCommandError::NotANumber),
            },
        }
    }

    /// The work mode and parameter that set a target humidity: the "Auto"
    /// mode, with the target in percent offset by 128.
    pub fn humidity_target_parameter(&self, percent: u8) -> (r: Result<(i64, i64), ModeCommandError>)
        requires
            percent <= 127,
        ensures
            match spec_mode_number(self@, "Auto"@) {
                Err(e) => r == Err::<(i64, i64), ModeCommandError>(e),
                Ok(n) => r == Ok::<(i64, i64), ModeCommandError>((n, (percent + 128) as i64)),
            },
    {
        match self.mode_number("Auto") {
            Err(e) => Err(e),
            Ok(n) => {
                let t = crate::ble::TargetHumidity::from_percent(percent);
                Ok((n, t.into_inner() as i64))
            },
        }
    }
}

/// What setting a target humidity (or a fan speed) does.
#[derive(Clone, Copy, Debug, PartialEq, Eq, Structural)]
pub enum HumidityTargetAction {
    /// Send the percentage to the "humidity" capability.
    Capability(i64),
    /// Select this work mode with this parameter.
    WorkMode { work_mode: i64, value: i64 },
}

/// Why a target humidity cannot be set.
#[derive(Clone, Copy, Debug, PartialEq, Eq, Structural)]
pub enum HumidityTargetError {
    /// The device's work modes are not known.
    NoWorkModes,
    /// The "Auto" mode is missing or has no number.
    Mode(ModeCommandError),
    /// The percentage does not fit the parameter (0 to 127).
    OutOfRange,
}

/// The action for a target humidity of `percent`: through the "humidity"
/// capability when the device is not read through the IoT API and has one;
/// else the "Auto" work mode with the percentage offset by 128.
pub open spec fn spec_plan_humidity_target(
    use_iot: bool,
    has_humidity_capability: bool,
    modes: Option<Seq<WorkModeView>>,
    percent: i64,
) -> Result<HumidityTargetAction, HumidityTargetError> {
    if !use_iot && has_humidity_capability {
        Ok(HumidityTargetAction::Capability(percent))
    } else {
        match modes {
            None => Err(HumidityTargetError::NoWorkModes),
            Some(ms) => match spec_mode_number(ms, "Auto"@) {
                Err(e) => Err(HumidityTargetError::Mode(e)),
                Ok(n) => if 0 <= percent <= 127 {
                    Ok(HumidityTargetAction::WorkMode { work_mode: n, value: (percent + 128) as i64 })
                } else {
                    Err(HumidityTargetError::OutOfRange)
                },
            },
        }
    }
}

/// Decides how to set a target humidity (or a fan speed) of `percent`,
/// given whether the device is read through the IoT API, whether it has a
/// "humidity" capability, and its work modes when known.
pub fn plan_humidity_target(
    use_iot: bool,
    has_humidity_capability: bool,
    modes: Option<&ParsedWorkMode>,
    percent: i64,
) -> (r: Result<HumidityTargetAction, HumidityTargetError>)
    ensures
        r == spec_plan_humidity_target(
            use_iot,
            has_humidity_capability,
            match modes {
                Some(m) => Some(m@),
                None => None,
            },
            percent,
        ),
{
    match choose_target_route(use_iot, has_humidity_capability) {
        TargetRoute::Platform => Ok(HumidityTargetAction::Capability(percent)),
        TargetRoute::WorkMode => match modes {
            None => Err(HumidityTargetError::NoWorkModes),
            Some(m) => match m.mode_number("Auto") {
                Err(e) => Err(HumidityTargetError::Mode(e)),
                Ok(n) => if 0 <= percent && percent <= 127 {
                    let t = crate::ble::TargetHumidity::from_percent(percent as u8);
                    Ok(HumidityTargetAction::WorkMode { work_mode: n, value: t.into_inner() as i64 })
                } else {
                    Err(HumidityTargetError::OutOfRange)
                },
            },
        },
    }
}

} // verus!

//! Temperature units and scales, and the textual part of reading a
//! temperature: splitting "23.5 C" into its number and its scale.
//! Arithmetic on temperature values is floating point and lives outside
//! this library.

use vstd::prelude::*;
use crate::strings::{chars_of, string_of, trim_chars, spec_trim, is_numeric, spec_is_numeric, str_eq};

verus! {

/// The unit text of Celsius.
pub const UNIT_CELSIUS: &'static str = "°C";
/// The unit text of Fahrenheit.
pub const UNIT_FAHRENHEIT: &'static str = "°F";
/// The Home Assistant device class of temperature sensors.
pub const DEVICE_CLASS_TEMPERATURE: &'static str = "temperature";

/// The units in which a device reports a temperature.
#[derive(Clone, Copy, Debug, PartialEq, Eq, Structural)]
pub enum TemperatureUnits {
    Celsius,
    CelsiusTimes100,
    Fahrenheit,
    FahrenheitTimes100,
}

/// A temperature scale.
#[derive(Clone, Copy, Debug, PartialEq, Eq, Structural)]
pub enum TemperatureScale {
    Celsius,
    Fahrenheit,
}

/// The scale of a unit.
pub open spec fn spec_scale(u: TemperatureUnits) -> TemperatureScale {
    match u {
        TemperatureUnits::Celsius | TemperatureUnits::CelsiusTimes100 => TemperatureScale::Celsius,
        TemperatureUnits::Fahrenheit | TemperatureUnits::FahrenheitTimes100 => TemperatureScale::Fahrenheit,
    }
}

/// The factor by which a unit scales the degrees.
pub open spec fn spec_factor(u: TemperatureUnits) -> u32 {
    match u {
        TemperatureUnits::CelsiusTimes100 | TemperatureUnits::FahrenheitTimes100 => 100,
        TemperatureUnits::Celsius | TemperatureUnits::Fahrenheit => 1,
    }
}

/// The unit text of a scale.
pub open spec fn spec_scale_unit(s: TemperatureScale) -> Seq<char> {
    match s {
        TemperatureScale::Celsius => UNIT_CELSIUS@,
        TemperatureScale::Fahrenheit => UNIT_FAHRENHEIT@,
    }
}

impl TemperatureUnits {
    /// The factor by which this unit scales the degrees.
    pub fn factor(&self) -> (r: u32)
        ensures
            r == spec_factor(*self),
    {
        match self {
            TemperatureUnits::CelsiusTimes100 | TemperatureUnits::FahrenheitTimes100 => 100,
            TemperatureUnits::Celsius | TemperatureUnits::Fahrenheit => 1,
        }
    }

    /// The scale of this unit.
    pub fn scale(&self) -> (r: TemperatureScale)
        ensures
            r == spec_scale(*self),
    {
        match self {
            TemperatureUnits::Celsius | TemperatureUnits::CelsiusTimes100 => TemperatureScale::Celsius,
            TemperatureUnits::Fahrenheit | TemperatureUnits::FahrenheitTimes100 => TemperatureScale::Fahrenheit,
        }
    }

    /// The unit text, for units that are whole degrees.
    pub fn unit_of_measurement(&self) -> (r: Option<&'static str>)
        ensures
            spec_factor(*self) == 1 ==> (r matches Some(u) && u@ == spec_scale_unit(spec_scale(*self))),
            spec_factor(*self) != 1 ==> r is None,
    {
        if self.factor() == 1 {
            Some(self.scale().unit_of_measurement())
        } else {
            None
        }
    }

    /// The display text: the unit text, followed by `*100` for scaled units.
    pub fn to_display_string(&self) -> (r: String)
        ensures
            spec_factor(*self) == 1 ==> r@ == spec_scale_unit(spec_scale(*self)),
            spec_factor(*self) != 1 ==> r@ == spec_scale_unit(spec_scale(*self)) + "*100"@,
    {
        let unit = self.scale().unit_of_measurement();
        let mut v = chars_of(unit);
        if self.factor() != 1 {
            let suffix = chars_of("*100");
            let mut i: usize = 0;
            let ghost base = v@;
            while i < suffix.len()
                invariant
                    i <= suffix.len(),
                    suffix@ == "*100"@,
                    v@ == base + suffix@.take(i as int),
                decreases suffix.len() - i,
            {
                v.push(suffix[i]);
                i = i + 1;
                assert(v@ =~= base + suffix@.take(i as int));
            }
            assert(suffix@.take(suffix.len() as int) =~= suffix@);
        }
        string_of(&v)
    }
}

impl From<TemperatureScale> for TemperatureUnits {
    fn from(scale: TemperatureScale) -> (r: TemperatureUnits) {
        match scale {
            TemperatureScale::Celsius => TemperatureUnits::Celsius,
            TemperatureScale::Fahrenheit => TemperatureUnits::Fahrenheit,
        }
    }
}

impl vstd::std_specs::convert::FromSpecImpl<TemperatureScale> for TemperatureUnits {
    open spec fn obeys_from_spec() -> bool {
        true
    }

    open spec fn from_spec(scale: TemperatureScale) -> TemperatureUnits {
        match scale {
            TemperatureScale::Celsius => TemperatureUnits::Celsius,
            TemperatureScale::Fahrenheit => TemperatureUnits::Fahrenheit,
        }
    }
}

/// The texts that name Celsius.
pub open spec fn names_celsius(s: Seq<char>) -> bool {
    s == "c"@ || s == "C"@ || s == "°c"@ || s == "°C"@ || s == "Celsius"@ || s == "celsius"@
}

/// The texts that name Fahrenheit.
pub open spec fn names_fahrenheit(s: Seq<char>) -> bool {
    s == "f"@ || s == "F"@ || s == "°f"@ || s == "°F"@ || s == "Fahrenheit"@ || s == "fahrenheit"@
}

/// A text that names no temperature scale.
#[derive(Clone, Debug)]
pub struct UnknownTemperatureScale {
    /// The text
    pub text: String,
}

impl UnknownTemperatureScale {
    /// The message: "Unknown temperature scale " and the text.
    pub fn message(&self) -> (r: String)
        ensures
            r@ == "Unknown temperature scale "@ + self.text@,
    {
        let mut v = chars_of("Unknown temperature scale ");
        let t = chars_of(self.text.as_str());
        let ghost base = v@;
        let mut i: usize = 0;
        while i < t.len()
            invariant
                i <= t.len(),
                v@ == base + t@.take(i as int),
            decreases t.len() - i,
        {
            v.push(t[i]);
            i = i + 1;
            assert(v@ =~= base + t@.take(i as int));
        }
        assert(t@.take(t.len() as int) =~= t@);
        string_of(&v)
    }
}

impl TemperatureScale {
    /// The unit text of this scale.
    pub fn unit_of_measurement(&self) -> (r: &'static str)
        ensures
            r@ == spec_scale_unit(*self),
    {
        match self {
            TemperatureScale::Celsius => UNIT_CELSIUS,
            TemperatureScale::Fahrenheit => UNIT_FAHRENHEIT,
        }
    }

    /// Reads a scale from its name.
    pub fn parse(s: &str) -> (r: Result<TemperatureScale, UnknownTemperatureScale>)
        ensures
            match spec_parse_scale(s@) {
                Some(scale) => r == Ok::<TemperatureScale, UnknownTemperatureScale>(scale),
                None => r matches Err(e) && e.text@ == s@,
            },
            names_celsius(s@) ==> r matches Ok(TemperatureScale::Celsius),
            !names_celsius(s@) && names_fahrenheit(s@) ==> r matches Ok(TemperatureScale::Fahrenheit),
            !names_celsius(s@) && !names_fahrenheit(s@) ==> (r matches Err(e) && e.text@ == s@),
    {
        if str_eq(s, "c") || str_eq(s, "C") || str_eq(s, "°c") || str_eq(s, "°C") || str_eq(
            s,
            "Celsius",
        ) || str_eq(s, "celsius") {
            Ok(TemperatureScale::Celsius)
        } else if str_eq(s, "f") || str_eq(s, "F") || str_eq(s, "°f") || str_eq(s, "°F") || str_eq(
            s,
            "Fahrenheit",
        ) || str_eq(s, "fahrenheit") {
            Ok(TemperatureScale::Fahrenheit)
        } else {
            Err(UnknownTemperatureScale { text: crate::strings::owned(s) })
        }
    }
}

/// The scale a text names, when it names one.
pub open spec fn spec_parse_scale(s: Seq<char>) -> Option<TemperatureScale> {
    if names_celsius(s) {
        Some(TemperatureScale::Celsius)
    } else if names_fahrenheit(s) {
        Some(TemperatureScale::Fahrenheit)
    } else {
        None
    }
}

/// The unit text of a scale reads back as that scale: "°C" is Celsius and
/// "°F" is Fahrenheit.
pub proof fn lemma_scale_unit_parses_back(s: TemperatureScale)
    ensures
        spec_parse_scale(spec_scale_unit(s)) == Some(s),
        spec_scale_unit(s) == (match s {
            TemperatureScale::Celsius => "°C"@,
            TemperatureScale::Fahrenheit => "°F"@,
        }),
{
    reveal_strlit("°C");
    reveal_strlit("°F");
    reveal_strlit("c");
    reveal_strlit("C");
    reveal_strlit("°c");
    reveal_strlit("Celsius");
    reveal_strlit("celsius");
    assert(UNIT_CELSIUS@ == "°C"@);
    assert(UNIT_FAHRENHEIT@ == "°F"@);
    assert("°F"@[1] != "°C"@[1]);
    assert("°F"@[1] != "°c"@[1]);
    assert("°F"@.len() != "c"@.len());
    assert("°F"@.len() != "C"@.len());
    assert("°F"@.len() != "Celsius"@.len());
    assert("°F"@.len() != "celsius"@.len());
}

impl Default for TemperatureScale {
    fn default() -> (r: Self)
        ensures
            r == TemperatureScale::Celsius,
    {
        TemperatureScale::Celsius
    }
}

/// The length of the longest prefix of `t` made of numeric characters and
/// dots.
#[verifier::opaque]
pub open spec fn numeric_prefix_len(t: Seq<char>) -> int {
    if exists|i: int| 0 <= i < t.len() && !spec_is_numeric(t[i]) && t[i] != '.' {
        choose|i: int| 0 <= i < t.len() && !spec_is_numeric(t[i]) && t[i] != '.' && forall|j: int| 0 <= j < i ==> (spec_is_numeric(t[j]) || t[j] == '.')
    } else {
        t.len() as int
    }
}

/// The length of the longest prefix of `t` made of numeric characters and
/// dots.
fn numeric_prefix_end(t: &Vec<char>) -> (r: usize)
    ensures
        r == numeric_prefix_len(t@),
        r <= t.len(),
{
    reveal(numeric_prefix_len);
    let mut i: usize = 0;
    while i < t.len() && (is_numeric(t[i]) || t[i] == '.')
        invariant
            i <= t.len(),
            forall|j: int| 0 <= j < i ==> (spec_is_numeric(t@[j]) || t@[j] == '.'),
        decreases t.len() - i,
    {
        i = i + 1;
    }
    proof {
        if i < t.len() {
            let c = choose|k: int| 0 <= k < t@.len() && !spec_is_numeric(t@[k]) && t@[k] != '.' && forall|j: int| 0 <= j < k ==> (spec_is_numeric(t@[j]) || t@[j] == '.');
            assert(c == i as int) by {
                if c < i {
                } else if c > i {
                }
            }
        } else {
            assert(!exists|k: int| 0 <= k < t@.len() && !spec_is_numeric(t@[k]) && t@[k] != '.');
        }
    }
    i
}

/// Splits a trimmed text into its numeric prefix (numeric characters and
/// dots) and the trimmed rest, the way a temperature such as " 23 C " is
/// read.
pub fn split_numeric_prefix(input: &str) -> (r: (String, String))
    ensures
        r.0@ == spec_trim(input@).take(numeric_prefix_len(spec_trim(input@))),
        r.1@ == spec_trim(spec_trim(input@).skip(numeric_prefix_len(spec_trim(input@)))),
{
    let all = chars_of(input);
    let t = trim_chars(&all);
    let i = numeric_prefix_end(&t);
    let head = crate::strings::copy_range(&t, 0, i);
    let rest = crate::strings::copy_range(&t, i, t.len());
    assert(t@.subrange(0, i as int) =~= t@.take(i as int));
    assert(t@.subrange(i as int, t.len() as int) =~= t@.skip(i as int));
    let rest = trim_chars(&rest);
    (string_of(&head), string_of(&rest))
}

/// The scale that a temperature text names: the scale written after the
/// number, else the given default, else Celsius.
pub fn scale_for_suffix(
    suffix: &str,
    default_scale: Option<TemperatureScale>,
) -> (r: Result<TemperatureScale, UnknownTemperatureScale>)
    ensures
        suffix@.len() == 0 ==> r == Ok::<TemperatureScale, UnknownTemperatureScale>(
            match default_scale {
                Some(s) => s,
                None => TemperatureScale::Celsius,
            },
        ),
        suffix@.len() != 0 && names_celsius(suffix@) ==> r matches Ok(TemperatureScale::Celsius),
        suffix@.len() != 0 && !names_celsius(suffix@) && names_fahrenheit(suffix@) ==> r matches Ok(
            TemperatureScale::Fahrenheit,
        ),
        suffix@.len() != 0 && !names_celsius(suffix@) && !names_fahrenheit(suffix@) ==> (r matches Err(
            e,
        ) && e.text@ == suffix@),
{
    if suffix.unicode_len() == 0 {
        match default_scale {
            Some(s) => Ok(s),
            None => Ok(TemperatureScale::Celsius),
        }
    } else {
        TemperatureScale::parse(suffix)
    }
}

} // verus!

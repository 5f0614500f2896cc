//! Decisions of the bridge's service state: the order in which scenes are
//! listed, which channel controls a device, and the commands sent to a
//! humidifier.

use vstd::prelude::*;
use crate::strings::{
    chars_of, owned, str_eq, lower_chars, compare_chars, SeqOrder, seq_lt, spec_lower_seq,
    lemma_seq_lt_irreflexive, lemma_seq_lt_total, lemma_seq_lt_transitive,
};
use crate::quirks::strings_view;
use crate::device::{Device, has_name_suffix, spec_computed_name};
use crate::hass::{topic_safe_id, spec_topic_safe_id};
use crate::strings::eq_ignore_ascii_case;
use crate::lan_api::{DeviceColor, DeviceStatus};
use crate::ble::{GoveeBlePacket, HumidifierNightlightParams, HumidifierMode, PacketView,
    spec_packet_bytes, spec_base64_encode};

verus! {

// ---------------------------------------------------------------------------
// Scene lists
// ---------------------------------------------------------------------------

/// The key by which scenes are ordered: the name with ASCII letters in
/// lower case.
pub open spec fn scene_key(s: Seq<char>) -> Seq<char> {
    spec_lower_seq(s)
}

/// `a` is ordered before `b`.
pub open spec fn key_lt(a: Seq<char>, b: Seq<char>) -> bool {
    seq_lt(scene_key(a), scene_key(b))
}

/// Inserts `x` into `s` after every element whose key is not greater than
/// its own.
pub open spec fn sorted_insert(s: Seq<Seq<char>>, x: Seq<char>) -> Seq<Seq<char>>
    decreases s.len(),
{
    if s.len() == 0 {
        seq![x]
    } else if !key_lt(x, s.last()) {
        s.push(x)
    } else {
        sorted_insert(s.drop_last(), x).push(s.last())
    }
}

/// `s` in order of key; elements with equal keys keep their order.
pub open spec fn stable_sort(s: Seq<Seq<char>>) -> Seq<Seq<char>>
    decreases s.len(),
{
    if s.len() == 0 {
        s
    } else {
        sorted_insert(stable_sort(s.drop_last()), s.last())
    }
}

/// `s` with each run of equal consecutive elements reduced to one.
pub open spec fn dedup(s: Seq<Seq<char>>) -> Seq<Seq<char>>
    decreases s.len(),
{
    if s.len() <= 1 {
        s
    } else if s.last() == s[s.len() - 2] {
        dedup(s.drop_last())
    } else {
        dedup(s.drop_last()).push(s.last())
    }
}

/// The scene names sorted by key, without consecutive duplicates.
pub open spec fn spec_sort_and_dedup(s: Seq<Seq<char>>) -> Seq<Seq<char>> {
    dedup(stable_sort(s))
}

/// The keys never decrease along `s`.
pub open spec fn sorted_by_key(s: Seq<Seq<char>>) -> bool {
    forall|i: int, j: int| 0 <= i < j < s.len() ==> !key_lt(#[trigger] s[j], #[trigger] s[i])
}

/// No two consecutive elements of `s` are equal.
pub open spec fn no_adjacent_duplicates(s: Seq<Seq<char>>) -> bool {
    forall|i: int| 0 <= i < s.len() - 1 ==> #[trigger] s[i] != s[i + 1]
}

/// `x` is an element of `s`.
pub open spec fn is_member(s: Seq<Seq<char>>, x: Seq<char>) -> bool {
    exists|k: int| 0 <= k < s.len() && s[k] == x
}

/// Inserting at the place found by scanning from the end.
proof fn lemma_insert_at(s: Seq<Seq<char>>, x: Seq<char>, p: int)
    requires
        0 <= p <= s.len(),
        forall|j: int| p <= j < s.len() ==> key_lt(x, #[trigger] s[j]),
        p == 0 || !key_lt(x, s[p - 1]),
    ensures
        sorted_insert(s, x) == s.take(p).push(x) + s.skip(p),
    decreases s.len(),
{
    if s.len() == 0 {
        assert(s.take(p).push(x) + s.skip(p) =~= seq![x]);
    } else if p == s.len() {
        assert(s.take(p).push(x) + s.skip(p) =~= s.push(x));
    } else {
        assert(key_lt(x, s[s.len() - 1]));
        let d = s.drop_last();
        assert forall|j: int| p <= j < d.len() implies key_lt(x, #[trigger] d[j]) by {
            assert(d[j] == s[j]);
        }
        lemma_insert_at(d, x, p);
        assert(d.take(p).push(x) + d.skip(p) + seq![s.last()] =~= s.take(p).push(x) + s.skip(p));
    }
}

/// Sorts the scene names by their ASCII lower-case form, keeping the order
/// of names with the same form, and drops consecutive duplicates.
pub fn sort_and_dedup_scenes(scenes: Vec<String>) -> (r: Vec<String>)
    ensures
        strings_view(r@) == spec_sort_and_dedup(strings_view(scenes@)),
{
    let ghost input = strings_view(scenes@);
    let mut sorted: Vec<String> = Vec::new();
    let mut keys: Vec<Vec<char>> = Vec::new();
    let mut i: usize = 0;
    while i < scenes.len()
        invariant
            i <= scenes.len(),
            input == strings_view(scenes@),
            strings_view(sorted@) == stable_sort(input.take(i as int)),
            keys@.len() == sorted@.len(),
            forall|k: int| 0 <= k < keys@.len() ==> (#[trigger] keys@[k])@ == scene_key(sorted@[k]@),
        decreases scenes.len() - i,
    {
        let x = owned(scenes[i].as_str());
        let xc = chars_of(x.as_str());
        let xk = lower_chars(&xc);
        let ghost s = strings_view(sorted@);
        let mut p: usize = sorted.len();
        while p > 0 && compare_chars(&xk, &keys[p - 1]) == SeqOrder::Less
            invariant
                p <= sorted@.len(),
                keys@.len() == sorted@.len(),
                s == strings_view(sorted@),
                xk@ == scene_key(x@),
                forall|k: int| 0 <= k < keys@.len() ==> (#[trigger] keys@[k])@ == scene_key(sorted@[k]@),
                forall|j: int| p <= j < s.len() ==> key_lt(x@, #[trigger] s[j]),
            decreases p,
        {
            p = p - 1;
        }
        proof {
            if p > 0 {
                assert(keys@[p - 1]@ == scene_key(s[p - 1]));
            }
            lemma_insert_at(s, x@, p as int);
            assert(input.take(i + 1).drop_last() =~= input.take(i as int));
            assert(input.take(i + 1).last() == x@);
        }
        let ghost old_sorted = sorted@;
        let ghost old_keys = keys@;
        sorted.insert(p, x);
        keys.insert(p, xk);
        assert(strings_view(sorted@) =~= s.take(p as int).push(x@) + s.skip(p as int));
        assert forall|k: int| 0 <= k < keys@.len() implies (#[trigger] keys@[k])@ == scene_key(sorted@[k]@) by {
            if k < p {
                assert(keys@[k] == old_keys[k] && sorted@[k] == old_sorted[k]);
            } else if k > p {
                assert(keys@[k] == old_keys[k - 1] && sorted@[k] == old_sorted[k - 1]);
            }
        }
        i = i + 1;
    }
    assert(input.take(scenes.len() as int) =~= input);
    let ghost st = strings_view(sorted@);
    let mut out: Vec<String> = Vec::new();
    let mut j: usize = 0;
    while j < sorted.len()
        invariant
            j <= sorted.len(),
            st == strings_view(sorted@),
            strings_view(out@) == dedup(st.take(j as int)),
            j > 0 ==> out@.len() > 0 && out@.last()@ == st[j - 1],
        decreases sorted.len() - j,
    {
        let ghost prefix = st.take(j + 1);
        assert(prefix.drop_last() =~= st.take(j as int));
        proof {
            lemma_dedup_last(st.take(j as int));
        }
        if j > 0 && str_eq(out[out.len() - 1].as_str(), sorted[j].as_str()) {
            assert(prefix[prefix.len() - 2] == st[j - 1]);
        } else {
            let ghost before = strings_view(out@);
            out.push(owned(sorted[j].as_str()));
            assert(strings_view(out@) =~= before.push(st[j as int]));
        }
        j = j + 1;
    }
    assert(st.take(sorted.len() as int) =~= st);
    out
}

/// The last element survives deduplication.
proof fn lemma_dedup_last(s: Seq<Seq<char>>)
    ensures
        s.len() > 0 ==> dedup(s).len() > 0 && dedup(s).last() == s.last(),
        s.len() == 0 ==> dedup(s).len() == 0,
    decreases s.len(),
{
    if s.len() > 1 {
        lemma_dedup_last(s.drop_last());
    }
}

// ---------------------------------------------------------------------------
// Laws of the scene order
// ---------------------------------------------------------------------------

/// Inserting into a sorted sequence keeps it sorted.
proof fn lemma_insert_sorted(s: Seq<Seq<char>>, x: Seq<char>)
    requires
        sorted_by_key(s),
    ensures
        sorted_by_key(sorted_insert(s, x)),
        sorted_insert(s, x).len() == s.len() + 1,
    decreases s.len(),
{
    if s.len() == 0 {
    } else if !key_lt(x, s.last()) {
        let r = s.push(x);
        assert forall|i: int, j: int| 0 <= i < j < r.len() implies !key_lt(#[trigger] r[j], #[trigger] r[i]) by {
            if j == s.len() {
                // r[i] is at most the last element, which is at most x.
                if i < s.len() - 1 {
                    assert(!key_lt(s[s.len() - 1], s[i]));
                } else {
                    lemma_seq_lt_irreflexive(scene_key(s[i]));
                }
                lemma_key_le_trans(s[i], s.last(), x);
            }
        }
    } else {
        let d = s.drop_last();
        assert(sorted_by_key(d)) by {
            assert forall|i: int, j: int| 0 <= i < j < d.len() implies !key_lt(#[trigger] d[j], #[trigger] d[i]) by {
                assert(d[i] == s[i] && d[j] == s[j]);
            }
        }
        lemma_insert_sorted(d, x);
        lemma_insert_members(d, x);
        let t = sorted_insert(d, x);
        let r = t.push(s.last());
        assert forall|i: int, j: int| 0 <= i < j < r.len() implies !key_lt(#[trigger] r[j], #[trigger] r[i]) by {
            if j == t.len() {
                // Every element of t is an element of d or x, and none is after s.last().
                let e = t[i];
                if e == x {
                    lemma_seq_lt_total(scene_key(x), scene_key(s.last()));
                } else {
                    let k = choose|k: int| 0 <= k < d.len() && d[k] == e;
                    assert(s[k] == d[k]);
                    assert(!key_lt(s[s.len() - 1], s[k]));
                }
            }
        }
    }
}

/// `a` before-or-equal `b` before-or-equal `c` in key order.
proof fn lemma_key_le_trans(a: Seq<char>, b: Seq<char>, c: Seq<char>)
    requires
        !key_lt(b, a),
        !key_lt(c, b),
    ensures
        !key_lt(c, a),
{
    lemma_seq_lt_total(scene_key(a), scene_key(b));
    lemma_seq_lt_total(scene_key(b), scene_key(c));
    lemma_seq_lt_total(scene_key(a), scene_key(c));
    if key_lt(c, a) {
        if scene_key(a) == scene_key(b) {
        } else if scene_key(b) == scene_key(c) {
        } else {
            lemma_seq_lt_transitive(scene_key(a), scene_key(b), scene_key(c));
        }
    }
}

/// Every element of an insertion is `x` or an element of `s`.
proof fn lemma_insert_members(s: Seq<Seq<char>>, x: Seq<char>)
    ensures
        forall|i: int| 0 <= i < sorted_insert(s, x).len() ==>
            (#[trigger] sorted_insert(s, x)[i] == x || exists|k: int| 0 <= k < s.len() && s[k] == sorted_insert(s, x)[i]),
        sorted_insert(s, x).len() == s.len() + 1,
    decreases s.len(),
{
    if s.len() == 0 {
    } else if !key_lt(x, s.last()) {
        let r = s.push(x);
        assert forall|i: int| 0 <= i < r.len() implies (#[trigger] r[i] == x || exists|k: int| 0 <= k < s.len() && s[k] == r[i]) by {
            if i < s.len() {
                assert(s[i] == r[i]);
            }
        }
    } else {
        let d = s.drop_last();
        lemma_insert_members(d, x);
        let t = sorted_insert(d, x);
        let r = t.push(s.last());
        assert forall|i: int| 0 <= i < r.len() implies (#[trigger] r[i] == x || exists|k: int| 0 <= k < s.len() && s[k] == r[i]) by {
            if i == t.len() {
                assert(s[s.len() - 1] == r[i]);
            } else {
                assert(r[i] == t[i]);
                if t[i] != x {
                    let k = choose|k: int| 0 <= k < d.len() && d[k] == t[i];
                    assert(s[k] == d[k]);
                }
            }
        }
    }
}

/// Sorting gives a sequence sorted by key.
proof fn lemma_sort_sorted(s: Seq<Seq<char>>)
    ensures
        sorted_by_key(stable_sort(s)),
        stable_sort(s).len() == s.len(),
    decreases s.len(),
{
    if s.len() > 0 {
        lemma_sort_sorted(s.drop_last());
        lemma_insert_sorted(stable_sort(s.drop_last()), s.last());
    }
}

/// Sorting a sequence that is already sorted leaves it unchanged.
proof fn lemma_sort_of_sorted(s: Seq<Seq<char>>)
    requires
        sorted_by_key(s),
    ensures
        stable_sort(s) == s,
    decreases s.len(),
{
    if s.len() > 0 {
        let d = s.drop_last();
        assert(sorted_by_key(d)) by {
            assert forall|i: int, j: int| 0 <= i < j < d.len() implies !key_lt(#[trigger] d[j], #[trigger] d[i]) by {
                assert(d[i] == s[i] && d[j] == s[j]);
            }
        }
        lemma_sort_of_sorted(d);
        if d.len() > 0 {
            assert(!key_lt(s[s.len() - 1], s[s.len() - 2]));
            assert(!key_lt(s.last(), d.last()));
        }
        assert(d.push(s.last()) =~= s);
    }
}

/// Deduplication keeps a sorted sequence sorted, and every element of the
/// result is an element of the input.
proof fn lemma_dedup_sorted(s: Seq<Seq<char>>)
    requires
        sorted_by_key(s),
    ensures
        sorted_by_key(dedup(s)),
        forall|i: int| 0 <= i < dedup(s).len() ==> is_member(s, #[trigger] dedup(s)[i]),
    decreases s.len(),
{
    if s.len() <= 1 {
        assert forall|i: int| 0 <= i < dedup(s).len() implies is_member(s, #[trigger] dedup(s)[i]) by {
            assert(s[i] == dedup(s)[i]);
        }
    } else {
        let d = s.drop_last();
        assert(sorted_by_key(d)) by {
            assert forall|i: int, j: int| 0 <= i < j < d.len() implies !key_lt(#[trigger] d[j], #[trigger] d[i]) by {
                assert(d[i] == s[i] && d[j] == s[j]);
            }
        }
        lemma_dedup_sorted(d);
        let e = dedup(d);
        assert forall|i: int| 0 <= i < e.len() implies is_member(s, #[trigger] e[i]) by {
            let k = choose|k: int| 0 <= k < d.len() && d[k] == e[i];
            assert(s[k] == d[k]);
        }
        if s.last() != s[s.len() - 2] {
            let r = e.push(s.last());
            assert forall|i: int, j: int| 0 <= i < j < r.len() implies !key_lt(#[trigger] r[j], #[trigger] r[i]) by {
                if j == e.len() {
                    let k = choose|k: int| 0 <= k < d.len() && d[k] == e[i];
                    assert(s[k] == d[k]);
                    if k < s.len() - 1 {
                        assert(!key_lt(s[s.len() - 1], s[k]));
                    }
                } else {
                    assert(r[i] == e[i] && r[j] == e[j]);
                }
            }
            assert forall|i: int| 0 <= i < r.len() implies is_member(s, #[trigger] r[i]) by {
                if i == e.len() {
                    assert(s[s.len() - 1] == r[i]);
                } else {
                    assert(r[i] == e[i]);
                }
            }
            assert(dedup(s) == r);
            assert forall|i: int| 0 <= i < dedup(s).len() implies is_member(s, #[trigger] dedup(s)[i]) by {
                assert(dedup(s)[i] == r[i]);
            }
        } else {
            assert(dedup(s) == e);
            assert forall|i: int| 0 <= i < dedup(s).len() implies is_member(s, #[trigger] dedup(s)[i]) by {
                assert(dedup(s)[i] == e[i]);
            }
        }
    }
}

/// Deduplication leaves no consecutive duplicates.
proof fn lemma_dedup_no_adjacent(s: Seq<Seq<char>>)
    ensures
        no_adjacent_duplicates(dedup(s)),
    decreases s.len(),
{
    if s.len() > 1 {
        let d = s.drop_last();
        lemma_dedup_no_adjacent(d);
        lemma_dedup_last(d);
        if s.last() != s[s.len() - 2] {
            assert(d.last() == s[s.len() - 2]);
            let r = dedup(d).push(s.last());
            assert forall|i: int| 0 <= i < r.len() - 1 implies #[trigger] r[i] != r[i + 1] by {
                if i == r.len() - 2 {
                    assert(r[i] == dedup(d).last());
                } else {
                    assert(r[i] == dedup(d)[i] && r[i + 1] == dedup(d)[i + 1]);
                }
            }
        }
    }
}

/// Deduplicating a sequence without consecutive duplicates leaves it
/// unchanged.
proof fn lemma_dedup_of_distinct(s: Seq<Seq<char>>)
    requires
        no_adjacent_duplicates(s),
    ensures
        dedup(s) == s,
    decreases s.len(),
{
    if s.len() > 1 {
        let d = s.drop_last();
        assert(no_adjacent_duplicates(d)) by {
            assert forall|i: int| 0 <= i < d.len() - 1 implies #[trigger] d[i] != d[i + 1] by {
                assert(d[i] == s[i] && d[i + 1] == s[i + 1]);
            }
        }
        lemma_dedup_of_distinct(d);
        assert(s[s.len() - 2] != s[s.len() - 1]);
        assert(d.push(s.last()) =~= s);
    }
}

/// A sorted and deduplicated scene list is sorted by key and has no two
/// equal neighbours.
pub proof fn lemma_scene_list_ordered(scenes: Seq<Seq<char>>)
    ensures
        sorted_by_key(spec_sort_and_dedup(scenes)),
        no_adjacent_duplicates(spec_sort_and_dedup(scenes)),
{
    lemma_sort_sorted(scenes);
    lemma_dedup_sorted(stable_sort(scenes));
    lemma_dedup_no_adjacent(stable_sort(scenes));
}

/// Sorting and deduplicating a scene list a second time changes nothing.
pub proof fn lemma_sort_and_dedup_idempotent(scenes: Seq<Seq<char>>)
    ensures
        spec_sort_and_dedup(spec_sort_and_dedup(scenes)) == spec_sort_and_dedup(scenes),
{
    lemma_scene_list_ordered(scenes);
    let once = spec_sort_and_dedup(scenes);
    lemma_sort_of_sorted(once);
    lemma_dedup_of_distinct(once);
}

// ---------------------------------------------------------------------------
// Choosing how to control a device
// ---------------------------------------------------------------------------

/// What is known of the ways to reach a device.
#[derive(Clone, Copy, Debug, PartialEq, Eq, Structural)]
pub struct ControlChannels {
    /// The device is a humidifier, whose light is its night light.
    pub is_humidifier: bool,
    /// The device was found on the LAN.
    pub has_lan: bool,
    /// The IoT client is available and the device's account entry is known.
    pub has_iot: bool,
    /// The Platform API client is available and the device's Platform API
    /// information is known.
    pub has_platform: bool,
}

/// A change asked of a device.
#[derive(Clone, Copy, Debug, PartialEq, Eq, Structural)]
pub enum ControlRequest {
    /// Turn the light of the device on or off.
    LightPower(bool),
    /// Turn the device on or off.
    Power(bool),
    /// Set the brightness, in percent.
    Brightness(u8),
    /// Set the colour temperature, in kelvin.
    ColorTemperature(u32),
    /// Set the colour.
    ColorRgb(DeviceColor),
}

/// The channel through which a device is controlled.
#[derive(Clone, Copy, Debug, PartialEq, Eq, Structural)]
pub enum ControlRoute {
    /// A night light packet sent through the IoT API.
    Nightlight,
    Lan,
    Iot,
    Platform,
}

/// The request is carried out by a humidifier's night light.
pub open spec fn is_nightlight_request(req: ControlRequest) -> bool {
    req is LightPower || req is Brightness || req is ColorRgb
}

/// The channel for a request: a humidifier's light through its night light
/// packet (which needs the IoT API); otherwise the LAN, then the IoT API,
/// then the Platform API, the first that is available. None when no channel
/// can carry the request.
pub open spec fn spec_control_route(req: ControlRequest, ch: ControlChannels) -> Option<ControlRoute> {
    if is_nightlight_request(req) && ch.is_humidifier {
        if ch.has_iot {
            Some(ControlRoute::Nightlight)
        } else {
            None
        }
    } else if ch.has_lan {
        Some(ControlRoute::Lan)
    } else if ch.has_iot {
        Some(ControlRoute::Iot)
    } else if ch.has_platform {
        Some(ControlRoute::Platform)
    } else {
        None
    }
}

/// The channel through which to carry out a request.
pub fn choose_control_route(req: ControlRequest, ch: ControlChannels) -> (r: Option<ControlRoute>)
    ensures
        r == spec_control_route(req, ch),
{
    let nightlight = match req {
        ControlRequest::LightPower(_) | ControlRequest::Brightness(_) | ControlRequest::ColorRgb(_) => true,
        _ => false,
    };
    if nightlight && ch.is_humidifier {
        if ch.has_iot {
            Some(ControlRoute::Nightlight)
        } else {
            None
        }
    } else if ch.has_lan {
        Some(ControlRoute::Lan)
    } else if ch.has_iot {
        Some(ControlRoute::Iot)
    } else if ch.has_platform {
        Some(ControlRoute::Platform)
    } else {
        None
    }
}

/// A device found on the LAN is controlled over the LAN (but for the light
/// of a humidifier), and a channel is chosen only when it is available.
pub proof fn lemma_lan_first(req: ControlRequest, ch: ControlChannels)
    ensures
        ch.has_lan && !(is_nightlight_request(req) && ch.is_humidifier)
            ==> spec_control_route(req, ch) == Some(ControlRoute::Lan),
        spec_control_route(req, ch) == Some(ControlRoute::Lan) ==> ch.has_lan,
        spec_control_route(req, ch) == Some(ControlRoute::Iot) ==> ch.has_iot && !ch.has_lan,
        spec_control_route(req, ch) == Some(ControlRoute::Platform) ==> ch.has_platform && !ch.has_lan && !ch.has_iot,
        spec_control_route(req, ch) == Some(ControlRoute::Nightlight) ==> ch.has_iot && ch.is_humidifier,
        spec_control_route(req, ch) is None ==> !ch.has_iot || (!ch.has_lan && !ch.has_platform && !ch.is_humidifier)
            || (ch.is_humidifier && is_nightlight_request(req)),
{
}

/// After the colour or the colour temperature is set over the LAN or the
/// Platform API, no scene is active any more.
pub open spec fn spec_clears_active_scene(req: ControlRequest, route: ControlRoute) -> bool {
    (req is ColorTemperature || req is ColorRgb) && (route == ControlRoute::Lan || route == ControlRoute::Platform)
}

/// Whether carrying out `req` through `route` ends the active scene.
pub fn clears_active_scene(req: ControlRequest, route: ControlRoute) -> (r: bool)
    ensures
        r == spec_clears_active_scene(req, route),
{
    let color = match req {
        ControlRequest::ColorTemperature(_) | ControlRequest::ColorRgb(_) => true,
        _ => false,
    };
    let clears = match route {
        ControlRoute::Lan | ControlRoute::Platform => true,
        _ => false,
    };
    color && clears
}

/// The status reported over the LAN shows that the request took effect.
pub open spec fn spec_status_accepts(req: ControlRequest, status: DeviceStatus) -> bool {
    match req {
        ControlRequest::LightPower(on) | ControlRequest::Power(on) => status.on == on,
        ControlRequest::Brightness(b) => status.brightness == b,
        ControlRequest::ColorTemperature(k) => status.color_temperature_kelvin == k,
        ControlRequest::ColorRgb(c) => status.color == c,
    }
}

/// Whether a LAN status shows that the request took effect, so that polling
/// can stop.
pub fn status_accepts(req: ControlRequest, status: &DeviceStatus) -> (r: bool)
    ensures
        r == spec_status_accepts(req, *status),
{
    match req {
        ControlRequest::LightPower(on) | ControlRequest::Power(on) => status.on == on,
        ControlRequest::Brightness(b) => status.brightness == b,
        ControlRequest::ColorTemperature(k) => status.color_temperature_kelvin == k,
        ControlRequest::ColorRgb(c) => status.color.r == c.r && status.color.g == c.g && status.color.b == c.b,
    }
}

/// The channel for a scene.
#[derive(Clone, Copy, Debug, PartialEq, Eq, Structural)]
pub enum SceneRoute {
    Platform,
    Lan,
}

/// Scenes are set through the Platform API unless the device avoids it,
/// else over the LAN.
pub open spec fn spec_scene_route(avoid_platform_api: bool, has_platform: bool, has_lan: bool) -> Option<SceneRoute> {
    if !avoid_platform_api && has_platform {
        Some(SceneRoute::Platform)
    } else if has_lan {
        Some(SceneRoute::Lan)
    } else {
        None
    }
}

/// The channel through which to set a scene.
pub fn choose_scene_route(avoid_platform_api: bool, has_platform: bool, has_lan: bool) -> (r: Option<SceneRoute>)
    ensures
        r == spec_scene_route(avoid_platform_api, has_platform, has_lan),
{
    if !avoid_platform_api && has_platform {
        Some(SceneRoute::Platform)
    } else if has_lan {
        Some(SceneRoute::Lan)
    } else {
        None
    }
}

/// The channel for a humidifier parameter: the IoT API, else the Platform
/// API.
pub fn choose_parameter_route(has_iot: bool, has_platform: bool) -> (r: Option<ControlRoute>)
    ensures
        r == (if has_iot {
            Some(ControlRoute::Iot)
        } else if has_platform {
            Some(ControlRoute::Platform)
        } else {
            None
        }),
{
    if has_iot {
        Some(ControlRoute::Iot)
    } else if has_platform {
        Some(ControlRoute::Platform)
    } else {
        None
    }
}

// ---------------------------------------------------------------------------
// Humidifier commands
// ---------------------------------------------------------------------------

/// A change to a humidifier's night light.
#[derive(Clone, Copy, Debug, PartialEq, Eq, Structural)]
pub enum NightlightChange {
    Power(bool),
    /// Sets the brightness and turns the light on.
    Brightness(u8),
    /// Sets the colour and turns the light on.
    Color(DeviceColor),
}

/// The night light as last known (all off and zero when unknown), with the
/// change applied.
pub open spec fn spec_nightlight_after(current: Option<HumidifierNightlightParams>, change: NightlightChange) -> HumidifierNightlightParams {
    let p = match current {
        Some(p) => p,
        None => HumidifierNightlightParams { on: false, r: 0, g: 0, b: 0, brightness: 0 },
    };
    match change {
        NightlightChange::Power(on) => HumidifierNightlightParams { on: on, ..p },
        NightlightChange::Brightness(b) => HumidifierNightlightParams { on: true, brightness: b, ..p },
        NightlightChange::Color(c) => HumidifierNightlightParams { on: true, r: c.r, g: c.g, b: c.b, ..p },
    }
}

/// What a change does to the night light: a power change sets only the
/// power; a brightness change turns the light on and sets only the
/// brightness; a colour change turns the light on and sets the red, green
/// and blue of the given colour, keeping the brightness. What the change
/// does not set comes from the last known settings, or is off and zero when
/// none are known.
pub proof fn lemma_nightlight_change(current: Option<HumidifierNightlightParams>, change: NightlightChange)
    ensures
        ({
            let r = spec_nightlight_after(current, change);
            let (on0, r0, g0, b0, br0) = match current {
                Some(p) => (p.on, p.r, p.g, p.b, p.brightness),
                None => (false, 0u8, 0u8, 0u8, 0u8),
            };
            &&& change matches NightlightChange::Power(on) ==> (r.on == on && r.r == r0 && r.g == g0 && r.b == b0
                && r.brightness == br0)
            &&& change matches NightlightChange::Brightness(v) ==> (r.on && r.brightness == v && r.r == r0
                && r.g == g0 && r.b == b0)
            &&& change matches NightlightChange::Color(c) ==> (r.on && r.r == c.r && r.g == c.g && r.b == c.b
                && r.brightness == br0)
        }),
{
}

/// The night light settings after a change.
pub fn nightlight_after(current: Option<HumidifierNightlightParams>, change: NightlightChange) -> (r: HumidifierNightlightParams)
    ensures
        r == spec_nightlight_after(current, change),
{
    let mut p = match current {
        Some(p) => p,
        None => HumidifierNightlightParams { on: false, r: 0, g: 0, b: 0, brightness: 0 },
    };
    match change {
        NightlightChange::Power(on) => {
            p.on = on;
        },
        NightlightChange::Brightness(b) => {
            p.brightness = b;
            p.on = true;
        },
        NightlightChange::Color(c) => {
            p.r = c.r;
            p.g = c.g;
            p.b = c.b;
            p.on = true;
        },
    }
    p
}

/// The base64 command that sets a humidifier's night light after a change.
pub fn nightlight_command(current: Option<HumidifierNightlightParams>, change: NightlightChange) -> (r: String)
    ensures
        r@ == spec_base64_encode(spec_packet_bytes(PacketView::SetHumidifierNightlight(spec_nightlight_after(current, change)))),
{
    let params = nightlight_after(current, change);
    GoveeBlePacket::SetHumidifierNightlight(params).base64()
}

/// The base64 command that sets a humidifier's work mode and its
/// parameter, each cut to a byte.
pub fn humidifier_parameter_command(work_mode: i64, value: i64) -> (r: String)
    ensures
        r@ == spec_base64_encode(spec_packet_bytes(PacketView::SetHumidifierMode(
            HumidifierMode { mode: work_mode as u8, param: value as u8 },
        ))),
{
    let mode = HumidifierMode { mode: #[verifier::truncate] (work_mode as u8), param: #[verifier::truncate] (value as u8) };
    GoveeBlePacket::SetHumidifierMode(mode).base64()
}

// ---------------------------------------------------------------------------
// Polling
// ---------------------------------------------------------------------------

/// What the poller knows of a device. Times are in milliseconds.
#[derive(Clone, Copy, Debug, PartialEq, Eq, Structural)]
pub struct PollFacts {
    /// Whether the device can only be reached over Bluetooth, when known.
    pub ble_only: Option<bool>,
    /// The device was found on the LAN.
    pub has_lan_device: bool,
    /// The LAN client is running.
    pub has_lan_client: bool,
    /// When the device was last polled.
    pub last_polled_ms: Option<i64>,
    /// When the device's state was last updated.
    pub state_updated_ms: Option<i64>,
    /// How often the device should be polled.
    pub poll_interval_ms: i64,
    /// The device's state can only be read through the Platform API.
    pub needs_platform: bool,
}

/// How to ask a device for its state over the network.
#[derive(Clone, Copy, Debug, PartialEq, Eq, Structural)]
pub enum PollAction {
    Nothing,
    /// Ask through the IoT API, and through the Platform API when that
    /// cannot be done.
    IotThenPlatform,
    Platform,
}

/// What one round of polling does for a device.
#[derive(Clone, Copy, Debug, PartialEq, Eq, Structural)]
pub struct PollPlan {
    /// Ask the device for its status over the LAN first.
    pub query_lan: bool,
    pub action: PollAction,
}

/// `at` is unknown or more than `interval` before `now`.
pub open spec fn is_stale(at: Option<i64>, now_ms: i64, interval_ms: i64) -> bool {
    match at {
        None => true,
        Some(t) => now_ms - t > interval_ms,
    }
}

/// One round of polling: nothing for a Bluetooth-only device; otherwise a
/// LAN status query when possible, and, when both the last poll and the
/// state are older than the interval, a request over the network, except
/// for a LAN device whose state does not need the Platform API (it is
/// likely offline, and the request quota is kept).
pub open spec fn spec_poll_plan(f: PollFacts, now_ms: i64) -> PollPlan {
    if f.ble_only == Some(true) {
        PollPlan { query_lan: false, action: PollAction::Nothing }
    } else {
        let query_lan = f.has_lan_device && f.has_lan_client;
        let action = if !is_stale(f.last_polled_ms, now_ms, f.poll_interval_ms)
            || !is_stale(f.state_updated_ms, now_ms, f.poll_interval_ms) {
            PollAction::Nothing
        } else if f.has_lan_device && !f.needs_platform {
            PollAction::Nothing
        } else if !f.needs_platform {
            PollAction::IotThenPlatform
        } else {
            PollAction::Platform
        };
        PollPlan { query_lan, action }
    }
}

/// Whether `at` is unknown or more than `interval` before `now`.
fn stale(at: Option<i64>, now_ms: i64, interval_ms: i64) -> (r: bool)
    ensures
        r == is_stale(at, now_ms, interval_ms),
{
    match at {
        None => true,
        Some(t) => (now_ms as i128) - (t as i128) > (interval_ms as i128),
    }
}

/// What to do for a device in one round of polling at `now_ms`.
pub fn plan_poll(f: &PollFacts, now_ms: i64) -> (r: PollPlan)
    ensures
        r == spec_poll_plan(*f, now_ms),
{
    if f.ble_only == Some(true) {
        return PollPlan { query_lan: false, action: PollAction::Nothing };
    }
    let query_lan = f.has_lan_device && f.has_lan_client;
    let action = if !stale(f.last_polled_ms, now_ms, f.poll_interval_ms)
        || !stale(f.state_updated_ms, now_ms, f.poll_interval_ms) {
        PollAction::Nothing
    } else if f.has_lan_device && !f.needs_platform {
        PollAction::Nothing
    } else if !f.needs_platform {
        PollAction::IotThenPlatform
    } else {
        PollAction::Platform
    };
    PollPlan { query_lan, action }
}

/// A LAN device whose state does not need the Platform API is never asked
/// over the network, and a device is asked over the network only when its
/// last poll and its state are both stale.
pub proof fn lemma_poll_keeps_quota(f: PollFacts, now_ms: i64)
    ensures
        f.has_lan_device && !f.needs_platform ==> spec_poll_plan(f, now_ms).action == PollAction::Nothing,
        spec_poll_plan(f, now_ms).action != PollAction::Nothing ==> is_stale(f.last_polled_ms, now_ms, f.poll_interval_ms)
            && is_stale(f.state_updated_ms, now_ms, f.poll_interval_ms),
        spec_poll_plan(f, now_ms).query_lan ==> f.has_lan_device && f.has_lan_client,
{
}

// ---------------------------------------------------------------------------
// Startup
// ---------------------------------------------------------------------------

/// A step of finding the devices at startup.
#[derive(Clone, Copy, Debug, PartialEq, Eq, Structural)]
pub enum DiscoveryStage {
    PlatformApi,
    UndocApi,
}

/// What to do when a discovery step fails at startup.
#[derive(Clone, Copy, Debug, PartialEq, Eq, Structural)]
pub enum FailureResponse {
    /// Go on with the devices already known.
    Continue,
    /// Stop: nothing is known of the devices.
    Fatal,
}

/// A failed discovery is fatal when no device is cached and, for the
/// account API, when the Platform API did not find the devices either.
pub open spec fn spec_failure_response(stage: DiscoveryStage, cached_device_count: nat, api_discovery_ok: bool) -> FailureResponse {
    match stage {
        DiscoveryStage::PlatformApi => if cached_device_count > 0 {
            FailureResponse::Continue
        } else {
            FailureResponse::Fatal
        },
        DiscoveryStage::UndocApi => if cached_device_count > 0 || api_discovery_ok {
            FailureResponse::Continue
        } else {
            FailureResponse::Fatal
        },
    }
}

/// What to do when a discovery step fails at startup.
pub fn on_discovery_failure(stage: DiscoveryStage, cached_device_count: usize, api_discovery_ok: bool) -> (r: FailureResponse)
    ensures
        r == spec_failure_response(stage, cached_device_count as nat, api_discovery_ok),
{
    match stage {
        DiscoveryStage::PlatformApi => if cached_device_count > 0 {
            FailureResponse::Continue
        } else {
            FailureResponse::Fatal
        },
        DiscoveryStage::UndocApi => if cached_device_count > 0 || api_discovery_ok {
            FailureResponse::Continue
        } else {
            FailureResponse::Fatal
        },
    }
}

/// The devices of the database are loaded into memory when no API found
/// the devices and the database has some.
pub fn use_cached_devices(api_discovery_ok: bool, cached_device_count: usize) -> (r: bool)
    ensures
        r == (!api_discovery_ok && cached_device_count > 0),
{
    !api_discovery_ok && cached_device_count > 0
}

/// Startup stops only when nothing is known of the devices.
pub proof fn lemma_fatal_only_without_devices(stage: DiscoveryStage, cached_device_count: nat, api_discovery_ok: bool)
    ensures
        spec_failure_response(stage, cached_device_count, api_discovery_ok) == FailureResponse::Fatal
            ==> cached_device_count == 0,
        cached_device_count > 0 ==> spec_failure_response(stage, cached_device_count, api_discovery_ok)
            == FailureResponse::Continue,
{
}

// ---------------------------------------------------------------------------
// Finding a device by a label
// ---------------------------------------------------------------------------

/// Two texts are equal once ASCII letters are folded to one case.
pub open spec fn same_ignoring_case(a: Seq<char>, b: Seq<char>) -> bool {
    spec_lower_seq(a) == spec_lower_seq(b)
}

/// The name of a device: its name in the Govee app, else its computed name.
pub open spec fn spec_device_name(d: Device) -> Seq<char> {
    match d.govee_name {
        Some(n) => n@,
        None => spec_computed_name(d.sku@, d.id@),
    }
}

/// The label names the device: its name, id, topic id, address or
/// computed name, ASCII case ignored.
pub open spec fn label_matches(d: Device, address: Option<String>, label: Seq<char>) -> bool {
    ||| same_ignoring_case(spec_device_name(d), label)
    ||| same_ignoring_case(d.id@, label)
    ||| same_ignoring_case(spec_topic_safe_id(d.id@), label)
    ||| (address matches Some(a) && same_ignoring_case(a@, label))
    ||| same_ignoring_case(spec_computed_name(d.sku@, d.id@), label)
}

/// The device at `i` has exactly the label as its id.
pub open spec fn id_at(devices: Seq<Device>, label: Seq<char>, i: int) -> bool {
    0 <= i < devices.len() && devices[i].id@ == label
}

/// The label names the device at `i`.
pub open spec fn match_at(devices: Seq<Device>, addresses: Seq<Option<String>>, label: Seq<char>, i: int) -> bool {
    0 <= i < devices.len() && label_matches(devices[i], addresses[i], label)
}

/// The first device whose id is the label (meaningful when there is one).
pub open spec fn first_id_index(devices: Seq<Device>, label: Seq<char>) -> int {
    choose|i: int| id_at(devices, label, i) && forall|j: int| 0 <= j < i ==> !id_at(devices, label, j)
}

/// The first device that the label names (meaningful when there is one).
pub open spec fn first_match_index(devices: Seq<Device>, addresses: Seq<Option<String>>, label: Seq<char>) -> int {
    choose|i: int| match_at(devices, addresses, label, i) && forall|j: int| 0 <= j < i ==> !match_at(devices, addresses, label, j)
}

/// The device a label resolves to: the device with the label as its id,
/// else the first the label names.
pub open spec fn spec_resolve_device(devices: Seq<Device>, addresses: Seq<Option<String>>, label: Seq<char>) -> Option<int> {
    if exists|i: int| id_at(devices, label, i) {
        Some(first_id_index(devices, label))
    } else if exists|i: int| match_at(devices, addresses, label, i) {
        Some(first_match_index(devices, addresses, label))
    } else {
        None
    }
}

/// Finds the device that a label names; `addresses` holds the text of each
/// device's IP address, when it has one.
pub fn resolve_device(devices: &Vec<Device>, addresses: &Vec<Option<String>>, label: &str) -> (r: Option<usize>)
    requires
        addresses.len() == devices.len(),
        forall|i: int| 0 <= i < devices.len() ==> has_name_suffix(#[trigger] devices@[i].id@),
    ensures
        match spec_resolve_device(devices@, addresses@, label@) {
            Some(i) => r == Some(i as usize),
            None => r is None,
        },
{
    let mut i: usize = 0;
    while i < devices.len()
        invariant
            i <= devices.len(),
            forall|j: int| 0 <= j < i ==> !id_at(devices@, label@, j),
        decreases devices.len() - i,
    {
        if str_eq(devices[i].id.as_str(), label) {
            proof {
                assert(id_at(devices@, label@, i as int));
                let w = first_id_index(devices@, label@);
                assert(w == i) by {
                    if w < i {
                    } else if w > i {
                    }
                }
            }
            return Some(i);
        }
        i = i + 1;
    }
    let mut k: usize = 0;
    while k < devices.len()
        invariant
            k <= devices.len(),
            addresses.len() == devices.len(),
            forall|j: int| 0 <= j < devices.len() ==> has_name_suffix(#[trigger] devices@[j].id@),
            forall|j: int| 0 <= j < devices.len() ==> !id_at(devices@, label@, j),
            forall|j: int| 0 <= j < k ==> !match_at(devices@, addresses@, label@, j),
        decreases devices.len() - k,
    {
        let d = &devices[k];
        assert(has_name_suffix(d.id@));
        let address_matches = match &addresses[k] {
            Some(a) => eq_ignore_ascii_case(a.as_str(), label),
            None => false,
        };
        let name = d.name();
        let topic_id = topic_safe_id(d);
        let found = eq_ignore_ascii_case(name.as_str(), label) || eq_ignore_ascii_case(d.id.as_str(), label)
            || eq_ignore_ascii_case(topic_id.as_str(), label) || address_matches || {
            let computed = d.computed_name();
            eq_ignore_ascii_case(computed.as_str(), label)
        };
        if found {
            proof {
                assert(match_at(devices@, addresses@, label@, k as int));
                let w = first_match_index(devices@, addresses@, label@);
                assert(w == k) by {
                    if w < k {
                    } else if w > k {
                    }
                }
            }
            return Some(k);
        }
        k = k + 1;
    }
    None
}

} // verus!

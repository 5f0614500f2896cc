//! Persistent device database: stable names and rooms for devices across API
//! outages. The database is the source of truth for naming; API metadata
//! enriches it, and LAN-discovered devices are matched to its entries by id.

use vstd::prelude::*;
use crate::strings::{
    chars_of, string_of, owned, ascii_upper, spec_ascii_upper, seq_lt, compare_chars, SeqOrder,
    lemma_seq_lt_transitive, lemma_seq_lt_total, lemma_seq_lt_irreflexive,
};
use crate::clock::now_millis;

verus! {

/// The schema version written by this library.
pub fn default_version() -> (r: u32)
    ensures
        r == 2,
{
    2
}

/// Source of device discovery.
#[derive(Clone, Copy, Debug, PartialEq, Eq, PartialOrd, Ord, Hash, Structural)]
pub enum DiscoverySource {
    PlatformApi,
    UndocApi,
    Lan,
    Ble,
}

impl DiscoverySource {
    /// The name used for this source in the database file.
    pub fn as_str(&self) -> (r: &'static str)
        ensures
            r@ == spec_source_name(*self),
    {
        match self {
            DiscoverySource::PlatformApi => "platform_api",
            DiscoverySource::UndocApi => "undoc_api",
            DiscoverySource::Lan => "lan",
            DiscoverySource::Ble => "ble",
        }
    }
}

/// The name of a discovery source.
pub open spec fn spec_source_name(s: DiscoverySource) -> Seq<char> {
    match s {
        DiscoverySource::PlatformApi => "platform_api"@,
        DiscoverySource::UndocApi => "undoc_api"@,
        DiscoverySource::Lan => "lan"@,
        DiscoverySource::Ble => "ble"@,
    }
}

/// The view of an optional string.
pub open spec fn opt_view(o: Option<String>) -> Option<Seq<char>> {
    match o {
        Some(s) => Some(s@),
        None => None,
    }
}

/// The view of an optional string slice.
pub open spec fn opt_str_view(o: Option<&str>) -> Option<Seq<char>> {
    match o {
        Some(s) => Some(s@),
        None => None,
    }
}

/// An owned copy of an optional string slice.
fn opt_owned(o: Option<&str>) -> (r: Option<String>)
    ensures
        opt_view(r) == opt_str_view(o),
{
    match o {
        Some(s) => Some(owned(s)),
        None => None,
    }
}

/// Per-API-source metadata.
pub struct PersistedApiInfo {
    /// Device name from this API source
    pub name: Option<String>,
    /// Room name from this API source
    pub room: Option<String>,
    /// Last successful sync from this API source, in milliseconds since the
    /// Unix epoch
    pub last_sync: i64,
}

/// The content of a `PersistedApiInfo`.
pub struct ApiInfoView {
    pub name: Option<Seq<char>>,
    pub room: Option<Seq<char>>,
    pub last_sync: i64,
}

impl View for PersistedApiInfo {
    type V = ApiInfoView;

    open spec fn view(&self) -> ApiInfoView {
        ApiInfoView { name: opt_view(self.name), room: opt_view(self.room), last_sync: self.last_sync }
    }
}

/// Per-source metadata, at most one entry per discovery source.
pub struct ApiInfoMap {
    pub platform_api: Option<PersistedApiInfo>,
    pub undoc_api: Option<PersistedApiInfo>,
    pub lan: Option<PersistedApiInfo>,
    pub ble: Option<PersistedApiInfo>,
}

/// The view of an optional entry.
pub open spec fn opt_info_view(o: Option<PersistedApiInfo>) -> Option<ApiInfoView> {
    match o {
        Some(i) => Some(i@),
        None => None,
    }
}

impl ApiInfoMap {
    /// The entry for a source.
    pub open spec fn spec_get(&self, source: DiscoverySource) -> Option<ApiInfoView> {
        match source {
            DiscoverySource::PlatformApi => opt_info_view(self.platform_api),
            DiscoverySource::UndocApi => opt_info_view(self.undoc_api),
            DiscoverySource::Lan => opt_info_view(self.lan),
            DiscoverySource::Ble => opt_info_view(self.ble),
        }
    }

    /// The map with no entry.
    pub fn new() -> (r: Self)
        ensures
            forall|s: DiscoverySource| r.spec_get(s) is None,
    {
        ApiInfoMap { platform_api: None, undoc_api: None, lan: None, ble: None }
    }

    /// The entry for a source.
    pub fn get(&self, source: DiscoverySource) -> (r: &Option<PersistedApiInfo>)
        ensures
            opt_info_view(*r) == self.spec_get(source),
    {
        match source {
            DiscoverySource::PlatformApi => &self.platform_api,
            DiscoverySource::UndocApi => &self.undoc_api,
            DiscoverySource::Lan => &self.lan,
            DiscoverySource::Ble => &self.ble,
        }
    }

    /// Whether there is an entry for a source.
    pub fn contains_key(&self, source: DiscoverySource) -> (r: bool)
        ensures
            r == self.spec_get(source) is Some,
    {
        self.get(source).is_some()
    }

    /// Sets the entry for a source.
    pub fn insert(&mut self, source: DiscoverySource, info: PersistedApiInfo)
        ensures
            final(self).spec_get(source) == Some(info@),
            forall|s: DiscoverySource| s != source ==> final(self).spec_get(s) == old(self).spec_get(s),
    {
        match source {
            DiscoverySource::PlatformApi => self.platform_api = Some(info),
            DiscoverySource::UndocApi => self.undoc_api = Some(info),
            DiscoverySource::Lan => self.lan = Some(info),
            DiscoverySource::Ble => self.ble = Some(info),
        }
    }

    /// The latest sync time over all entries.
    pub fn last_sync(&self) -> (r: Option<i64>)
        ensures
            r == spec_max_sync(
                spec_max_sync(
                    spec_max_sync(spec_max_sync(None, self.spec_get(DiscoverySource::PlatformApi)), self.spec_get(DiscoverySource::UndocApi)),
                    self.spec_get(DiscoverySource::Lan),
                ),
                self.spec_get(DiscoverySource::Ble),
            ),
            r is None <==> (forall|s: DiscoverySource| (#[trigger] self.spec_get(s)) is None),
            forall|s: DiscoverySource| (#[trigger] self.spec_get(s)) is Some ==> r is Some && self.spec_get(s)->0.last_sync <= r->0,
            r is Some ==> exists|s: DiscoverySource| (#[trigger] self.spec_get(s)) is Some && self.spec_get(s)->0.last_sync == r->0,
    {
        let a = max_sync(None, &self.platform_api);
        let b = max_sync(a, &self.undoc_api);
        let c = max_sync(b, &self.lan);
        let d = max_sync(c, &self.ble);
        assert forall|s: DiscoverySource| (#[trigger] self.spec_get(s)) is Some implies d is Some && self.spec_get(s)->0.last_sync <= d->0 by {
            match s {
                DiscoverySource::PlatformApi => {},
                DiscoverySource::UndocApi => {},
                DiscoverySource::Lan => {},
                DiscoverySource::Ble => {},
            }
        }
        proof {
            if d is Some {
                if self.spec_get(DiscoverySource::Ble) is Some && d == Some(self.ble.unwrap().last_sync) {
                    assert(self.spec_get(DiscoverySource::Ble)->0.last_sync == d->0);
                } else if self.spec_get(DiscoverySource::Lan) is Some && d == Some(self.lan.unwrap().last_sync) {
                    assert(self.spec_get(DiscoverySource::Lan)->0.last_sync == d->0);
                } else if self.spec_get(DiscoverySource::UndocApi) is Some && d == Some(self.undoc_api.unwrap().last_sync) {
                    assert(self.spec_get(DiscoverySource::UndocApi)->0.last_sync == d->0);
                } else {
                    assert(self.spec_get(DiscoverySource::PlatformApi)->0.last_sync == d->0);
                }
            }

        }
        d
    }
}

/// The larger of a running maximum and the sync time of an entry.
pub open spec fn spec_max_sync(acc: Option<i64>, o: Option<ApiInfoView>) -> Option<i64> {
    match o {
        None => acc,
        Some(i) => match acc {
            None => Some(i.last_sync),
            Some(t) => if i.last_sync > t { Some(i.last_sync) } else { Some(t) },
        },
    }
}

/// The larger of a running maximum and the sync time of an entry.
fn max_sync(acc: Option<i64>, o: &Option<PersistedApiInfo>) -> (r: Option<i64>)
    ensures
        r == spec_max_sync(acc, opt_info_view(*o)),
{
    match o {
        None => acc,
        Some(i) => match acc {
            None => Some(i.last_sync),
            Some(t) => if i.last_sync > t { Some(i.last_sync) } else { Some(t) },
        },
    }
}

/// The number of bytes of `c` in UTF-8.
pub open spec fn spec_utf8_len(c: char) -> nat {
    if (c as int) < 0x80 {
        1
    } else if (c as int) < 0x800 {
        2
    } else if (c as int) < 0x10000 {
        3
    } else {
        4
    }
}

/// The number of bytes of `s` in UTF-8.
pub open spec fn spec_byte_len(s: Seq<char>) -> nat
    decreases s.len(),
{
    if s.len() == 0 {
        0
    } else {
        spec_byte_len(s.drop_last()) + spec_utf8_len(s.last())
    }
}

/// `s` without the occurrences of `x`.
pub open spec fn without_char(s: Seq<char>, x: char) -> Seq<char>
    decreases s.len(),
{
    if s.len() == 0 {
        s
    } else {
        let r = without_char(s.drop_last(), x);
        if s.last() == x {
            r
        } else {
            r.push(s.last())
        }
    }
}

/// A device id with the colons removed and ASCII letters in upper case.
pub open spec fn normalized_id(id: Seq<char>) -> Seq<char> {
    crate::strings::spec_upper_seq(without_char(id, ':'))
}

/// The tail of `n` that starts `start` bytes into its UTF-8 form, or all of
/// `n` when no character starts there.
pub open spec fn tail_from_byte(n: Seq<char>, start: nat) -> Seq<char> {
    if exists|k: int| 0 <= k <= n.len() && spec_byte_len(n.take(k)) == start {
        n.skip(choose|k: int| 0 <= k <= n.len() && spec_byte_len(n.take(k)) == start)
    } else {
        n
    }
}

/// The name of a device of which nothing else is known: the SKU, an
/// underscore, and the last four bytes of the normalized id (the whole
/// normalized id when that cut would split a character).
pub open spec fn spec_device_name(sku: Seq<char>, id: Seq<char>) -> Seq<char> {
    let n = normalized_id(id);
    let total = spec_byte_len(n);
    let start: nat = if total >= 4 { (total - 4) as nat } else { 0 };
    sku + "_"@ + tail_from_byte(n, start)
}

/// Longer prefixes have more bytes.
proof fn lemma_byte_len_strictly_grows(n: Seq<char>, k1: int, k2: int)
    requires
        0 <= k1 < k2 <= n.len(),
    ensures
        spec_byte_len(n.take(k1)) < spec_byte_len(n.take(k2)),
    decreases k2 - k1,
{
    assert(n.take(k2).drop_last() =~= n.take(k2 - 1));
    if k1 < k2 - 1 {
        lemma_byte_len_strictly_grows(n, k1, k2 - 1);
    }
}

/// The number of bytes of `c` in UTF-8.
pub fn utf8_len(c: char) -> (r: usize)
    ensures
        r == spec_utf8_len(c),
{
    let v = c as u32;
    if v < 0x80 {
        1
    } else if v < 0x800 {
        2
    } else if v < 0x10000 {
        3
    } else {
        4
    }
}

/// `s` without the occurrences of `x`.
fn remove_char(s: &Vec<char>, x: char) -> (r: Vec<char>)
    ensures
        r@ == without_char(s@, x),
{
    let mut r: Vec<char> = Vec::new();
    let mut i: usize = 0;
    while i < s.len()
        invariant
            i <= s.len(),
            r@ == without_char(s@.take(i as int), x),
        decreases s.len() - i,
    {
        assert(s@.take(i + 1).drop_last() =~= s@.take(i as int));
        if s[i] != x {
            r.push(s[i]);
        }
        i = i + 1;
    }
    assert(s@.take(s.len() as int) =~= s@);
    r
}

/// Compute a device name from SKU and ID (matches Device::computed_name logic).
pub fn compute_device_name(sku: &str, id: &str) -> (r: String)
    ensures
        r@ == spec_device_name(sku@, id@),
{
    let idc = chars_of(id);
    let without = remove_char(&idc, ':');
    let n = crate::strings::upper_chars(&without);
    let ghost ns = n@;
    // UTF-8 byte offsets of every character boundary.
    let mut total: u128 = 0;
    let mut i: usize = 0;
    proof {
        assert(without_char(id@, ':').len() <= id@.len()) by {
            lemma_without_len(id@, ':');
        }
    }
    while i < n.len()
        invariant
            i <= n.len(),
            n@ == ns,
            ns.len() <= id@.len(),
            total == spec_byte_len(ns.take(i as int)),
            total <= 4 * i,
        decreases n.len() - i,
    {
        assert(ns.take(i + 1).drop_last() =~= ns.take(i as int));
        total = total + utf8_len(n[i]) as u128;
        i = i + 1;
    }
    assert(ns.take(ns.len() as int) =~= ns);
    let start: u128 = if total >= 4 { total - 4 } else { 0 };
    let mut acc: u128 = 0;
    let mut k: usize = 0;
    let mut found: Option<usize> = None;
    loop
        invariant_except_break
            found is None,
        invariant
            k <= n.len(),
            n@ == ns,
            ns.len() <= id@.len(),
            total == spec_byte_len(ns),
            acc == spec_byte_len(ns.take(k as int)),
            acc <= total,
            forall|j: int| 0 <= j < k ==> spec_byte_len(ns.take(j)) != start,
        ensures
            found is None ==> forall|j: int| 0 <= j <= ns.len() ==> spec_byte_len(ns.take(j)) != start,
            found matches Some(f) ==> f <= ns.len() && spec_byte_len(ns.take(f as int)) == start,
        decreases n.len() - k,
    {
        if acc == start {
            found = Some(k);
            break;
        }
        if k == n.len() {
            break;
        }
        proof {
            assert(ns.take(k + 1).drop_last() =~= ns.take(k as int));
            assert(ns.take(ns.len() as int) =~= ns);
            if k + 1 < ns.len() {
                lemma_byte_len_strictly_grows(ns, (k + 1) as int, ns.len() as int);
            } else {
                assert(ns.take(k + 1) =~= ns);
            }
        }
        acc = acc + utf8_len(n[k]) as u128;
        k = k + 1;
    }
    let mut out: Vec<char> = chars_of(sku);
    out.push('_');
    let ghost head = out@;
    assert(head == sku@ + "_"@) by {
        crate::strings::lemma_underscore();
    }
    match found {
        Some(f) => {
            proof {
                let c = choose|j: int| 0 <= j <= ns.len() && spec_byte_len(ns.take(j)) == start;
                if c < f {
                    lemma_byte_len_strictly_grows(ns, c, f as int);
                } else if f < c {
                    lemma_byte_len_strictly_grows(ns, f as int, c);
                }
                assert(tail_from_byte(ns, start as nat) == ns.skip(f as int));
            }
            let mut j = f;
            while j < n.len()
                invariant
                    f <= j <= n.len(),
                    n@ == ns,
                    ns.len() <= id@.len(),
                    out@ == head + ns.subrange(f as int, j as int),
                    head.len() == sku@.len() + 1,
                decreases n.len() - j,
            {
                out.push(n[j]);
                j = j + 1;
                assert(out@ =~= head + ns.subrange(f as int, j as int));
            }
            assert(ns.subrange(f as int, ns.len() as int) =~= ns.skip(f as int));
        },
        None => {
            proof {
                assert(!exists|j: int| 0 <= j <= ns.len() && spec_byte_len(ns.take(j)) == start);
            }
            let mut j: usize = 0;
            while j < n.len()
                invariant
                    j <= n.len(),
                    n@ == ns,
                    ns.len() <= id@.len(),
                    out@ == head + ns.take(j as int),
                    head.len() == sku@.len() + 1,
                decreases n.len() - j,
            {
                out.push(n[j]);
                j = j + 1;
                assert(out@ =~= head + ns.take(j as int));
            }
            assert(ns.take(ns.len() as int) =~= ns);
        },
    }
    string_of(&out)
}

/// Removing characters does not make a sequence longer.
proof fn lemma_without_len(s: Seq<char>, x: char)
    ensures
        without_char(s, x).len() <= s.len(),
    decreases s.len(),
{
    if s.len() > 0 {
        lemma_without_len(s.drop_last(), x);
    }
}

/// Persisted state for a single device.
pub struct PersistedDevice {
    /// Unique device identifier (e.g., "AA:BB:CC:DD:EE:FF:00:11")
    pub id: String,
    /// Device SKU (e.g., "H6072")
    pub sku: String,
    /// Display name - the definitive name for Home Assistant entity naming.
    pub name: String,
    /// Room/area - the definitive room for Home Assistant suggested_area.
    pub room: Option<String>,
    /// When this device was first seen, in milliseconds since the Unix epoch
    pub first_seen: i64,
    /// Per-API-source metadata tracking
    pub api_info: ApiInfoMap,
}

/// The content of a `PersistedDevice`.
pub struct DeviceView {
    pub id: Seq<char>,
    pub sku: Seq<char>,
    pub name: Seq<char>,
    pub room: Option<Seq<char>>,
    pub first_seen: i64,
    pub api_info: Map<DiscoverySource, ApiInfoView>,
}

/// The entries of an `ApiInfoMap` as a map.
pub open spec fn api_map(m: ApiInfoMap) -> Map<DiscoverySource, ApiInfoView> {
    Map::new(|s: DiscoverySource| m.spec_get(s) is Some, |s: DiscoverySource| m.spec_get(s)->0)
}

impl View for PersistedDevice {
    type V = DeviceView;

    open spec fn view(&self) -> DeviceView {
        DeviceView {
            id: self.id@,
            sku: self.sku@,
            name: self.name@,
            room: opt_view(self.room),
            first_seen: self.first_seen,
            api_info: api_map(self.api_info),
        }
    }
}

/// The per-source entry recorded by a sync.
pub open spec fn spec_api_entry(name: Option<Seq<char>>, room: Option<Seq<char>>, now: i64) -> ApiInfoView {
    ApiInfoView { name, room, last_sync: now }
}

/// A device first found by LAN discovery (or another source without a name).
pub open spec fn spec_new_minimal(id: Seq<char>, sku: Seq<char>, source: DiscoverySource, now: i64) -> DeviceView {
    DeviceView {
        id,
        sku,
        name: spec_device_name(sku, id),
        room: None,
        first_seen: now,
        api_info: Map::empty().insert(source, spec_api_entry(None, None, now)),
    }
}

/// A device first found by an API that names it.
pub open spec fn spec_new_from_api(
    id: Seq<char>,
    sku: Seq<char>,
    name: Seq<char>,
    room: Option<Seq<char>>,
    source: DiscoverySource,
    now: i64,
) -> DeviceView {
    DeviceView {
        id,
        sku,
        name,
        room,
        first_seen: now,
        api_info: Map::empty().insert(source, spec_api_entry(Some(name), room, now)),
    }
}

/// A known device after an API sync: SKU and name are taken from the API,
/// the room only when the API gives one, and the source's entry is replaced.
pub open spec fn spec_apply_api(
    d: DeviceView,
    sku: Seq<char>,
    name: Seq<char>,
    room: Option<Seq<char>>,
    source: DiscoverySource,
    now: i64,
) -> DeviceView {
    DeviceView {
        sku,
        name,
        room: if room is Some { room } else { d.room },
        api_info: d.api_info.insert(source, spec_api_entry(Some(name), room, now)),
        ..d
    }
}

/// A known device seen again on the LAN: only the LAN entry changes.
pub open spec fn spec_apply_lan(d: DeviceView, now: i64) -> DeviceView {
    DeviceView {
        api_info: d.api_info.insert(DiscoverySource::Lan, spec_api_entry(None, None, now)),
        ..d
    }
}

impl PersistedDevice {
    /// Create a new device with minimal information (LAN discovery), seen at
    /// `now`.
    pub fn new_minimal_at(id: &str, sku: &str, source: DiscoverySource, now: i64) -> (r: Self)
        ensures
            r@ == spec_new_minimal(id@, sku@, source, now),
    {
        let computed_name = compute_device_name(sku, id);
        let mut api_info = ApiInfoMap::new();
        api_info.insert(source, PersistedApiInfo { name: None, room: None, last_sync: now });
        let r = PersistedDevice {
            id: owned(id),
            sku: owned(sku),
            name: computed_name,
            room: None,
            first_seen: now,
            api_info,
        };
        assert(api_map(r.api_info) =~= Map::empty().insert(source, spec_api_entry(None, None, now)));
        r
    }

    /// Create a new device with minimal information (LAN discovery), seen now.
    pub fn new_minimal(id: &str, sku: &str, source: DiscoverySource) -> (r: Self)
        ensures
            exists|now: i64| r@ == spec_new_minimal(id@, sku@, source, now),
    {
        let now = now_millis();
        Self::new_minimal_at(id, sku, source, now)
    }

    /// Create a new device with full API information, synced at `now`.
    pub fn new_from_api_at(
        id: &str,
        sku: &str,
        name: &str,
        room: Option<&str>,
        source: DiscoverySource,
        now: i64,
    ) -> (r: Self)
        ensures
            r@ == spec_new_from_api(id@, sku@, name@, opt_str_view(room), source, now),
    {
        let mut api_info = ApiInfoMap::new();
        api_info.insert(
            source,
            PersistedApiInfo { name: Some(owned(name)), room: opt_owned(room), last_sync: now },
        );
        let r = PersistedDevice {
            id: owned(id),
            sku: owned(sku),
            name: owned(name),
            room: opt_owned(room),
            first_seen: now,
            api_info,
        };
        assert(api_map(r.api_info) =~= Map::empty().insert(
            source,
            spec_api_entry(Some(name@), opt_str_view(room), now),
        ));
        r
    }

    /// Create a new device with full API information, synced now.
    pub fn new_from_api(
        id: &str,
        sku: &str,
        name: &str,
        room: Option<&str>,
        source: DiscoverySource,
    ) -> (r: Self)
        ensures
            exists|now: i64| r@ == spec_new_from_api(id@, sku@, name@, opt_str_view(room), source, now),
    {
        let now = now_millis();
        Self::new_from_api_at(id, sku, name, room, source, now)
    }

    /// The most recent API sync time across all sources.
    pub fn last_api_sync(&self) -> (r: Option<i64>)
        ensures
            r is None <==> self@.api_info.dom().is_empty(),
            r matches Some(t) ==> (forall|s: DiscoverySource| #[trigger] self@.api_info.contains_key(s)
                ==> self@.api_info[s].last_sync <= t) && (exists|s: DiscoverySource|
                #[trigger] self@.api_info.contains_key(s) && self@.api_info[s].last_sync == t),
    {
        let r = self.api_info.last_sync();
        proof {
            if r is None {
                assert(api_map(self.api_info).dom() =~= Set::empty());
            } else {
                let s = choose|s: DiscoverySource| (#[trigger] self.api_info.spec_get(s)) is Some && self.api_info.spec_get(s)->0.last_sync == r->0;
                assert(api_map(self.api_info).contains_key(s));
            }
        }
        r
    }
}

/// One device of the database, under its key.
pub struct DbEntry {
    pub key: String,
    pub device: PersistedDevice,
}

/// The keys of the entries are in strictly increasing order.
pub open spec fn keys_sorted(es: Seq<DbEntry>) -> bool {
    forall|i: int, j: int| 0 <= i < j < es.len() ==> seq_lt(#[trigger] es[i].key@, #[trigger] es[j].key@)
}

/// Some entry has the key `k`.
pub open spec fn has_key(es: Seq<DbEntry>, k: Seq<char>) -> bool {
    exists|i: int| 0 <= i < es.len() && (#[trigger] es[i]).key@ == k
}

/// The entries as a map from key to device.
pub open spec fn entries_map(es: Seq<DbEntry>) -> Map<Seq<char>, DeviceView> {
    Map::new(
        |k: Seq<char>| has_key(es, k),
        |k: Seq<char>| es[key_index(es, k)].device@,
    )
}

/// An index of an entry with key `k`, when there is one.
pub open spec fn key_index(es: Seq<DbEntry>, k: Seq<char>) -> int {
    choose|i: int| 0 <= i < es.len() && (#[trigger] es[i]).key@ == k
}

/// The keys of the entries, in order.
pub open spec fn entries_keys(es: Seq<DbEntry>) -> Seq<Seq<char>> {
    Seq::new(es.len(), |i: int| es[i].key@)
}

/// In sorted entries the map holds each entry's device under its key.
proof fn lemma_entries_map_at(es: Seq<DbEntry>, i: int)
    requires
        keys_sorted(es),
        0 <= i < es.len(),
    ensures
        entries_map(es).contains_key(es[i].key@),
        entries_map(es)[es[i].key@] == es[i].device@,
{
    let k = es[i].key@;
    assert(has_key(es, k));
    let c = key_index(es, k);
    assert(entries_map(es)[k] == es[c].device@);
    if c < i {
        assert(seq_lt(es[c].key@, es[i].key@));
        lemma_seq_lt_irreflexive(k);
    } else if i < c {
        assert(seq_lt(es[i].key@, es[c].key@));
        lemma_seq_lt_irreflexive(k);
    }
}

/// The content of a `DeviceDatabase`.
pub struct DatabaseView {
    pub version: u32,
    pub devices: Map<Seq<char>, DeviceView>,
    pub keys: Seq<Seq<char>>,
}

/// The persistent device database.
pub struct DeviceDatabase {
    /// Schema version for future migrations
    pub version: u32,
    /// The devices, ordered by key
    entries: Vec<DbEntry>,
}

impl View for DeviceDatabase {
    type V = DatabaseView;

    closed spec fn view(&self) -> DatabaseView {
        DatabaseView {
            version: self.version,
            devices: entries_map(self.entries@),
            keys: entries_keys(self.entries@),
        }
    }
}

/// Where a key is, or would go, in sorted entries.
pub enum Slot {
    /// The entry at this index has the key.
    Found(usize),
    /// No entry has the key; it belongs before this index.
    Vacant(usize),
}

impl Default for DeviceDatabase {
    fn default() -> (r: Self)
        ensures
            r.wf(),
            r@.version == 0,
            r@.devices.is_empty(),
            r@.keys.len() == 0,
    {
        let r = DeviceDatabase { version: 0, entries: Vec::new() };
        assert(r@.devices =~= Map::empty());
        r
    }
}

impl DeviceDatabase {
    /// The entries are sorted by key, so each key occurs once.
    pub closed spec fn wf(&self) -> bool {
        keys_sorted(self.entries@)
    }

    /// The keys are exactly the devices of the map.
    pub proof fn lemma_keys_are_devices(&self)
        requires
            self.wf(),
        ensures
            forall|k: Seq<char>| self@.devices.contains_key(k) <==> self@.keys.contains(k),
            self@.keys.len() == self@.devices.len(),
    {
        let es = self.entries@;
        assert forall|k: Seq<char>| self@.devices.contains_key(k) <==> self@.keys.contains(k) by {
            if self@.keys.contains(k) {
                let i = choose|i: int| 0 <= i < self@.keys.len() && self@.keys[i] == k;
                assert(es[i].key@ == k);
            }
            if self@.devices.contains_key(k) {
                let i = choose|i: int| 0 <= i < es.len() && (#[trigger] es[i]).key@ == k;
                assert(self@.keys[i] == k);
            }
        }
        lemma_sorted_keys_len(es);
    }

    /// An empty database with the given schema version.
    pub fn with_version(version: u32) -> (r: Self)
        ensures
            r.wf(),
            r@.version == version,
            r@.devices.is_empty(),
            r@.keys.len() == 0,
    {
        let r = DeviceDatabase { version, entries: Vec::new() };
        assert(r@.devices =~= Map::empty());
        r
    }

    /// Where `device_id` is, or would go.
    fn find(&self, device_id: &Vec<char>) -> (r: Slot)
        requires
            self.wf(),
        ensures
            r matches Slot::Found(i) ==> i < self.entries@.len() && self.entries@[i as int].key@
                == device_id@,
            r matches Slot::Vacant(i) ==> i <= self.entries@.len() && (forall|j: int|
                0 <= j < i ==> seq_lt(#[trigger] self.entries@[j].key@, device_id@)) && (forall|j: int|
                i <= j < self.entries@.len() ==> seq_lt(device_id@, #[trigger] self.entries@[j].key@)),
    {
        let mut i: usize = 0;
        while i < self.entries.len()
            invariant
                i <= self.entries.len(),
                self.wf(),
                forall|j: int| 0 <= j < i ==> seq_lt(#[trigger] self.entries@[j].key@, device_id@),
            decreases self.entries.len() - i,
        {
            let k = chars_of(self.entries[i].key.as_str());
            match compare_chars(&k, device_id) {
                SeqOrder::Less => {
                    i = i + 1;
                },
                SeqOrder::Equal => {
                    return Slot::Found(i);
                },
                SeqOrder::Greater => {
                    proof {
                        assert forall|j: int| i <= j < self.entries@.len() implies seq_lt(
                            device_id@,
                            #[trigger] self.entries@[j].key@,
                        ) by {
                            if j > i {
                                assert(seq_lt(self.entries@[i as int].key@, self.entries@[j].key@));
                                lemma_seq_lt_transitive(
                                    device_id@,
                                    self.entries@[i as int].key@,
                                    self.entries@[j].key@,
                                );
                            }
                        }
                    }
                    return Slot::Vacant(i);
                },
            }
        }
        Slot::Vacant(i)
    }

    /// The device stored under `device_id`.
    pub fn get(&self, device_id: &str) -> (r: Option<&PersistedDevice>)
        requires
            self.wf(),
        ensures
            r is Some <==> self@.devices.contains_key(device_id@),
            r matches Some(d) ==> d@ == self@.devices[device_id@],
    {
        let id = chars_of(device_id);
        match self.find(&id) {
            Slot::Found(i) => {
                proof {
                    lemma_entries_map_at(self.entries@, i as int);
                }
                Some(&self.entries[i].device)
            },
            Slot::Vacant(i) => {
                proof {
                    self.lemma_vacant_absent(device_id@, i as int);
                }
                None
            },
        }
    }

    /// No entry has a key that sorts strictly between its neighbours.
    proof fn lemma_vacant_absent(&self, k: Seq<char>, i: int)
        requires
            self.wf(),
            0 <= i <= self.entries@.len(),
            forall|j: int| 0 <= j < i ==> seq_lt(#[trigger] self.entries@[j].key@, k),
            forall|j: int| i <= j < self.entries@.len() ==> seq_lt(k, #[trigger] self.entries@[j].key@),
        ensures
            !self@.devices.contains_key(k),
    {
        if has_key(self.entries@, k) {
            let j = choose|j: int| 0 <= j < self.entries@.len() && (#[trigger] self.entries@[j]).key@ == k;
            lemma_seq_lt_irreflexive(k);
            if j < i {
                assert(seq_lt(self.entries@[j].key@, k));
            } else {
                assert(seq_lt(k, self.entries@[j].key@));
            }
        }
    }

    /// Get the effective display name for a device.
    pub fn get_display_name(&self, device_id: &str) -> (r: Option<&str>)
        requires
            self.wf(),
        ensures
            r is Some <==> self@.devices.contains_key(device_id@),
            r matches Some(n) ==> n@ == self@.devices[device_id@].name,
    {
        match self.get(device_id) {
            Some(d) => Some(d.name.as_str()),
            None => None,
        }
    }

    /// Get the effective room for a device.
    pub fn get_room(&self, device_id: &str) -> (r: Option<&str>)
        requires
            self.wf(),
        ensures
            r is Some <==> self@.devices.contains_key(device_id@) && self@.devices[device_id@].room is Some,
            r matches Some(n) ==> Some(n@) == self@.devices[device_id@].room,
    {
        match self.get(device_id) {
            Some(d) => match &d.room {
                Some(room) => Some(room.as_str()),
                None => None,
            },
            None => None,
        }
    }

    /// Check if a device exists in the database.
    pub fn contains(&self, device_id: &str) -> (r: bool)
        requires
            self.wf(),
        ensures
            r == self@.devices.contains_key(device_id@),
    {
        self.get(device_id).is_some()
    }

    /// All device ids, in key order.
    pub fn device_ids(&self) -> (r: Vec<&str>)
        ensures
            r@.len() == self@.keys.len(),
            forall|i: int| 0 <= i < r@.len() ==> (#[trigger] r@[i])@ == self@.keys[i],
    {
        let mut r: Vec<&str> = Vec::new();
        let mut i: usize = 0;
        while i < self.entries.len()
            invariant
                i <= self.entries.len(),
                r@.len() == i,
                forall|j: int| 0 <= j < i ==> (#[trigger] r@[j])@ == self.entries@[j].key@,
            decreases self.entries.len() - i,
        {
            r.push(self.entries[i].key.as_str());
            i = i + 1;
        }
        r
    }

    /// All devices, in key order.
    pub fn devices(&self) -> (r: Vec<&PersistedDevice>)
        requires
            self.wf(),
        ensures
            r@.len() == self@.keys.len(),
            forall|i: int| 0 <= i < r@.len() ==> (#[trigger] r@[i])@ == self@.devices[self@.keys[i]],
    {
        let mut r: Vec<&PersistedDevice> = Vec::new();
        let mut i: usize = 0;
        while i < self.entries.len()
            invariant
                i <= self.entries.len(),
                self.wf(),
                r@.len() == i,
                forall|j: int| 0 <= j < i ==> (#[trigger] r@[j])@ == self@.devices[self@.keys[j]],
            decreases self.entries.len() - i,
        {
            proof {
                lemma_entries_map_at(self.entries@, i as int);
            }
            r.push(&self.entries[i].device);
            i = i + 1;
        }
        r
    }

    /// Check if database is empty (for first-run detection).
    pub fn is_empty(&self) -> (r: bool)
        requires
            self.wf(),
        ensures
            r == self@.devices.is_empty(),
    {
        proof {
            self.lemma_keys_are_devices();
            if self.entries@.len() > 0 {
                lemma_entries_map_at(self.entries@, 0);
            }
        }
        self.entries.len() == 0
    }

    /// Get device count.
    pub fn len(&self) -> (r: usize)
        requires
            self.wf(),
        ensures
            r == self@.devices.len(),
    {
        proof {
            self.lemma_keys_are_devices();
        }
        self.entries.len()
    }
}

/// Sorted entries have as many devices as keys.
proof fn lemma_sorted_keys_len(es: Seq<DbEntry>)
    requires
        keys_sorted(es),
    ensures
        entries_map(es).dom().finite(),
        entries_map(es).len() == es.len(),
    decreases es.len(),
{
    if es.len() == 0 {
        assert(entries_map(es).dom() =~= Set::empty());
    } else {
        let init = es.drop_last();
        lemma_sorted_keys_len(init);
        let k = es.last().key@;
        assert(!entries_map(init).contains_key(k)) by {
            if has_key(init, k) {
                let j = choose|j: int| 0 <= j < init.len() && (#[trigger] init[j]).key@ == k;
                assert(seq_lt(es[j].key@, es[es.len() - 1].key@));
                lemma_seq_lt_irreflexive(k);
            }
        }
        assert(entries_map(es).dom() =~= entries_map(init).dom().insert(k)) by {
            assert forall|x: Seq<char>| entries_map(es).dom().contains(x) implies entries_map(init).dom().insert(k).contains(x) by {
                let j = choose|j: int| 0 <= j < es.len() && (#[trigger] es[j]).key@ == x;
                if j < es.len() - 1 {
                    assert(init[j] == es[j]);
                }
            }
            assert forall|x: Seq<char>| entries_map(init).dom().insert(k).contains(x) implies entries_map(es).dom().contains(x) by {
                if x != k {
                    let j = choose|j: int| 0 <= j < init.len() && (#[trigger] init[j]).key@ == x;
                    assert(es[j] == init[j]);
                } else {
                    assert(es[es.len() - 1].key@ == k);
                }
            }
        }
    }
}

/// Inserting an entry where its key belongs keeps the entries sorted and adds
/// the device under its key.
proof fn lemma_insert_entry(es: Seq<DbEntry>, i: int, e: DbEntry)
    requires
        keys_sorted(es),
        0 <= i <= es.len(),
        forall|j: int| 0 <= j < i ==> seq_lt(#[trigger] es[j].key@, e.key@),
        forall|j: int| i <= j < es.len() ==> seq_lt(e.key@, #[trigger] es[j].key@),
    ensures
        keys_sorted(es.insert(i, e)),
        entries_map(es.insert(i, e)) == entries_map(es).insert(e.key@, e.device@),
        entries_keys(es.insert(i, e)) == entries_keys(es).insert(i, e.key@),
{
    let ns = es.insert(i, e);
    assert forall|a: int, b: int| 0 <= a < b < ns.len() implies seq_lt(#[trigger] ns[a].key@, #[trigger] ns[b].key@) by {
        if a < i && b < i {
            assert(ns[a] == es[a] && ns[b] == es[b]);
        } else if a < i && b == i {
        } else if a < i && b > i {
            assert(ns[a] == es[a] && ns[b] == es[b - 1]);
        } else if a == i {
            assert(ns[b] == es[b - 1]);
        } else {
            assert(ns[a] == es[a - 1] && ns[b] == es[b - 1]);
        }
    }
    let k = e.key@;
    let m = entries_map(es).insert(k, e.device@);
    assert forall|x: Seq<char>| #[trigger] entries_map(ns).dom().contains(x) <==> m.dom().contains(x) by {
        if has_key(ns, x) {
            let j = key_index(ns, x);
            if j < i {
                assert(es[j] == ns[j]);
            } else if j > i {
                assert(es[j - 1] == ns[j]);
            }
        }
        if has_key(es, x) {
            let j = key_index(es, x);
            if j < i {
                assert(ns[j] == es[j]);
            } else {
                assert(ns[j + 1] == es[j]);
            }
        }
        if x == k {
            assert(ns[i] == e);
        }
    }
    assert(entries_map(ns).dom() =~= m.dom());
    assert forall|x: Seq<char>| #[trigger] m.dom().contains(x) implies entries_map(ns)[x] == m[x] by {
        if x == k {
            lemma_entries_map_at(ns, i);
        } else {
            let j = key_index(es, x);
            lemma_entries_map_at(es, j);
            if j < i {
                assert(ns[j] == es[j]);
                lemma_entries_map_at(ns, j);
            } else {
                assert(ns[j + 1] == es[j]);
                lemma_entries_map_at(ns, j + 1);
            }
        }
    }
    assert(entries_map(ns) =~= m);
    assert(entries_keys(ns) =~= entries_keys(es).insert(i, e.key@));
}

/// Replacing the device of an entry keeps the entries sorted and replaces the
/// device under its key.
proof fn lemma_update_entry(es: Seq<DbEntry>, i: int, e: DbEntry)
    requires
        keys_sorted(es),
        0 <= i < es.len(),
        es[i].key@ == e.key@,
    ensures
        keys_sorted(es.update(i, e)),
        entries_map(es.update(i, e)) == entries_map(es).insert(e.key@, e.device@),
        entries_keys(es.update(i, e)) == entries_keys(es),
{
    let ns = es.update(i, e);
    assert forall|a: int, b: int| 0 <= a < b < ns.len() implies seq_lt(#[trigger] ns[a].key@, #[trigger] ns[b].key@) by {
        assert(ns[a].key@ == es[a].key@ && ns[b].key@ == es[b].key@);
    }
    let k = e.key@;
    let m = entries_map(es).insert(k, e.device@);
    assert forall|x: Seq<char>| #[trigger] entries_map(ns).dom().contains(x) <==> m.dom().contains(x) by {
        if has_key(ns, x) {
            let j = key_index(ns, x);
            assert(es[j].key@ == ns[j].key@);
        }
        if has_key(es, x) {
            let j = key_index(es, x);
            assert(ns[j].key@ == es[j].key@);
        }
    }
    assert(entries_map(ns).dom() =~= m.dom());
    assert forall|x: Seq<char>| #[trigger] m.dom().contains(x) implies entries_map(ns)[x] == m[x] by {
        if x == k {
            lemma_entries_map_at(ns, i);
        } else {
            let j = key_index(es, x);
            lemma_entries_map_at(es, j);
            assert(ns[j] == es[j]);
            lemma_entries_map_at(ns, j);
        }
    }
    assert(entries_map(ns) =~= m);
    assert(entries_keys(ns) =~= entries_keys(es));
}

impl DeviceDatabase {
    /// Update the database from an API-discovered device, synced at `now`:
    /// a known device takes the SKU and name from the API (and the room, when
    /// the API gives one), an unknown one is added.
    pub fn update_from_api_at(
        &mut self,
        device_id: &str,
        sku: &str,
        api_name: &str,
        api_room: Option<&str>,
        source: DiscoverySource,
        now: i64,
    )
        requires
            old(self).wf(),
        ensures
            final(self).wf(),
            final(self)@.version == old(self)@.version,
            final(self)@.devices == old(self)@.devices.insert(
                device_id@,
                if old(self)@.devices.contains_key(device_id@) {
                    spec_apply_api(
                        old(self)@.devices[device_id@],
                        sku@,
                        api_name@,
                        opt_str_view(api_room),
                        source,
                        now,
                    )
                } else {
                    spec_new_from_api(device_id@, sku@, api_name@, opt_str_view(api_room), source, now)
                },
            ),
    {
        let id = chars_of(device_id);
        match self.find(&id) {
            Slot::Found(i) => {
                proof {
                    lemma_entries_map_at(self.entries@, i as int);
                }
                let ghost old_entries = self.entries@;
                let mut e = self.entries.remove(i);
                e.device.sku = owned(sku);
                e.device.name = owned(api_name);
                if api_room.is_some() {
                    e.device.room = opt_owned(api_room);
                }
                let ghost before = e.device.api_info;
                e.device.api_info.insert(
                    source,
                    PersistedApiInfo {
                        name: Some(owned(api_name)),
                        room: opt_owned(api_room),
                        last_sync: now,
                    },
                );
                assert(api_map(e.device.api_info) =~= api_map(before).insert(
                    source,
                    spec_api_entry(Some(api_name@), opt_str_view(api_room), now),
                ));
                self.entries.insert(i, e);
                assert(self.entries@ =~= old_entries.update(i as int, e));
                proof {
                    lemma_update_entry(old_entries, i as int, e);
                }
            },
            Slot::Vacant(i) => {
                proof {
                    self.lemma_vacant_absent(device_id@, i as int);
                }
                let ghost old_entries = self.entries@;
                let e = DbEntry {
                    key: owned(device_id),
                    device: PersistedDevice::new_from_api_at(
                        device_id,
                        sku,
                        api_name,
                        api_room,
                        source,
                        now,
                    ),
                };
                self.entries.insert(i, e);
                proof {
                    lemma_insert_entry(old_entries, i as int, e);
                }
            },
        }
    }

    /// Update the database from an API-discovered device, synced now.
    pub fn update_from_api(
        &mut self,
        device_id: &str,
        sku: &str,
        api_name: &str,
        api_room: Option<&str>,
        source: DiscoverySource,
    )
        requires
            old(self).wf(),
        ensures
            final(self).wf(),
            final(self)@.version == old(self)@.version,
            exists|now: i64| final(self)@.devices == old(self)@.devices.insert(
                device_id@,
                if old(self)@.devices.contains_key(device_id@) {
                    spec_apply_api(
                        old(self)@.devices[device_id@],
                        sku@,
                        api_name@,
                        opt_str_view(api_room),
                        source,
                        now,
                    )
                } else {
                    spec_new_from_api(device_id@, sku@, api_name@, opt_str_view(api_room), source, now)
                },
            ),
    {
        let now = now_millis();
        self.update_from_api_at(device_id, sku, api_name, api_room, source, now);
    }

    /// Store `device` under `device_id`, replacing any device stored there.
    pub fn insert(&mut self, device_id: &str, device: PersistedDevice)
        requires
            old(self).wf(),
        ensures
            final(self).wf(),
            final(self)@.version == old(self)@.version,
            final(self)@.devices == old(self)@.devices.insert(device_id@, device@),
    {
        let id = chars_of(device_id);
        match self.find(&id) {
            Slot::Found(i) => {
                let ghost old_entries = self.entries@;
                let e = DbEntry { key: owned(device_id), device };
                let _ = self.entries.remove(i);
                self.entries.insert(i, e);
                assert(self.entries@ =~= old_entries.update(i as int, e));
                proof {
                    lemma_update_entry(old_entries, i as int, e);
                }
            },
            Slot::Vacant(i) => {
                let ghost old_entries = self.entries@;
                let e = DbEntry { key: owned(device_id), device };
                self.entries.insert(i, e);
                proof {
                    lemma_insert_entry(old_entries, i as int, e);
                }
            },
        }
    }

    /// Handle a LAN-discovered device seen at `now`: a known device gets its
    /// LAN entry refreshed, an unknown one is added with a name computed from
    /// its SKU and id. Returns the device.
    pub fn handle_lan_discovery_at(&mut self, device_id: &str, sku: &str, now: i64) -> (r: &PersistedDevice)
        requires
            old(self).wf(),
        ensures
            final(self).wf(),
            final(self)@.version == old(self)@.version,
            final(self)@.devices == old(self)@.devices.insert(
                device_id@,
                if old(self)@.devices.contains_key(device_id@) {
                    spec_apply_lan(old(self)@.devices[device_id@], now)
                } else {
                    spec_new_minimal(device_id@, sku@, DiscoverySource::Lan, now)
                },
            ),
            r@ == final(self)@.devices[device_id@],
    {
        let id = chars_of(device_id);
        let idx;
        match self.find(&id) {
            Slot::Found(i) => {
                proof {
                    lemma_entries_map_at(self.entries@, i as int);
                }
                let ghost old_entries = self.entries@;
                let mut e = self.entries.remove(i);
                let ghost before = e.device.api_info;
                e.device.api_info.insert(
                    DiscoverySource::Lan,
                    PersistedApiInfo { name: None, room: None, last_sync: now },
                );
                assert(api_map(e.device.api_info) =~= api_map(before).insert(
                    DiscoverySource::Lan,
                    spec_api_entry(None, None, now),
                ));
                self.entries.insert(i, e);
                assert(self.entries@ =~= old_entries.update(i as int, e));
                proof {
                    lemma_update_entry(old_entries, i as int, e);
                }
                idx = i;
            },
            Slot::Vacant(i) => {
                proof {
                    self.lemma_vacant_absent(device_id@, i as int);
                }
                let ghost old_entries = self.entries@;
                let e = DbEntry {
                    key: owned(device_id),
                    device: PersistedDevice::new_minimal_at(device_id, sku, DiscoverySource::Lan, now),
                };
                self.entries.insert(i, e);
                proof {
                    lemma_insert_entry(old_entries, i as int, e);
                }
                idx = i;
            },
        }
        proof {
            lemma_entries_map_at(self.entries@, idx as int);
        }
        &self.entries[idx].device
    }

    /// Handle a LAN-discovered device seen now.
    pub fn handle_lan_discovery(&mut self, device_id: &str, sku: &str) -> (r: &PersistedDevice)
        requires
            old(self).wf(),
        ensures
            final(self).wf(),
            final(self)@.version == old(self)@.version,
            exists|now: i64| final(self)@.devices == old(self)@.devices.insert(
                device_id@,
                if old(self)@.devices.contains_key(device_id@) {
                    spec_apply_lan(old(self)@.devices[device_id@], now)
                } else {
                    spec_new_minimal(device_id@, sku@, DiscoverySource::Lan, now)
                },
            ),
            r@ == final(self)@.devices[device_id@],
    {
        let now = now_millis();
        self.handle_lan_discovery_at(device_id, sku, now)
    }
}

/// LAN discovery of a known device never changes its name, room, SKU or first
/// sighting: the database, not the LAN, is the source of truth for naming.
pub proof fn lemma_lan_discovery_keeps_identity(d: DeviceView, now: i64)
    ensures
        spec_apply_lan(d, now).name == d.name,
        spec_apply_lan(d, now).room == d.room,
        spec_apply_lan(d, now).sku == d.sku,
        spec_apply_lan(d, now).id == d.id,
        spec_apply_lan(d, now).first_seen == d.first_seen,
        spec_apply_lan(d, now).api_info.contains_key(DiscoverySource::Lan),
        forall|s: DiscoverySource| s != DiscoverySource::Lan ==> spec_apply_lan(d, now).api_info.contains_key(s)
            == d.api_info.contains_key(s),
{
}

/// An API sync of a known device keeps the entries of the other sources, and
/// keeps the room when the API gives none.
pub proof fn lemma_api_update_enriches(
    d: DeviceView,
    sku: Seq<char>,
    name: Seq<char>,
    room: Option<Seq<char>>,
    source: DiscoverySource,
    now: i64,
)
    ensures
        forall|s: DiscoverySource|
            s != source && #[trigger] d.api_info.contains_key(s) ==> spec_apply_api(
                d,
                sku,
                name,
                room,
                source,
                now,
            ).api_info[s] == d.api_info[s],
        room is None ==> spec_apply_api(d, sku, name, room, source, now).room == d.room,
        spec_apply_api(d, sku, name, room, source, now).name == name,
        spec_apply_api(d, sku, name, room, source, now).first_seen == d.first_seen,
        spec_apply_api(d, sku, name, room, source, now).api_info.contains_key(source),
{
}

/// Determine the startup mode based on existing files.
#[derive(Clone, Copy, Debug, PartialEq, Eq, Structural)]
pub enum StartupMode {
    /// Fresh install: no device DB, no cache
    FreshInstall,
    /// Upgrading from old version: cache exists, no device DB
    Upgrade,
    /// Normal startup: device DB exists
    Normal,
}

impl StartupMode {
    /// Detect the startup mode from whether the device database file and the
    /// cache file exist.
    pub fn detect(has_device_db: bool, has_cache: bool) -> (r: Self)
        ensures
            r == (if has_device_db {
                StartupMode::Normal
            } else if has_cache {
                StartupMode::Upgrade
            } else {
                StartupMode::FreshInstall
            }),
    {
        match (has_device_db, has_cache) {
            (true, _) => StartupMode::Normal,
            (false, true) => StartupMode::Upgrade,
            (false, false) => StartupMode::FreshInstall,
        }
    }
}

} // verus!

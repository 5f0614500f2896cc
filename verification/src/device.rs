//! A device known to the bridge: its SKU and id, the names given to it in
//! the Govee app, and how it was reached on the LAN.

use vstd::prelude::*;
use crate::strings::{chars_of, string_of, owned};
use crate::device_database::{spec_byte_len, without_char, opt_view};
use crate::lan_api::{LanDevice, DeviceStatus, IpAddress};
use crate::clock::now_millis;

verus! {

/// A device known to the bridge.
pub struct Device {
    pub sku: String,
    pub id: String,
    /// Name assigned via the Govee App
    pub govee_name: Option<String>,
    /// The name of the group assigned in the Govee App
    pub room: Option<String>,
    /// The IP address as found via LAN discovery or other means
    pub ip_addr: Option<IpAddress>,
    /// Probed LAN device information
    pub lan_device: Option<LanDevice>,
    /// When the LAN information last changed, in milliseconds since the
    /// Unix epoch
    pub last_lan_device_update: Option<i64>,
    pub lan_device_status: Option<DeviceStatus>,
}

/// The id has a character boundary 18 bytes into its UTF-8 form, where the
/// last bytes of the device address start.
pub open spec fn has_name_suffix(id: Seq<char>) -> bool {
    exists|k: int| 0 <= k <= id.len() && spec_byte_len(id.take(k)) == 18
}

/// The part of the id from 18 bytes on.
pub open spec fn name_suffix(id: Seq<char>) -> Seq<char> {
    id.skip(choose|k: int| 0 <= k <= id.len() && spec_byte_len(id.take(k)) == 18)
}

/// The computed name: the SKU, an underscore and the id from byte 18 on,
/// all without colons.
pub open spec fn spec_computed_name(sku: Seq<char>, id: Seq<char>) -> Seq<char> {
    without_char(sku + "_"@ + name_suffix(id), ':')
}

/// `without_char` distributes over concatenation.
proof fn lemma_without_concat(a: Seq<char>, b: Seq<char>, x: char)
    ensures
        without_char(a + b, x) == without_char(a, x) + without_char(b, x),
    decreases b.len(),
{
    if b.len() == 0 {
        assert(a + b =~= a);
        assert(without_char(a, x) + without_char(b, x) =~= without_char(a, x));
    } else {
        assert((a + b).drop_last() =~= a + b.drop_last());
        lemma_without_concat(a, b.drop_last(), x);
        if b.last() == x {
        } else {
            assert(without_char(a, x) + without_char(b, x) =~= (without_char(a, x) + without_char(b.drop_last(), x)).push(b.last()));
        }
    }
}

/// Longer prefixes have more bytes.
proof fn lemma_prefix_bytes_grow(n: Seq<char>, k1: int, k2: int)
    requires
        0 <= k1 < k2 <= n.len(),
    ensures
        spec_byte_len(n.take(k1)) < spec_byte_len(n.take(k2)),
    decreases k2 - k1,
{
    assert(n.take(k2).drop_last() =~= n.take(k2 - 1));
    if k1 < k2 - 1 {
        lemma_prefix_bytes_grow(n, k1, k2 - 1);
    }
}

/// The characters of `s` without the occurrences of `x`.
pub fn drop_char(s: &Vec<char>, x: char) -> (r: Vec<char>)
    ensures
        r@ == without_char(s@, x),
{
    let mut r: Vec<char> = Vec::new();
    let mut i: usize = 0;
    while i < s.len()
        invariant
            i <= s.len(),
            r@ == without_char(s@.take(i as int), x),
        decreases s.len() - i,
    {
        assert(s@.take(i + 1).drop_last() =~= s@.take(i as int));
        if s[i] != x {
            r.push(s[i]);
        }
        i = i + 1;
    }
    assert(s@.take(s.len() as int) =~= s@);
    r
}

impl Device {
    /// Create a new device given just its sku and id.
    /// No other facts are known or reflected by it at this time;
    /// they will need to be added by the caller.
    pub fn new(sku: &str, id: &str) -> (r: Self)
        ensures
            r.sku@ == sku@,
            r.id@ == id@,
            r.govee_name is None,
            r.room is None,
            r.ip_addr is None,
            r.lan_device is None,
            r.last_lan_device_update is None,
            r.lan_device_status is None,
    {
        Device {
            sku: owned(sku),
            id: owned(id),
            govee_name: None,
            room: None,
            ip_addr: None,
            lan_device: None,
            last_lan_device_update: None,
            lan_device_status: None,
        }
    }

    /// The name computed from the SKU and the last bytes of the id, as a BLE
    /// scan or the Govee app would show an unnamed device.
    pub fn computed_name(&self) -> (r: String)
        requires
            has_name_suffix(self.id@),
        ensures
            r@ == spec_computed_name(self.sku@, self.id@),
    {
        let id = chars_of(self.id.as_str());
        let ghost ids = id@;
        let mut acc: u128 = 0;
        let mut k: usize = 0;
        proof {
            let w = choose|k: int| 0 <= k <= ids.len() && spec_byte_len(ids.take(k)) == 18;
            assert(ids.take(0) =~= Seq::<char>::empty());
            if w > 0 {
                lemma_prefix_bytes_grow(ids, 0, w);
            }
        }
        while acc != 18
            invariant
                id@ == ids,
                ids == self.id@,
                has_name_suffix(ids),
                k <= ids.len(),
                acc == spec_byte_len(ids.take(k as int)),
                acc < 18 || acc == 18,
                forall|j: int| 0 <= j <= k && j <= ids.len() && spec_byte_len(ids.take(j)) == 18 ==> j == k,
                forall|w: int| 0 <= w <= ids.len() && spec_byte_len(ids.take(w)) == 18 ==> k <= w,
            decreases ids.len() - k,
        {
            proof {
                let w = choose|w: int| 0 <= w <= ids.len() && spec_byte_len(ids.take(w)) == 18;
                assert(k < w) by {
                    if k >= w {}
                }
                assert(ids.take(k + 1).drop_last() =~= ids.take(k as int));
                if k + 1 < w {
                    lemma_prefix_bytes_grow(ids, k + 1, w);
                }
                assert forall|w2: int| 0 <= w2 <= ids.len() && spec_byte_len(ids.take(w2)) == 18 implies k + 1 <= w2 by {
                    if w2 <= k {}
                }
            }
            assert(k < id.len());
            acc = acc + crate::device_database::utf8_len(id[k]) as u128;
            k = k + 1;
        }
        proof {
            let w = choose|w: int| 0 <= w <= ids.len() && spec_byte_len(ids.take(w)) == 18;
            if w > k {
                lemma_prefix_bytes_grow(ids, k as int, w);
            }
            assert(w == k);
        }
        let tail = crate::strings::copy_range(&id, k, id.len());
        assert(tail@ =~= ids.skip(k as int));
        let mut head = chars_of(self.sku.as_str());
        head.push('_');
        proof {
            crate::strings::lemma_underscore();
        }
        assert(head@ =~= self.sku@ + "_"@);
        let whole = crate::strings::concat_chars(&head, &tail);
        let out = drop_char(&whole, ':');
        string_of(&out)
    }

    /// The device name: the name set in the Govee app, else the computed
    /// name.
    pub fn name(&self) -> (r: String)
        requires
            self.govee_name is None ==> has_name_suffix(self.id@),
        ensures
            r@ == match self.govee_name {
                Some(n) => n@,
                None => spec_computed_name(self.sku@, self.id@),
            },
    {
        match &self.govee_name {
            Some(name) => owned(name.as_str()),
            None => self.computed_name(),
        }
    }

    /// Sets the assigned name.
    pub fn set_govee_name(&mut self, name: &str)
        ensures
            opt_view(final(self).govee_name) == Some(name@),
            final(self).sku == old(self).sku,
            final(self).id == old(self).id,
            final(self).room == old(self).room,
    {
        self.govee_name = Some(owned(name));
    }

    /// Sets the room.
    pub fn set_room(&mut self, room: &str)
        ensures
            opt_view(final(self).room) == Some(room@),
            final(self).sku == old(self).sku,
            final(self).id == old(self).id,
            final(self).govee_name == old(self).govee_name,
    {
        self.room = Some(owned(room));
    }

    /// Sets the IP address.
    pub fn set_ip_addr(&mut self, ip_addr: IpAddress)
        ensures
            final(self).ip_addr == Some(ip_addr),
            final(self).sku == old(self).sku,
            final(self).id == old(self).id,
    {
        self.ip_addr = Some(ip_addr);
    }

    /// Records the LAN device information, received at `now`.
    pub fn set_lan_device_at(&mut self, device: LanDevice, now: i64)
        ensures
            final(self).lan_device == Some(device),
            final(self).last_lan_device_update == Some(now),
            final(self).sku == old(self).sku,
            final(self).id == old(self).id,
            final(self).lan_device_status == old(self).lan_device_status,
    {
        self.lan_device = Some(device);
        self.last_lan_device_update = Some(now);
    }

    /// Records the LAN device information, received now.
    pub fn set_lan_device(&mut self, device: LanDevice)
        ensures
            final(self).lan_device == Some(device),
            final(self).last_lan_device_update is Some,
            final(self).sku == old(self).sku,
            final(self).id == old(self).id,
    {
        let now = now_millis();
        self.set_lan_device_at(device, now);
    }

    /// Records the LAN device status, received at `now`.
    pub fn set_lan_device_status_at(&mut self, status: DeviceStatus, now: i64)
        ensures
            final(self).lan_device_status == Some(status),
            final(self).last_lan_device_update == Some(now),
            final(self).sku == old(self).sku,
            final(self).id == old(self).id,
            final(self).lan_device == old(self).lan_device,
    {
        self.lan_device_status = Some(status);
        self.last_lan_device_update = Some(now);
    }

    /// Records the LAN device status, received now.
    pub fn set_lan_device_status(&mut self, status: DeviceStatus)
        ensures
            final(self).lan_device_status == Some(status),
            final(self).last_lan_device_update is Some,
            final(self).sku == old(self).sku,
            final(self).id == old(self).id,
    {
        let now = now_millis();
        self.set_lan_device_status_at(status, now);
    }
}

} // verus!

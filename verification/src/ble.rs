//! Govee BLE packets: 20-byte frames whose last byte is the XOR checksum of
//! the bytes before it.

use vstd::prelude::*;
use crate::strings::{str_eq, owned};

verus! {

/// Declares the error type of `data_encoding`'s decoder.
#[verifier::external_type_specification]
#[verifier::external_body]
pub struct ExDecodeError(data_encoding::DecodeError);

/// What `data_encoding::BASE64.decode` yields for the given text: the bytes,
/// or `None` when the text is not valid padded base64.
pub uninterp spec fn spec_base64_decode(text: Seq<char>) -> Option<Seq<u8>>;

/// What `data_encoding::BASE64.encode` yields for the given bytes.
pub uninterp spec fn spec_base64_encode(bytes: Seq<u8>) -> Seq<char>;

/// Decodes standard padded base64 with `data_encoding::BASE64.decode`.
/// The contract claims only that the outcome is the one named by
/// `spec_base64_decode` for the text.
#[verifier::external_body]
pub(crate) fn base64_decode(text: &str) -> (res: Result<Vec<u8>, data_encoding::DecodeError>)
    ensures
        res is Ok <==> spec_base64_decode(text@) is Some,
        res matches Ok(bytes) ==> spec_base64_decode(text@) == Some(bytes@),
{
    data_encoding::BASE64.decode(text.as_bytes())
}

/// Encodes bytes as standard padded base64 with `data_encoding::BASE64.encode`.
/// The contract claims that the result is the one named by
/// `spec_base64_encode`, and that decoding it gives the bytes back, as the
/// crate documents for this canonical encoding.
#[verifier::external_body]
pub(crate) fn base64_encode(bytes: &[u8]) -> (res: String)
    ensures
        res@ == spec_base64_encode(bytes@),
        spec_base64_decode(res@) == Some(bytes@),
{
    data_encoding::BASE64.encode(bytes)
}

/// Raw packet bytes.
#[derive(Clone, Debug, PartialEq, Eq)]
pub struct HexBytes(pub Vec<u8>);

/// Parameters of the humidifier night light.
#[derive(Clone, Copy, Debug, PartialEq, Eq, Default)]
pub struct HumidifierNightlightParams {
    pub on: bool,
    pub r: u8,
    pub g: u8,
    pub b: u8,
    pub brightness: u8,
}

/// Data is offset by 128 with increments of 1%,
/// so 0% is 128, 100% is 228%
#[derive(Debug, Clone, Copy, PartialEq, Eq)]
pub struct TargetHumidity(u8);

impl TargetHumidity {
    /// The raw byte.
    pub closed spec fn raw(self) -> u8 {
        self.0
    }

    /// The humidity in percent.
    pub fn as_percent(&self) -> (r: u8)
        requires
            self.raw() >= 128,
        ensures
            r == self.raw() - 128,
    {
        self.0 - 128
    }

    /// The raw byte.
    pub fn into_inner(self) -> (r: u8)
        ensures
            r == self.raw(),
    {
        self.0
    }

    /// The raw byte for a humidity in percent.
    pub fn from_percent(percent: u8) -> (r: Self)
        requires
            percent <= 127,
        ensures
            r.raw() == percent + 128,
            r == spec_from_percent(percent),
    {
        Self(percent + 128)
    }

    /// The target with the given raw byte.
    pub fn from_raw(raw: u8) -> (r: Self)
        ensures
            r.raw() == raw,
    {
        Self(raw)
    }
}

/// The target for a humidity in percent: the percentage plus 128.
pub closed spec fn spec_from_percent(percent: u8) -> TargetHumidity {
    TargetHumidity((percent + 128) as u8)
}

/// Percent and target convert back and forth: a target whose byte is at
/// least 128 is the target of its percentage, and a percentage of at most
/// 127 is the percentage of its target.
pub proof fn lemma_target_humidity_round_trip(t: TargetHumidity, p: u8)
    ensures
        t.raw() >= 128 ==> spec_from_percent((t.raw() - 128) as u8) == t,
        p <= 127 ==> spec_from_percent(p).raw() >= 128 && spec_from_percent(p).raw() - 128 == p,
{
}

/// A humidifier mode and its parameter.
#[derive(Clone, Copy, Default, Debug, PartialEq, Eq)]
pub struct HumidifierMode {
    pub mode: u8,
    pub param: u8,
}

/// A decoded BLE packet.
#[derive(Clone, Debug, PartialEq, Eq)]
pub enum GoveeBlePacket {
    Generic(HexBytes),
    SetSceneCode(u16),
    SetPower(bool),
    SetHumidifierNightlight(HumidifierNightlightParams),
    NotifyHumidifierMode(HumidifierMode),
    SetHumidifierMode(HumidifierMode),
    NotifyHumidifierTimer { on: bool },
    NotifyHumidifierAutoMode { param: TargetHumidity },
    NotifyHumidifierManualMode { param: u8 },
    NotifyHumidifierNightlight(HumidifierNightlightParams),
}

/// The mathematical content of a `GoveeBlePacket`.
pub enum PacketView {
    Generic(Seq<u8>),
    SetSceneCode(u16),
    SetPower(bool),
    SetHumidifierNightlight(HumidifierNightlightParams),
    NotifyHumidifierMode(HumidifierMode),
    SetHumidifierMode(HumidifierMode),
    NotifyHumidifierTimer { on: bool },
    NotifyHumidifierAutoMode { param: u8 },
    NotifyHumidifierManualMode { param: u8 },
    NotifyHumidifierNightlight(HumidifierNightlightParams),
}

impl View for GoveeBlePacket {
    type V = PacketView;

    open spec fn view(&self) -> PacketView {
        match self {
            GoveeBlePacket::Generic(h) => PacketView::Generic(h.0@),
            GoveeBlePacket::SetSceneCode(c) => PacketView::SetSceneCode(*c),
            GoveeBlePacket::SetPower(on) => PacketView::SetPower(*on),
            GoveeBlePacket::SetHumidifierNightlight(p) => PacketView::SetHumidifierNightlight(*p),
            GoveeBlePacket::NotifyHumidifierMode(m) => PacketView::NotifyHumidifierMode(*m),
            GoveeBlePacket::SetHumidifierMode(m) => PacketView::SetHumidifierMode(*m),
            GoveeBlePacket::NotifyHumidifierTimer { on } => PacketView::NotifyHumidifierTimer {
                on: *on,
            },
            GoveeBlePacket::NotifyHumidifierAutoMode { param } =>
                PacketView::NotifyHumidifierAutoMode { param: param.raw() },
            GoveeBlePacket::NotifyHumidifierManualMode { param } =>
                PacketView::NotifyHumidifierManualMode { param: *param },
            GoveeBlePacket::NotifyHumidifierNightlight(p) => PacketView::NotifyHumidifierNightlight(
                *p,
            ),
        }
    }
}

/// Why a packet could not be decoded.
#[derive(Clone, Copy, Debug, PartialEq, Eq)]
pub enum PacketError {
    /// The last byte is not the XOR of the bytes before it.
    InvalidChecksum { expected: u8, actual: u8 },
    /// The text is not valid base64.
    InvalidBase64,
}

/// The XOR of all bytes of `s`.
pub open spec fn xor_all(s: Seq<u8>) -> u8
    decreases s.len(),
{
    if s.len() == 0 {
        0
    } else {
        xor_all(s.drop_last()) ^ s.last()
    }
}

/// `n` zero bytes.
pub open spec fn zeros(n: nat) -> Seq<u8> {
    Seq::new(n, |i: int| 0u8)
}

/// The body of a frame: `s` cut or zero-padded to 19 bytes.
pub open spec fn frame_body(s: Seq<u8>) -> Seq<u8> {
    if s.len() <= 19 {
        s + zeros((19 - s.len()) as nat)
    } else {
        s.take(19)
    }
}

/// A frame: the body followed by the checksum of `s`.
pub open spec fn spec_finish(s: Seq<u8>) -> Seq<u8> {
    frame_body(s).push(xor_all(s))
}

/// `1` for true, `0` for false.
pub open spec fn spec_btoi(on: bool) -> u8 {
    if on {
        1
    } else {
        0
    }
}

/// The bytes that encode a packet.
pub open spec fn spec_packet_bytes(p: PacketView) -> Seq<u8> {
    match p {
        PacketView::Generic(v) => v,
        PacketView::SetSceneCode(code) => spec_finish(
            seq![0x33u8, 0x05u8, 0x04u8, (code % 256) as u8, (code / 256) as u8],
        ),
        PacketView::SetPower(on) => spec_finish(seq![0x33u8, 0x01u8, spec_btoi(on)]),
        PacketView::SetHumidifierNightlight(n) => spec_finish(
            seq![0x33u8, 0x1bu8, spec_btoi(n.on), n.brightness, n.r, n.g, n.b],
        ),
        PacketView::NotifyHumidifierNightlight(n) => spec_finish(
            seq![0xaau8, 0x1bu8, spec_btoi(n.on), n.brightness, n.r, n.g, n.b],
        ),
        PacketView::NotifyHumidifierMode(m) => spec_finish(
            seq![0xaau8, 0x05u8, 0x00u8, m.mode, m.param],
        ),
        PacketView::SetHumidifierMode(m) => spec_finish(seq![0x33u8, 0x05u8, m.mode, m.param]),
        PacketView::NotifyHumidifierAutoMode { param } => spec_finish(
            seq![0xaau8, 0x05u8, 0x03u8, param],
        ),
        PacketView::NotifyHumidifierManualMode { param } => spec_finish(
            seq![0xaau8, 0x05u8, 0x01u8, param],
        ),
        PacketView::NotifyHumidifierTimer { on } => spec_finish(seq![0xaau8, 0x11u8, spec_btoi(on)]),
    }
}

/// All bytes of `b` from `start` on are zero.
pub open spec fn zero_from(b: Seq<u8>, start: int) -> bool {
    forall|i: int| start <= i < b.len() ==> b[i] == 0
}

/// `b` is a 19-byte body that starts with the bytes `head` and is zero after
/// `used` bytes.
pub open spec fn body_shape(b: Seq<u8>, head: Seq<u8>, used: int) -> bool {
    &&& b.len() == 19
    &&& head.len() <= used
    &&& b.take(head.len() as int) == head
    &&& zero_from(b, used)
}

/// The packet that a checksummed frame `data` decodes to; the patterns are
/// tried in this order and the first that fits wins.
pub open spec fn spec_decode_frame(data: Seq<u8>) -> PacketView {
    let b = data.drop_last();
    if body_shape(b, seq![0x33u8, 0x01u8], 3) {
        PacketView::SetPower(b[2] != 0)
    } else if body_shape(b, seq![0x33u8, 0x05u8, 0x04u8], 5) {
        PacketView::SetSceneCode((b[4] * 256 + b[3]) as u16)
    } else if body_shape(b, seq![0x33u8, 0x1bu8], 7) {
        PacketView::SetHumidifierNightlight(
            HumidifierNightlightParams { on: b[2] != 0, r: b[4], g: b[5], b: b[6], brightness: b[3] },
        )
    } else if body_shape(b, seq![0xaau8, 0x1bu8], 7) {
        PacketView::NotifyHumidifierNightlight(
            HumidifierNightlightParams { on: b[2] != 0, r: b[4], g: b[5], b: b[6], brightness: b[3] },
        )
    } else if body_shape(b, seq![0x33u8, 0x05u8], 4) {
        PacketView::SetHumidifierMode(HumidifierMode { mode: b[2], param: b[3] })
    } else if body_shape(b, seq![0xaau8, 0x05u8, 0x00u8], 5) {
        PacketView::NotifyHumidifierMode(HumidifierMode { mode: b[3], param: b[4] })
    } else if body_shape(b, seq![0xaau8, 0x11u8], 3) {
        PacketView::NotifyHumidifierTimer { on: b[2] != 0 }
    } else if body_shape(b, seq![0xaau8, 0x05u8, 0x03u8], 4) {
        PacketView::NotifyHumidifierAutoMode { param: b[3] }
    } else if body_shape(b, seq![0xaau8, 0x05u8, 0x01u8], 4) {
        PacketView::NotifyHumidifierManualMode { param: b[3] }
    } else {
        PacketView::Generic(data)
    }
}

/// What `parse_bytes` yields for `data`.
pub open spec fn spec_parse_bytes(data: Seq<u8>) -> Result<PacketView, PacketError> {
    if data.len() == 0 {
        Ok(PacketView::Generic(Seq::empty()))
    } else if xor_all(data.drop_last()) != data.last() {
        Err(PacketError::InvalidChecksum { expected: data.last(), actual: xor_all(data.drop_last()) })
    } else {
        Ok(spec_decode_frame(data))
    }
}

/// The XOR checksum of `data`.
pub fn calculate_checksum(data: &[u8]) -> (checksum: u8)
    ensures
        checksum == xor_all(data@),
{
    let mut checksum: u8 = 0;
    let mut i: usize = 0;
    while i < data.len()
        invariant
            i <= data.len(),
            checksum == xor_all(data@.take(i as int)),
        decreases data.len() - i,
    {
        assert(data@.take(i + 1).drop_last() == data@.take(i as int));
        checksum = checksum ^ data[i];
        i = i + 1;
    }
    assert(data@.take(data.len() as int) == data@);
    checksum
}

/// Cuts or zero-pads `data` to 19 bytes and appends the checksum of `data`.
pub fn finish(data: Vec<u8>) -> (r: Vec<u8>)
    ensures
        r@ == spec_finish(data@),
{
    let mut data = data;
    let ghost orig = data@;
    let checksum = calculate_checksum(data.as_slice());
    if data.len() > 19 {
        data.truncate(19);
    } else {
        while data.len() < 19
            invariant
                orig.len() <= 19,
                data@.len() <= 19,
                data@ == orig + zeros((data@.len() - orig.len()) as nat),
            decreases 19 - data@.len(),
        {
            let ghost before = data@;
            data.push(0);
            assert(data@ =~= orig + zeros((data@.len() - orig.len()) as nat));
        }
    }
    assert(data@ =~= frame_body(orig));
    data.push(checksum);
    data
}

/// `1` for true, `0` for false.
pub fn btoi(on: bool) -> (r: u8)
    ensures
        r == spec_btoi(on),
{
    if on {
        1
    } else {
        0
    }
}

/// Whether a byte is non-zero.
pub fn itob(i: &u8) -> (r: bool)
    ensures
        r == (*i != 0),
{
    *i != 0
}

/// All bytes of `b` from `start` on are zero.
fn zero_from_exec(b: &[u8], start: usize) -> (r: bool)
    ensures
        r == zero_from(b@, start as int),
{
    let mut i = start;
    while i < b.len()
        invariant
            start <= i || i >= b.len(),
            forall|j: int| start <= j < i && j < b.len() ==> b@[j] == 0,
        decreases b.len() - i,
    {
        if b[i] != 0 {
            return false;
        }
        i = i + 1;
    }
    true
}

/// `b` has the shape named by `body_shape` for the head `head`.
fn body_shape_exec(b: &[u8], head: &[u8], used: usize) -> (r: bool)
    requires
        head@.len() <= used,
        used <= 19,
    ensures
        r == body_shape(b@, head@, used as int),
{
    if b.len() != 19 {
        return false;
    }
    let mut i: usize = 0;
    while i < head.len()
        invariant
            i <= head.len(),
            head.len() <= 19,
            b@.len() == 19,
            forall|j: int| 0 <= j < i ==> b@[j] == head@[j],
        decreases head.len() - i,
    {
        if b[i] != head[i] {
            assert(b@.take(head@.len() as int)[i as int] != head@[i as int]);
            return false;
        }
        i = i + 1;
    }
    assert(b@.take(head@.len() as int) =~= head@);
    zero_from_exec(b, used)
}

impl GoveeBlePacket {
    /// The bytes that encode this packet.
    pub fn into_vec(self) -> (r: Vec<u8>)
        ensures
            r@ == spec_packet_bytes(self@),
    {
        match self {
            GoveeBlePacket::Generic(HexBytes(v)) => v,
            GoveeBlePacket::SetSceneCode(code) => {
                let lo = (code % 256) as u8;
                let hi = (code / 256) as u8;
                finish(vec![0x33, 0x05, 0x04, lo, hi])
            },
            GoveeBlePacket::SetPower(on) => finish(vec![0x33, 0x01, btoi(on)]),
            GoveeBlePacket::SetHumidifierNightlight(n) => finish(
                vec![0x33, 0x1b, btoi(n.on), n.brightness, n.r, n.g, n.b],
            ),
            GoveeBlePacket::NotifyHumidifierNightlight(n) => finish(
                vec![0xaa, 0x1b, btoi(n.on), n.brightness, n.r, n.g, n.b],
            ),
            GoveeBlePacket::NotifyHumidifierMode(m) => finish(
                vec![0xaa, 0x05, 0x0, m.mode, m.param],
            ),
            GoveeBlePacket::SetHumidifierMode(m) => finish(vec![0x33, 0x05, m.mode, m.param]),
            GoveeBlePacket::NotifyHumidifierAutoMode { param } => finish(
                vec![0xaa, 0x05, 0x03, param.into_inner()],
            ),
            GoveeBlePacket::NotifyHumidifierManualMode { param } => finish(
                vec![0xaa, 0x05, 0x01, param],
            ),
            GoveeBlePacket::NotifyHumidifierTimer { on } => finish(vec![0xaa, 0x11, btoi(on)]),
        }
    }
    /// Decodes a checksummed frame.
    pub fn parse_bytes(data: &[u8]) -> (r: Result<Self, PacketError>)
        ensures
            r matches Ok(p) ==> spec_parse_bytes(data@) == Ok::<PacketView, PacketError>(p@),
            r matches Err(e) ==> spec_parse_bytes(data@) == Err::<PacketView, PacketError>(e),
    {
        if data.len() == 0 {
            let r = GoveeBlePacket::Generic(HexBytes(Vec::new()));
            assert(r@ == PacketView::Generic(Seq::<u8>::empty()));
            return Ok(r);
        }
        let n = data.len() - 1;
        let b = &data[0..n];
        assert(b@ == data@.drop_last());
        let checksum = calculate_checksum(b);
        let cs_byte = data[n];
        if checksum != cs_byte {
            return Err(PacketError::InvalidChecksum { expected: cs_byte, actual: checksum });
        }
        if body_shape_exec(b, &[0x33u8, 0x01u8], 3) {
            Ok(GoveeBlePacket::SetPower(itob(&b[2])))
        } else if body_shape_exec(b, &[0x33u8, 0x05u8, 0x04u8], 5) {
            Ok(GoveeBlePacket::SetSceneCode((b[4] as u16) * 256 + (b[3] as u16)))
        } else if body_shape_exec(b, &[0x33u8, 0x1bu8], 7) {
            Ok(
                GoveeBlePacket::SetHumidifierNightlight(
                    HumidifierNightlightParams {
                        on: itob(&b[2]),
                        r: b[4],
                        g: b[5],
                        b: b[6],
                        brightness: b[3],
                    },
                ),
            )
        } else if body_shape_exec(b, &[0xaau8, 0x1bu8], 7) {
            Ok(
                GoveeBlePacket::NotifyHumidifierNightlight(
                    HumidifierNightlightParams {
                        on: itob(&b[2]),
                        r: b[4],
                        g: b[5],
                        b: b[6],
                        brightness: b[3],
                    },
                ),
            )
        } else if body_shape_exec(b, &[0x33u8, 0x05u8], 4) {
            Ok(GoveeBlePacket::SetHumidifierMode(HumidifierMode { mode: b[2], param: b[3] }))
        } else if body_shape_exec(b, &[0xaau8, 0x05u8, 0x00u8], 5) {
            Ok(GoveeBlePacket::NotifyHumidifierMode(HumidifierMode { mode: b[3], param: b[4] }))
        } else if body_shape_exec(b, &[0xaau8, 0x11u8], 3) {
            Ok(GoveeBlePacket::NotifyHumidifierTimer { on: itob(&b[2]) })
        } else if body_shape_exec(b, &[0xaau8, 0x05u8, 0x03u8], 4) {
            Ok(GoveeBlePacket::NotifyHumidifierAutoMode { param: TargetHumidity::from_raw(b[3]) })
        } else if body_shape_exec(b, &[0xaau8, 0x05u8, 0x01u8], 4) {
            Ok(GoveeBlePacket::NotifyHumidifierManualMode { param: b[3] })
        } else {
            Ok(GoveeBlePacket::Generic(HexBytes(vstd::slice::slice_to_vec(data))))
        }
    }

    /// Decodes a base64-encoded frame.
    pub fn parse_base64(encoded: &str) -> (r: Result<Self, PacketError>)
        ensures
            spec_base64_decode(encoded@) is None ==> r == Err::<Self, PacketError>(
                PacketError::InvalidBase64,
            ),
            spec_base64_decode(encoded@) matches Some(bytes) ==> {
                &&& r matches Ok(p) ==> spec_parse_bytes(bytes) == Ok::<PacketView, PacketError>(p@)
                &&& r matches Err(e) ==> spec_parse_bytes(bytes) == Err::<PacketView, PacketError>(e)
            },
    {
        match base64_decode(encoded) {
            Ok(bytes) => Self::parse_bytes(bytes.as_slice()),
            Err(_) => Err(PacketError::InvalidBase64),
        }
    }

    /// The base64 text of the bytes that encode this packet.
    pub fn base64(self) -> (r: String)
        ensures
            r@ == spec_base64_encode(spec_packet_bytes(self@)),
            spec_base64_decode(r@) == Some(spec_packet_bytes(self@)),
    {
        let bytes = self.into_vec();
        base64_encode(bytes.as_slice())
    }

    /// A generic packet holding `bytes` framed with a checksum.
    pub fn with_bytes(bytes: Vec<u8>) -> (r: Self)
        ensures
            r@ == PacketView::Generic(spec_finish(bytes@)),
    {
        GoveeBlePacket::Generic(HexBytes(finish(bytes)))
    }
}

/// Zero bytes do not change the XOR checksum.
pub proof fn lemma_xor_zeros(s: Seq<u8>, n: nat)
    ensures
        xor_all(s + zeros(n)) == xor_all(s),
    decreases n,
{
    if n > 0 {
        let t = s + zeros(n);
        assert(t.drop_last() =~= s + zeros((n - 1) as nat));
        lemma_xor_zeros(s, (n - 1) as nat);
        let x = xor_all(s);
        assert(x ^ 0u8 == x) by (bit_vector);
    } else {
        assert(s + zeros(0) =~= s);
    }
}

/// A frame built from a head of at most 19 bytes carries a valid checksum and
/// its body is the head followed by zeros.
proof fn lemma_frame_of_head(h: Seq<u8>)
    requires
        h.len() <= 19,
    ensures
        spec_finish(h).drop_last() == h + zeros((19 - h.len()) as nat),
        spec_finish(h).len() == 20,
        xor_all(spec_finish(h).drop_last()) == spec_finish(h).last(),
        body_shape(spec_finish(h).drop_last(), h, h.len() as int),
{
    lemma_xor_zeros(h, (19 - h.len()) as nat);
    let b = h + zeros((19 - h.len()) as nat);
    assert(spec_finish(h).drop_last() =~= b);
    assert(b.take(h.len() as int) =~= h);
}

/// The packets whose encoding decodes back to the very same packet: every
/// packet but raw bytes, and but a humidifier mode change to mode 4, whose
/// frame reads as a scene-code frame.
pub open spec fn decodes_to_itself(p: PacketView) -> bool {
    &&& !(p is Generic)
    &&& !(p matches PacketView::SetHumidifierMode(m) && m.mode == 4)
}

/// Encoding a packet and decoding the frame gives the packet back, for
/// every packet named by `decodes_to_itself`.
pub proof fn lemma_encode_decode_round_trip(p: PacketView)
    requires
        decodes_to_itself(p),
    ensures
        spec_parse_bytes(spec_packet_bytes(p)) == Ok::<PacketView, PacketError>(p),
{
    let data = spec_packet_bytes(p);
    match p {
        PacketView::SetSceneCode(code) => {
            let h = seq![0x33u8, 0x05u8, 0x04u8, (code % 256) as u8, (code / 256) as u8];
            lemma_frame_of_head(h);
            let b = data.drop_last();
            assert(b[1] != 0x01u8);
            assert(b.take(2) != seq![0x33u8, 0x01u8]);
            assert(b[3] == (code % 256) as u8 && b[4] == (code / 256) as u8);
            assert((code % 256) as u8 == code % 256);
            assert((code / 256) as u8 == code / 256);
            assert(b[4] * 256 + b[3] == code);
            assert(b.take(3) =~= seq![0x33u8, 0x05u8, 0x04u8]);
        },
        PacketView::SetPower(on) => {
            let h = seq![0x33u8, 0x01u8, spec_btoi(on)];
            lemma_frame_of_head(h);
            assert(data.drop_last().take(2) =~= seq![0x33u8, 0x01u8]);
        },
        PacketView::SetHumidifierNightlight(n) => {
            let h = seq![0x33u8, 0x1bu8, spec_btoi(n.on), n.brightness, n.r, n.g, n.b];
            lemma_frame_of_head(h);
            let b = data.drop_last();
            assert(b[1] == 0x1bu8);
            assert(b.take(2) != seq![0x33u8, 0x01u8]);
            assert(b.take(3) != seq![0x33u8, 0x05u8, 0x04u8]);
            assert(b.take(2) =~= seq![0x33u8, 0x1bu8]);
        },
        PacketView::NotifyHumidifierNightlight(n) => {
            let h = seq![0xaau8, 0x1bu8, spec_btoi(n.on), n.brightness, n.r, n.g, n.b];
            lemma_frame_of_head(h);
            let b = data.drop_last();
            assert(b[0] == 0xaau8);
            assert(b.take(2) != seq![0x33u8, 0x01u8]);
            assert(b.take(3) != seq![0x33u8, 0x05u8, 0x04u8]);
            assert(b.take(2) != seq![0x33u8, 0x1bu8]);
            assert(b.take(2) =~= seq![0xaau8, 0x1bu8]);
        },
        PacketView::NotifyHumidifierMode(m) => {
            let h = seq![0xaau8, 0x05u8, 0x00u8, m.mode, m.param];
            lemma_frame_of_head(h);
            let b = data.drop_last();
            assert(b[0] == 0xaau8 && b[1] == 0x05u8);
            assert(b.take(2) != seq![0x33u8, 0x01u8]);
            assert(b.take(3) != seq![0x33u8, 0x05u8, 0x04u8]);
            assert(b.take(2) != seq![0x33u8, 0x1bu8]);
            assert(b.take(2) != seq![0xaau8, 0x1bu8]);
            assert(b.take(2) != seq![0x33u8, 0x05u8]);
            assert(b.take(3) =~= seq![0xaau8, 0x05u8, 0x00u8]);
        },
        PacketView::SetHumidifierMode(m) => {
            let h = seq![0x33u8, 0x05u8, m.mode, m.param];
            lemma_frame_of_head(h);
            let b = data.drop_last();
            assert(b[1] == 0x05u8 && b[2] == m.mode);
            assert(b.take(2) != seq![0x33u8, 0x01u8]);
            assert(b.take(3) != seq![0x33u8, 0x05u8, 0x04u8]);
            assert(b.take(2) != seq![0x33u8, 0x1bu8]);
            assert(b.take(2) != seq![0xaau8, 0x1bu8]);
            assert(b.take(2) =~= seq![0x33u8, 0x05u8]);
        },
        PacketView::NotifyHumidifierAutoMode { param } => {
            let h = seq![0xaau8, 0x05u8, 0x03u8, param];
            lemma_frame_of_head(h);
            let b = data.drop_last();
            assert(b[0] == 0xaau8 && b[1] == 0x05u8 && b[2] == 0x03u8);
            assert(b.take(2) != seq![0x33u8, 0x01u8]);
            assert(b.take(3) != seq![0x33u8, 0x05u8, 0x04u8]);
            assert(b.take(2) != seq![0x33u8, 0x1bu8]);
            assert(b.take(2) != seq![0xaau8, 0x1bu8]);
            assert(b.take(2) != seq![0x33u8, 0x05u8]);
            assert(b.take(3) != seq![0xaau8, 0x05u8, 0x00u8]);
            assert(b.take(2) != seq![0xaau8, 0x11u8]);
            assert(b.take(3) =~= seq![0xaau8, 0x05u8, 0x03u8]);
        },
        PacketView::NotifyHumidifierManualMode { param } => {
            let h = seq![0xaau8, 0x05u8, 0x01u8, param];
            lemma_frame_of_head(h);
            let b = data.drop_last();
            assert(b[0] == 0xaau8 && b[1] == 0x05u8 && b[2] == 0x01u8);
            assert(b.take(2) != seq![0x33u8, 0x01u8]);
            assert(b.take(3) != seq![0x33u8, 0x05u8, 0x04u8]);
            assert(b.take(2) != seq![0x33u8, 0x1bu8]);
            assert(b.take(2) != seq![0xaau8, 0x1bu8]);
            assert(b.take(2) != seq![0x33u8, 0x05u8]);
            assert(b.take(3) != seq![0xaau8, 0x05u8, 0x00u8]);
            assert(b.take(2) != seq![0xaau8, 0x11u8]);
            assert(b.take(3) != seq![0xaau8, 0x05u8, 0x03u8]);
            assert(b.take(3) =~= seq![0xaau8, 0x05u8, 0x01u8]);
        },
        PacketView::NotifyHumidifierTimer { on } => {
            let h = seq![0xaau8, 0x11u8, spec_btoi(on)];
            lemma_frame_of_head(h);
            let b = data.drop_last();
            assert(b[0] == 0xaau8 && b[1] == 0x11u8);
            assert(b.take(2) != seq![0x33u8, 0x01u8]);
            assert(b.take(3) != seq![0x33u8, 0x05u8, 0x04u8]);
            assert(b.take(2) != seq![0x33u8, 0x1bu8]);
            assert(b.take(2) != seq![0xaau8, 0x1bu8]);
            assert(b.take(2) != seq![0x33u8, 0x05u8]);
            assert(b.take(3) != seq![0xaau8, 0x05u8, 0x00u8]);
            assert(b.take(2) =~= seq![0xaau8, 0x11u8]);
        },
        PacketView::Generic(_) => {},
    }
}

/// Re-encoding the decoded frame of any encoded packet other than raw bytes
/// gives the same frame.
pub proof fn lemma_encoding_stable(p: PacketView)
    requires
        !(p is Generic),
    ensures
        spec_parse_bytes(spec_packet_bytes(p)) matches Ok(q) && spec_packet_bytes(q)
            == spec_packet_bytes(p),
{
    if decodes_to_itself(p) {
        lemma_encode_decode_round_trip(p);
    } else {
        let m = p->SetHumidifierMode_0;
        let h = seq![0x33u8, 0x05u8, m.mode, m.param];
        let data = spec_packet_bytes(p);
        lemma_frame_of_head(h);
        let b = data.drop_last();
        assert(b[1] == 0x05u8 && b[2] == 0x04u8 && b[3] == m.param && b[4] == 0u8);
        assert(b.take(2) != seq![0x33u8, 0x01u8]);
        assert(b.take(3) =~= seq![0x33u8, 0x05u8, 0x04u8]);
        assert(zero_from(b, 5));
        let q = PacketView::SetSceneCode(m.param as u16);
        assert(spec_parse_bytes(data) == Ok::<PacketView, PacketError>(q));
        let h2 = seq![0x33u8, 0x05u8, 0x04u8, ((m.param as u16) % 256) as u8, ((m.param as u16) / 256) as u8];
        assert(h2 =~= h + zeros(1));
        lemma_xor_zeros(h, 1);
        assert(frame_body(h2) =~= frame_body(h));
    }
}

/// One position of a codec's frame layout.
#[derive(Clone, Copy, Debug, PartialEq, Eq)]
pub enum CodecItem {
    /// A fixed byte.
    Byte(u8),
    /// The humidifier mode.
    Mode,
    /// The humidifier mode parameter.
    Param,
}

/// The byte that a layout position holds for `v`.
pub open spec fn item_byte(item: CodecItem, v: HumidifierMode) -> u8 {
    match item {
        CodecItem::Byte(b) => b,
        CodecItem::Mode => v.mode,
        CodecItem::Param => v.param,
    }
}

/// The bytes that a layout holds for `v`, before framing.
pub open spec fn layout_bytes(layout: Seq<CodecItem>, v: HumidifierMode) -> Seq<u8> {
    Seq::new(layout.len(), |i: int| item_byte(layout[i], v))
}

/// `body` has the fixed bytes of the layout and only zeros after it.
pub open spec fn layout_matches(layout: Seq<CodecItem>, body: Seq<u8>) -> bool {
    &&& layout.len() <= body.len()
    &&& forall|i: int|
        #![trigger layout[i]]
        0 <= i < layout.len() ==> (layout[i] matches CodecItem::Byte(c) ==> body[i] == c)
    &&& zero_from(body, layout.len() as int)
}

/// The value read from the first `n` positions of `body`; a later position of
/// a field overrides an earlier one.
pub open spec fn layout_value(layout: Seq<CodecItem>, body: Seq<u8>, n: nat) -> HumidifierMode
    decreases n,
{
    if n == 0 {
        HumidifierMode { mode: 0, param: 0 }
    } else {
        let v = layout_value(layout, body, (n - 1) as nat);
        match layout[n - 1] {
            CodecItem::Byte(_) => v,
            CodecItem::Mode => HumidifierMode { mode: body[n - 1], param: v.param },
            CodecItem::Param => HumidifierMode { mode: v.mode, param: body[n - 1] },
        }
    }
}

/// The frame body that a codec reads: all but the last byte.
pub open spec fn codec_body(data: Seq<u8>) -> Seq<u8> {
    if data.len() == 0 {
        data
    } else {
        data.drop_last()
    }
}

/// What a codec with this layout decodes `data` to.
pub open spec fn spec_codec_decode(layout: Seq<CodecItem>, data: Seq<u8>) -> Option<HumidifierMode> {
    let body = codec_body(data);
    if layout_matches(layout, body) {
        Some(layout_value(layout, body, layout.len()))
    } else {
        None
    }
}

/// Why a codec could not encode or decode a packet.
#[derive(Clone, Copy, Debug, PartialEq, Eq)]
pub enum CodecError {
    /// The frame does not have the layout of the codec.
    LayoutMismatch,
    /// No codec for the SKU handles the value.
    NoCodec,
}

/// Encodes and decodes humidifier mode packets for a set of SKUs, following
/// a fixed frame layout.
pub struct PacketCodec {
    supported_skus: Vec<String>,
    layout: Vec<CodecItem>,
}

impl PacketCodec {
    /// The SKUs the codec is known to work with.
    pub closed spec fn skus(&self) -> Seq<Seq<char>> {
        self.supported_skus@.map_values(|s: String| s@)
    }

    /// The frame layout.
    pub closed spec fn layout_spec(&self) -> Seq<CodecItem> {
        self.layout@
    }

    /// The codec supports `sku`.
    pub open spec fn spec_supports(&self, sku: Seq<char>) -> bool {
        self.skus().contains(sku)
    }

    /// A codec for the given SKUs with the given frame layout.
    pub fn new(supported_skus: Vec<String>, layout: Vec<CodecItem>) -> (r: Self)
        ensures
            r.skus() == supported_skus@.map_values(|s: String| s@),
            r.layout_spec() == layout@,
    {
        PacketCodec { supported_skus, layout }
    }

    /// The codec supports `sku`.
    pub fn supports(&self, sku: &str) -> (r: bool)
        ensures
            r == self.spec_supports(sku@),
    {
        let mut i: usize = 0;
        while i < self.supported_skus.len()
            invariant
                i <= self.supported_skus.len(),
                forall|j: int| 0 <= j < i ==> self.supported_skus@[j]@ != sku@,
            decreases self.supported_skus.len() - i,
        {
            if str_eq(self.supported_skus[i].as_str(), sku) {
                assert(self.skus()[i as int] == sku@);
                return true;
            }
            i = i + 1;
        }
        assert forall|j: int| 0 <= j < self.skus().len() implies self.skus()[j] != sku@ by {}
        false
    }

    /// The frame for `value`.
    pub fn encode(&self, value: &HumidifierMode) -> (r: Vec<u8>)
        ensures
            r@ == spec_finish(layout_bytes(self.layout_spec(), *value)),
    {
        let mut bytes: Vec<u8> = Vec::new();
        let mut i: usize = 0;
        while i < self.layout.len()
            invariant
                i <= self.layout.len(),
                bytes@ == layout_bytes(self.layout@.take(i as int), *value),
            decreases self.layout.len() - i,
        {
            let b = match self.layout[i] {
                CodecItem::Byte(b) => b,
                CodecItem::Mode => value.mode,
                CodecItem::Param => value.param,
            };
            bytes.push(b);
            i = i + 1;
            assert(bytes@ =~= layout_bytes(self.layout@.take(i as int), *value));
        }
        assert(self.layout@.take(self.layout.len() as int) == self.layout@);
        finish(bytes)
    }

    /// The value held by a frame with this codec's layout.
    pub fn decode(&self, data: &[u8]) -> (r: Result<HumidifierMode, CodecError>)
        ensures
            r matches Ok(v) ==> spec_codec_decode(self.layout_spec(), data@) == Some(v),
            r is Err ==> spec_codec_decode(self.layout_spec(), data@) is None,
    {
        let n: usize = if data.len() == 0 { 0 } else { data.len() - 1 };
        let body = &data[0..n];
        assert(body@ == codec_body(data@));
        if body.len() < self.layout.len() {
            return Err(CodecError::LayoutMismatch);
        }
        let mut value = HumidifierMode { mode: 0, param: 0 };
        let mut i: usize = 0;
        while i < self.layout.len()
            invariant
                i <= self.layout.len(),
                self.layout.len() <= body.len(),
                body@ == codec_body(data@),
                forall|j: int|
                    #![trigger self.layout@[j]]
                    0 <= j < i ==> (self.layout@[j] matches CodecItem::Byte(c) ==> body@[j] == c),
                value == layout_value(self.layout@, body@, i as nat),
            decreases self.layout.len() - i,
        {
            match self.layout[i] {
                CodecItem::Byte(c) => {
                    if body[i] != c {
                        assert(self.layout@[i as int] == CodecItem::Byte(c));
                        assert(!layout_matches(self.layout@, body@));
                        assert(self.layout_spec() == self.layout@);
                        return Err(CodecError::LayoutMismatch);
                    }
                },
                CodecItem::Mode => {
                    value = HumidifierMode { mode: body[i], param: value.param };
                },
                CodecItem::Param => {
                    value = HumidifierMode { mode: value.mode, param: body[i] };
                },
            }
            i = i + 1;
        }
        if !zero_from_exec(body, self.layout.len()) {
            return Err(CodecError::LayoutMismatch);
        }
        Ok(value)
    }
}

/// The index of the last codec in `codecs` that supports `sku`.
pub open spec fn last_codec_for(codecs: Seq<PacketCodec>, sku: Seq<char>) -> Option<int>
    decreases codecs.len(),
{
    if codecs.len() == 0 {
        None
    } else if codecs.last().spec_supports(sku) {
        Some(codecs.len() - 1)
    } else {
        last_codec_for(codecs.drop_last(), sku)
    }
}

/// Picks the codec of a SKU.
pub struct PacketManager {
    all_codecs: Vec<PacketCodec>,
}

/// The frame layout of the humidifier mode change packet.
pub open spec fn humidifier_mode_layout() -> Seq<CodecItem> {
    seq![CodecItem::Byte(0x33), CodecItem::Byte(0x05), CodecItem::Mode, CodecItem::Param]
}

impl PacketManager {
    /// The codecs, in the order in which they were registered.
    pub closed spec fn codecs(&self) -> Seq<PacketCodec> {
        self.all_codecs@
    }

    /// The manager with the known codecs: the humidifier mode change packet
    /// of the H7160.
    pub fn new() -> (r: Self)
        ensures
            r.codecs().len() == 1,
            r.codecs()[0].skus() == seq!["H7160"@],
            r.codecs()[0].layout_spec() == humidifier_mode_layout(),
    {
        let skus = vec![owned("H7160")];
        let layout = vec![
            CodecItem::Byte(0x33),
            CodecItem::Byte(0x05),
            CodecItem::Mode,
            CodecItem::Param,
        ];
        let codec = PacketCodec::new(skus, layout);
        assert(codec.skus() =~= seq!["H7160"@]);
        assert(codec.layout_spec() =~= humidifier_mode_layout());
        PacketManager { all_codecs: vec![codec] }
    }

    /// The index of the last codec that supports `sku`.
    fn resolve_by_sku(&self, sku: &str) -> (r: Option<usize>)
        ensures
            r matches Some(i) ==> last_codec_for(self.codecs(), sku@) == Some(i as int) && i
                < self.codecs().len(),
            r is None ==> last_codec_for(self.codecs(), sku@) is None,
    {
        let mut i = self.all_codecs.len();
        assert(self.codecs().take(i as int) =~= self.codecs());
        while i > 0
            invariant
                i <= self.all_codecs.len(),
                last_codec_for(self.codecs(), sku@) == last_codec_for(
                    self.codecs().take(i as int),
                    sku@,
                ),
            decreases i,
        {
            assert(self.codecs().take(i as int).drop_last() =~= self.codecs().take(i - 1));
            if self.all_codecs[i - 1].supports(sku) {
                return Some(i - 1);
            }
            i = i - 1;
        }
        None
    }

    /// Decodes a frame from a device of the given SKU: the value of the
    /// SKU's codec when the frame has its layout, the raw bytes otherwise.
    pub fn decode_for_sku(&self, sku: &str, data: &[u8]) -> (r: GoveeBlePacket)
        ensures
            r@ == (match last_codec_for(self.codecs(), sku@) {
                Some(i) => match spec_codec_decode(self.codecs()[i].layout_spec(), data@) {
                    Some(v) => PacketView::SetHumidifierMode(v),
                    None => PacketView::Generic(data@),
                },
                None => PacketView::Generic(data@),
            }),
    {
        if let Some(i) = self.resolve_by_sku(sku) {
            if let Ok(value) = self.all_codecs[i].decode(data) {
                return GoveeBlePacket::SetHumidifierMode(value);
            }
        }
        GoveeBlePacket::Generic(HexBytes(vstd::slice::slice_to_vec(data)))
    }

    /// Encodes a humidifier mode for a device of the given SKU.
    pub fn encode_for_sku(&self, sku: &str, value: &HumidifierMode) -> (r: Result<Vec<u8>, CodecError>)
        ensures
            last_codec_for(self.codecs(), sku@) matches Some(i) ==> r matches Ok(bytes) && bytes@
                == spec_finish(layout_bytes(self.codecs()[i].layout_spec(), *value)),
            last_codec_for(self.codecs(), sku@) is None ==> r == Err::<Vec<u8>, CodecError>(
                CodecError::NoCodec,
            ),
    {
        match self.resolve_by_sku(sku) {
            Some(i) => Ok(self.all_codecs[i].encode(value)),
            None => Err(CodecError::NoCodec),
        }
    }
}

/// Decoding the frame that the humidifier mode codec encodes for a value
/// gives the value back.
pub proof fn lemma_humidifier_codec_round_trip(v: HumidifierMode)
    ensures
        spec_codec_decode(
            humidifier_mode_layout(),
            spec_finish(layout_bytes(humidifier_mode_layout(), v)),
        ) == Some(v),
{
    let layout = humidifier_mode_layout();
    let h = layout_bytes(layout, v);
    assert(h =~= seq![0x33u8, 0x05u8, v.mode, v.param]);
    lemma_frame_of_head(h);
    let body = codec_body(spec_finish(h));
    assert(body =~= h + zeros(15));
    assert(layout_matches(layout, body));
    assert(layout_value(layout, body, 4) == v) by {
        reveal_with_fuel(layout_value, 5);
    }
}

} // verus!

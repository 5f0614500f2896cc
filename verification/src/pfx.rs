//! PKCS#12 containers, as the account's IoT credentials come in: which
//! containers are read at all, and what is taken out of them. The container
//! format itself is read by the `p12` crate; this module checks the shape of
//! a container before handing it over, so that no nested content reaches
//! the crate's internal assertions and no key derivation runs for more than
//! `MAX_PBE_ITERATIONS` rounds.

use vstd::prelude::*;
use crate::strings::chars_of;

verus! {

// ---------------------------------------------------------------------------
// DER elements
// ---------------------------------------------------------------------------

/// The element of `[s, s + n)` with the given tag, when it ends by `end`.
pub open spec fn spec_within(tag: u8, s: int, n: int, end: int) -> Option<(u8, int, int)> {
    if s + n <= end {
        Some((tag, s, s + n))
    } else {
        None
    }
}

/// The DER element that starts at `i` and ends by `end`: its one-byte tag
/// and where its content starts and ends. Lengths of up to three bytes are
/// read; tags of more than one byte and other lengths are not.
pub open spec fn spec_tlv(d: Seq<u8>, i: int, end: int) -> Option<(u8, int, int)> {
    if !(0 <= i && i + 2 <= end && end <= d.len()) || d[i] % 32 == 31 {
        None
    } else if d[i + 1] < 128 {
        spec_within(d[i], i + 2, d[i + 1] as int, end)
    } else if d[i + 1] == 129 && i + 3 <= end {
        spec_within(d[i], i + 3, d[i + 2] as int, end)
    } else if d[i + 1] == 130 && i + 4 <= end {
        spec_within(d[i], i + 4, d[i + 2] * 256 + d[i + 3], end)
    } else if d[i + 1] == 131 && i + 5 <= end {
        spec_within(d[i], i + 5, d[i + 2] * 65536 + d[i + 3] * 256 + d[i + 4], end)
    } else {
        None
    }
}

/// The content of the element at `i` when it has the tag `tag`.
pub open spec fn spec_elem(d: Seq<u8>, i: int, end: int, tag: u8) -> Option<(int, int)> {
    match spec_tlv(d, i, end) {
        Some((t, s, e)) => if t == tag {
            Some((s, e))
        } else {
            None
        },
        None => None,
    }
}

/// Reads the element at `i`.
fn tlv(d: &Vec<u8>, i: usize, end: usize) -> (r: Option<(u8, usize, usize)>)
    requires
        end <= d.len(),
    ensures
        match spec_tlv(d@, i as int, end as int) {
            Some((t, s, e)) => r == Some((t, s as usize, e as usize)),
            None => r is None,
        },
{
    if !(i <= end && end - i >= 2) {
        return None;
    }
    let tag = d[i];
    if tag % 32 == 31 {
        return None;
    }
    let l = d[i + 1];
    let (s, n): (usize, usize) = if l < 128 {
        (i + 2, l as usize)
    } else if l == 129 && end - i >= 3 {
        (i + 3, d[i + 2] as usize)
    } else if l == 130 && end - i >= 4 {
        (i + 4, (d[i + 2] as usize) * 256 + d[i + 3] as usize)
    } else if l == 131 && end - i >= 5 {
        (i + 5, (d[i + 2] as usize) * 65536 + (d[i + 3] as usize) * 256 + d[i + 4] as usize)
    } else {
        return None;
    };
    if n <= end - s {
        Some((tag, s, s + n))
    } else {
        None
    }
}

/// Reads the element at `i` when it has the tag `tag`.
fn elem(d: &Vec<u8>, i: usize, end: usize, tag: u8) -> (r: Option<(usize, usize)>)
    requires
        end <= d.len(),
    ensures
        match spec_elem(d@, i as int, end as int, tag) {
            Some((s, e)) => r == Some((s as usize, e as usize)) && i + 2 <= s <= e <= end,
            None => r is None,
        },
{
    match tlv(d, i, end) {
        Some((t, s, e)) => if t == tag {
            Some((s, e))
        } else {
            None
        },
        None => None,
    }
}

/// The bytes of `[s, e)` are `lit`.
fn bytes_are(d: &Vec<u8>, s: usize, e: usize, lit: &Vec<u8>) -> (r: bool)
    requires
        s <= e <= d.len(),
    ensures
        r == (d@.subrange(s as int, e as int) == lit@),
{
    if e - s != lit.len() {
        assert(d@.subrange(s as int, e as int).len() != lit@.len());
        return false;
    }
    let mut k: usize = 0;
    while k < lit.len()
        invariant
            k <= lit.len(),
            e - s == lit.len(),
            s <= e <= d.len(),
            forall|j: int| 0 <= j < k ==> d@[s + j] == lit@[j],
        decreases lit.len() - k,
    {
        if d[s + k] != lit[k] {
            assert(d@.subrange(s as int, e as int)[k as int] != lit@[k as int]);
            return false;
        }
        k = k + 1;
    }
    assert(d@.subrange(s as int, e as int) =~= lit@);
    true
}

// ---------------------------------------------------------------------------
// The identifiers that matter
// ---------------------------------------------------------------------------

/// The DER content of the object identifier 1.2.840.113549.1.7.1 (data).
pub open spec fn data_oid() -> Seq<u8> {
    seq![0x2au8, 0x86u8, 0x48u8, 0x86u8, 0xf7u8, 0x0du8, 0x01u8, 0x07u8, 0x01u8]
}

/// The DER content of 1.2.840.113549.1.7.6 (encrypted data).
pub open spec fn encrypted_data_oid() -> Seq<u8> {
    seq![0x2au8, 0x86u8, 0x48u8, 0x86u8, 0xf7u8, 0x0du8, 0x01u8, 0x07u8, 0x06u8]
}

/// The DER content of 1.2.840.113549.1.12.1.3 (password-based encryption
/// with SHA-1 and three-key triple DES).
pub open spec fn pbe_triple_des_oid() -> Seq<u8> {
    seq![0x2au8, 0x86u8, 0x48u8, 0x86u8, 0xf7u8, 0x0du8, 0x01u8, 0x0cu8, 0x01u8, 0x03u8]
}

/// The DER content of 1.2.840.113549.1.12.1.6 (password-based encryption
/// with SHA-1 and 40-bit RC2).
pub open spec fn pbe_rc2_oid() -> Seq<u8> {
    seq![0x2au8, 0x86u8, 0x48u8, 0x86u8, 0xf7u8, 0x0du8, 0x01u8, 0x0cu8, 0x01u8, 0x06u8]
}

fn data_oid_bytes() -> (r: Vec<u8>)
    ensures
        r@ == data_oid(),
{
    let r = vec![0x2au8, 0x86u8, 0x48u8, 0x86u8, 0xf7u8, 0x0du8, 0x01u8, 0x07u8, 0x01u8];
    assert(r@ =~= data_oid());
    r
}

fn encrypted_data_oid_bytes() -> (r: Vec<u8>)
    ensures
        r@ == encrypted_data_oid(),
{
    let r = vec![0x2au8, 0x86u8, 0x48u8, 0x86u8, 0xf7u8, 0x0du8, 0x01u8, 0x07u8, 0x06u8];
    assert(r@ =~= encrypted_data_oid());
    r
}

fn pbe_triple_des_oid_bytes() -> (r: Vec<u8>)
    ensures
        r@ == pbe_triple_des_oid(),
{
    let r = vec![0x2au8, 0x86u8, 0x48u8, 0x86u8, 0xf7u8, 0x0du8, 0x01u8, 0x0cu8, 0x01u8, 0x03u8];
    assert(r@ =~= pbe_triple_des_oid());
    r
}

fn pbe_rc2_oid_bytes() -> (r: Vec<u8>)
    ensures
        r@ == pbe_rc2_oid(),
{
    let r = vec![0x2au8, 0x86u8, 0x48u8, 0x86u8, 0xf7u8, 0x0du8, 0x01u8, 0x0cu8, 0x01u8, 0x06u8];
    assert(r@ =~= pbe_rc2_oid());
    r
}

// ---------------------------------------------------------------------------
// The shape of a container
// ---------------------------------------------------------------------------

/// The most rounds of key derivation that a container may ask for.
pub const MAX_PBE_ITERATIONS: u64 = 16_777_215;

/// An algorithm identifier (content `[s, e)`) names one of the two
/// password-based encryptions, with a salt and an iteration count of at
/// most three bytes.
pub open spec fn spec_algorithm_ok(d: Seq<u8>, s: int, e: int) -> bool {
    match spec_elem(d, s, e, 0x06) {
        Some((os, oe)) => (d.subrange(os, oe) == pbe_triple_des_oid() || d.subrange(os, oe) == pbe_rc2_oid())
            && match spec_elem(d, oe, e, 0x30) {
            Some((ps, pe)) => match spec_elem(d, ps, pe, 0x04) {
                Some((_ss, se)) => match spec_elem(d, se, pe, 0x02) {
                    Some((is, ie)) => 1 <= ie - is <= 3,
                    None => false,
                },
                None => false,
            },
            None => false,
        },
        None => false,
    }
}

/// The content of an encrypted-data content info (from `i` to `e`): an
/// explicit tag around version 0 and encrypted content of type data under
/// an algorithm as `spec_algorithm_ok` asks.
pub open spec fn spec_encrypted_ok(d: Seq<u8>, i: int, e: int) -> bool {
    match spec_elem(d, i, e, 0xa0) {
        Some((ws, we)) => match spec_elem(d, ws, we, 0x30) {
            Some((ss, se)) => match spec_elem(d, ss, se, 0x02) {
                Some((vs, ve)) => ve == vs + 1 && d[vs] == 0 && match spec_elem(d, ve, se, 0x30) {
                    Some((es, ee)) => match spec_elem(d, es, ee, 0x06) {
                        Some((cs, ce)) => d.subrange(cs, ce) == data_oid() && match spec_elem(d, ce, ee, 0x30) {
                            Some((as_, ae)) => spec_algorithm_ok(d, as_, ae),
                            None => false,
                        },
                        None => false,
                    },
                    None => false,
                },
                None => false,
            },
            None => false,
        },
        None => false,
    }
}

/// A content info (content `[s, e)`) of type data, or of type encrypted
/// data as `spec_encrypted_ok` asks.
pub open spec fn spec_content_info_ok(d: Seq<u8>, s: int, e: int) -> bool {
    match spec_elem(d, s, e, 0x06) {
        Some((os, oe)) => d.subrange(os, oe) == data_oid() || (d.subrange(os, oe) == encrypted_data_oid()
            && spec_encrypted_ok(d, oe, e)),
        None => false,
    }
}

/// The elements from `i` to `end` are content infos as
/// `spec_content_info_ok` asks.
pub open spec fn spec_content_infos_ok(d: Seq<u8>, i: int, end: int) -> bool
    decreases end - i,
{
    if i >= end {
        i == end
    } else {
        match spec_elem(d, i, end, 0x30) {
            Some((s, e)) => if i < e {
                spec_content_info_ok(d, s, e) && spec_content_infos_ok(d, e, end)
            } else {
                false
            },
            None => false,
        }
    }
}

/// A container that `p12` reads without reaching its assertions and
/// without unbounded key derivation: a sequence that fills the bytes,
/// holding a version and an authenticated safe of type data whose octets
/// are a sequence of content infos as `spec_content_info_ok` asks.
pub open spec fn spec_pfx_shape_ok(d: Seq<u8>) -> bool {
    match spec_elem(d, 0, d.len() as int, 0x30) {
        Some((s0, e0)) => e0 == d.len() && match spec_elem(d, s0, e0, 0x02) {
            Some((_vs, ve)) => match spec_elem(d, ve, e0, 0x30) {
                Some((as_, ae)) => match spec_elem(d, as_, ae, 0x06) {
                    Some((os, oe)) => d.subrange(os, oe) == data_oid() && match spec_elem(d, oe, ae, 0xa0) {
                        Some((ws, we)) => match spec_elem(d, ws, we, 0x04) {
                            Some((cs, ce)) => match spec_elem(d, cs, ce, 0x30) {
                                Some((qs, qe)) => qe == ce && spec_content_infos_ok(d, qs, qe),
                                None => false,
                            },
                            None => false,
                        },
                        None => false,
                    },
                    None => false,
                },
                None => false,
            },
            None => false,
        },
        None => false,
    }
}

/// Checks an algorithm identifier.
fn algorithm_ok(d: &Vec<u8>, s: usize, e: usize) -> (r: bool)
    requires
        s <= e <= d.len(),
    ensures
        r == spec_algorithm_ok(d@, s as int, e as int),
{
    let (os, oe) = match elem(d, s, e, 0x06) {
        Some(x) => x,
        None => return false,
    };
    if !(bytes_are(d, os, oe, &pbe_triple_des_oid_bytes()) || bytes_are(d, os, oe, &pbe_rc2_oid_bytes())) {
        return false;
    }
    let (ps, pe) = match elem(d, oe, e, 0x30) {
        Some(x) => x,
        None => return false,
    };
    let (_ss, se) = match elem(d, ps, pe, 0x04) {
        Some(x) => x,
        None => return false,
    };
    match elem(d, se, pe, 0x02) {
        Some((is, ie)) => 1 <= ie - is && ie - is <= 3,
        None => false,
    }
}

/// Checks the content of an encrypted-data content info.
fn encrypted_ok(d: &Vec<u8>, i: usize, e: usize) -> (r: bool)
    requires
        e <= d.len(),
    ensures
        r == spec_encrypted_ok(d@, i as int, e as int),
{
    let (ws, we) = match elem(d, i, e, 0xa0) {
        Some(x) => x,
        None => return false,
    };
    let (ss, se) = match elem(d, ws, we, 0x30) {
        Some(x) => x,
        None => return false,
    };
    let (vs, ve) = match elem(d, ss, se, 0x02) {
        Some(x) => x,
        None => return false,
    };
    if !(ve - vs == 1 && d[vs] == 0) {
        return false;
    }
    let (es, ee) = match elem(d, ve, se, 0x30) {
        Some(x) => x,
        None => return false,
    };
    let (cs, ce) = match elem(d, es, ee, 0x06) {
        Some(x) => x,
        None => return false,
    };
    if !bytes_are(d, cs, ce, &data_oid_bytes()) {
        return false;
    }
    match elem(d, ce, ee, 0x30) {
        Some((as_, ae)) => algorithm_ok(d, as_, ae),
        None => false,
    }
}

/// Checks a content info.
fn content_info_ok(d: &Vec<u8>, s: usize, e: usize) -> (r: bool)
    requires
        e <= d.len(),
    ensures
        r == spec_content_info_ok(d@, s as int, e as int),
{
    match elem(d, s, e, 0x06) {
        Some((os, oe)) => bytes_are(d, os, oe, &data_oid_bytes()) || (bytes_are(
            d,
            os,
            oe,
            &encrypted_data_oid_bytes(),
        ) && encrypted_ok(d, oe, e)),
        None => false,
    }
}

/// Checks the content infos from `start` to `end`.
fn content_infos_ok(d: &Vec<u8>, start: usize, end: usize) -> (r: bool)
    requires
        start <= end <= d.len(),
    ensures
        r == spec_content_infos_ok(d@, start as int, end as int),
{
    let mut i = start;
    while i < end
        invariant
            start <= i <= end <= d.len(),
            spec_content_infos_ok(d@, start as int, end as int) == spec_content_infos_ok(d@, i as int, end as int),
        decreases end - i,
    {
        match elem(d, i, end, 0x30) {
            Some((s, e)) => {
                if !content_info_ok(d, s, e) {
                    return false;
                }
                i = e;
            },
            None => return false,
        }
    }
    true
}

/// Whether `p12` may be given the container: see `spec_pfx_shape_ok`.
pub fn pfx_shape_ok(d: &Vec<u8>) -> (r: bool)
    ensures
        r == spec_pfx_shape_ok(d@),
{
    let n = d.len();
    let (s0, e0) = match elem(d, 0, n, 0x30) {
        Some(x) => x,
        None => return false,
    };
    if e0 != n {
        return false;
    }
    let (_vs, ve) = match elem(d, s0, e0, 0x02) {
        Some(x) => x,
        None => return false,
    };
    let (as_, ae) = match elem(d, ve, e0, 0x30) {
        Some(x) => x,
        None => return false,
    };
    let (os, oe) = match elem(d, as_, ae, 0x06) {
        Some(x) => x,
        None => return false,
    };
    if !bytes_are(d, os, oe, &data_oid_bytes()) {
        return false;
    }
    let (ws, we) = match elem(d, oe, ae, 0xa0) {
        Some(x) => x,
        None => return false,
    };
    let (cs, ce) = match elem(d, ws, we, 0x04) {
        Some(x) => x,
        None => return false,
    };
    match elem(d, cs, ce, 0x30) {
        Some((qs, qe)) => qe == ce && content_infos_ok(d, qs, qe),
        None => false,
    }
}

// ---------------------------------------------------------------------------
// What a container holds
// ---------------------------------------------------------------------------

/// The password-based encryptions that `p12` can undo.
#[derive(Clone, Copy, Debug, PartialEq, Eq, Structural)]
pub enum PbeKind {
    /// SHA-1 with three-key triple DES.
    TripleDes,
    /// SHA-1 with 40-bit RC2.
    Rc2,
}

/// How a private key in a container is encrypted.
pub enum KeyEncryption {
    /// Password-based encryption with this salt and count of rounds.
    Pbe { kind: PbeKind, salt: Vec<u8>, iterations: u64 },
    /// Any other algorithm, which `p12` cannot undo.
    Other,
}

/// A bag of a container's safe contents.
pub enum SafeBagItem {
    /// An encrypted private key.
    ShroudedKey { encryption: KeyEncryption, data: Vec<u8> },
    /// The DER bytes of an X.509 certificate.
    X509Certificate(Vec<u8>),
    /// Anything else.
    Other,
}

/// The view of a key encryption.
pub enum KeyEncryptionView {
    Pbe { kind: PbeKind, salt: Seq<u8>, iterations: u64 },
    Other,
}

/// The view of a safe bag.
pub enum SafeBagView {
    ShroudedKey { encryption: KeyEncryptionView, data: Seq<u8> },
    X509Certificate(Seq<u8>),
    Other,
}

impl View for KeyEncryption {
    type V = KeyEncryptionView;

    open spec fn view(&self) -> KeyEncryptionView {
        match *self {
            KeyEncryption::Pbe { kind, salt, iterations } => KeyEncryptionView::Pbe { kind, salt: salt@, iterations },
            KeyEncryption::Other => KeyEncryptionView::Other,
        }
    }
}

impl View for SafeBagItem {
    type V = SafeBagView;

    open spec fn view(&self) -> SafeBagView {
        match *self {
            SafeBagItem::ShroudedKey { encryption, data } => SafeBagView::ShroudedKey { encryption: encryption@, data: data@ },
            SafeBagItem::X509Certificate(c) => SafeBagView::X509Certificate(c@),
            SafeBagItem::Other => SafeBagView::Other,
        }
    }
}

/// The views of a list of safe bags.
pub open spec fn bags_view(v: Seq<SafeBagItem>) -> Seq<SafeBagView> {
    v.map_values(|b: SafeBagItem| b@)
}

// ---------------------------------------------------------------------------
// The calls into `p12`
// ---------------------------------------------------------------------------

/// Declares `p12::PFX`, a parsed container.
#[verifier::external_type_specification]
#[verifier::external_body]
pub struct ExPfx(p12::PFX);

/// Declares `p12::SafeBagKind`, the content of a safe bag.
#[verifier::external_type_specification]
#[verifier::external_body]
pub struct ExSafeBagKind(p12::SafeBagKind);

/// What `p12::PFX::parse` reads from the bytes of a container.
pub uninterp spec fn spec_pfx_parse(der: Seq<u8>) -> Option<p12::PFX>;

/// What `p12::PFX::bags` takes out of a parsed container under a password:
/// its safe bags, in order.
pub uninterp spec fn spec_pfx_bags(pfx: p12::PFX, password: Seq<char>) -> Option<Seq<SafeBagView>>;

/// What `p12::AlgorithmIdentifier::decrypt_pbe` gives for a password-based
/// encryption with this salt and count, of these bytes, under this password
/// (in the form `p12` derives keys from).
pub uninterp spec fn spec_pbe_decrypt(kind: PbeKind, salt: Seq<u8>, iterations: u64, data: Seq<u8>, password: Seq<u8>) -> Option<Seq<u8>>;

/// Parses a container with `p12::PFX::parse`. A container whose shape
/// `spec_pfx_shape_ok` admits has an authenticated safe of type data, so
/// the parse reaches none of the crate's assertions on encrypted content;
/// the contract names the result after the bytes.
#[verifier::external_body]
fn pfx_parse(der: &[u8]) -> (r: Option<p12::PFX>)
    requires
        spec_pfx_shape_ok(der@),
    ensures
        r == spec_pfx_parse(der@),
{
    p12::PFX::parse(der).ok()
}

/// The library's form of a safe bag, one for one. (It only converts; the
/// function that uses it states what comes out.)
#[verifier::external_body]
fn safe_bag_item(bag: p12::SafeBagKind) -> SafeBagItem {
    match bag {
        p12::SafeBagKind::Pkcs8ShroudedKeyBag(k) => SafeBagItem::ShroudedKey {
            encryption: match k.encryption_algorithm {
                p12::AlgorithmIdentifier::PbeWithSHAAnd3KeyTripleDESCBC(p) => KeyEncryption::Pbe { kind: PbeKind::TripleDes, salt: p.salt, iterations: p.iterations },
                p12::AlgorithmIdentifier::PbewithSHAAnd40BitRC2CBC(p) => KeyEncryption::Pbe { kind: PbeKind::Rc2, salt: p.salt, iterations: p.iterations },
                _ => KeyEncryption::Other,
            },
            data: k.encrypted_data,
        },
        p12::SafeBagKind::CertBag(p12::CertBag::X509(c)) => SafeBagItem::X509Certificate(c),
        _ => SafeBagItem::Other,
    }
}

/// Takes the safe bags out of a parsed container with `p12::PFX::bags`.
/// For a container parsed from bytes that `spec_pfx_shape_ok` admits, every
/// nested content is data or encrypted data of version 0 over data, so no
/// assertion of the crate is reached, and each decryption derives its key
/// in at most `MAX_PBE_ITERATIONS` rounds. The contract names the bags
/// after the container and the password.
#[verifier::external_body]
fn pfx_safe_bags(pfx: &p12::PFX, password: &str) -> (r: Option<Vec<SafeBagItem>>)
    requires
        exists|der: Seq<u8>| spec_pfx_shape_ok(der) && spec_pfx_parse(der) == Some(*pfx),
    ensures
        match spec_pfx_bags(*pfx, password@) {
            Some(b) => r matches Some(v) && bags_view(v@) == b,
            None => r is None,
        },
{
    let bags = pfx.bags(password).ok()?;
    Some(bags.into_iter().map(|b| safe_bag_item(b.bag)).collect())
}

/// Decrypts with `p12::AlgorithmIdentifier::decrypt_pbe`, which derives the
/// key in `iterations` rounds; the bound keeps that finite and short. The
/// contract names the result after the arguments.
#[verifier::external_body]
fn pbe_decrypt(kind: PbeKind, salt: &[u8], iterations: u64, data: &[u8], password: &[u8]) -> (r: Option<Vec<u8>>)
    requires
        iterations <= MAX_PBE_ITERATIONS,
    ensures
        match spec_pbe_decrypt(kind, salt@, iterations, data@, password@) {
            Some(k) => r matches Some(v) && v@ == k,
            None => r is None,
        },
{
    let params = p12::Pkcs12PbeParams { salt: salt.to_vec(), iterations };
    let algorithm = match kind {
        PbeKind::TripleDes => p12::AlgorithmIdentifier::PbeWithSHAAnd3KeyTripleDESCBC(params),
        PbeKind::Rc2 => p12::AlgorithmIdentifier::PbewithSHAAnd40BitRC2CBC(params),
    };
    algorithm.decrypt_pbe(data, password)
}

// ---------------------------------------------------------------------------
// The password as keys are derived from it
// ---------------------------------------------------------------------------

/// A UTF-16 code unit, high byte first.
pub open spec fn unit_bytes(u: int) -> Seq<u8> {
    seq![(u / 256) as u8, (u % 256) as u8]
}

/// A character in UTF-16, high byte first: one code unit, or a surrogate
/// pair above U+FFFF.
pub open spec fn spec_char_utf16_be(c: char) -> Seq<u8> {
    let v = (c as u32) as int;
    if v < 65536 {
        unit_bytes(v)
    } else {
        unit_bytes(0xd800 + (v - 65536) / 1024) + unit_bytes(0xdc00 + (v - 65536) % 1024)
    }
}

/// A text in UTF-16, high byte first.
pub open spec fn spec_utf16_be(s: Seq<char>) -> Seq<u8>
    decreases s.len(),
{
    if s.len() == 0 {
        Seq::empty()
    } else {
        spec_utf16_be(s.drop_last()) + spec_char_utf16_be(s.last())
    }
}

/// The password as PKCS#12 derives keys from it: UTF-16, high byte first,
/// followed by two zero bytes.
pub open spec fn spec_bmp_password(s: Seq<char>) -> Seq<u8> {
    spec_utf16_be(s) + seq![0u8, 0u8]
}

/// The password in the form keys are derived from.
pub fn bmp_password(password: &str) -> (r: Vec<u8>)
    ensures
        r@ == spec_bmp_password(password@),
{
    let cs = chars_of(password);
    let mut out: Vec<u8> = Vec::new();
    let mut i: usize = 0;
    while i < cs.len()
        invariant
            i <= cs.len(),
            cs@ == password@,
            out@ == spec_utf16_be(cs@.take(i as int)),
        decreases cs.len() - i,
    {
        let c = cs[i];
        let v = c as u32;
        proof {
            vstd::utf8::char_is_scalar(c);
        }
        let ghost before = out@;
        if v < 65536 {
            out.push((v / 256) as u8);
            out.push((v % 256) as u8);
            assert(out@ =~= before + unit_bytes(v as int));
        } else {
            assert(v <= 0x10ffff);
            let w = v - 65536;
            let hi: u32 = 0xd800 + w / 1024;
            let lo: u32 = 0xdc00 + w % 1024;
            out.push((hi / 256) as u8);
            out.push((hi % 256) as u8);
            out.push((lo / 256) as u8);
            out.push((lo % 256) as u8);
            assert(out@ =~= before + unit_bytes(hi as int) + unit_bytes(lo as int));
        }
        assert(cs@.take(i + 1).drop_last() =~= cs@.take(i as int));
        assert(cs@.take(i + 1).last() == c);
        assert(out@ =~= before + spec_char_utf16_be(c));
        i = i + 1;
    }
    assert(cs@.take(cs.len() as int) =~= cs@);
    out.push(0);
    out.push(0);
    assert(out@ =~= spec_utf16_be(password@) + seq![0u8, 0u8]);
    out
}

// ---------------------------------------------------------------------------
// Keys and certificates
// ---------------------------------------------------------------------------

/// An encrypted key in the bag asks for at most `MAX_PBE_ITERATIONS` rounds.
pub open spec fn bag_bounded(b: SafeBagView) -> bool {
    match b {
        SafeBagView::ShroudedKey { encryption: KeyEncryptionView::Pbe { iterations, .. }, .. } => iterations
            <= MAX_PBE_ITERATIONS,
        _ => true,
    }
}

/// Every encrypted key of the bags asks for at most `MAX_PBE_ITERATIONS`
/// rounds.
pub open spec fn bags_bounded(bags: Seq<SafeBagView>) -> bool {
    forall|i: int| 0 <= i < bags.len() ==> bag_bounded(#[trigger] bags[i])
}

/// The keys and certificates after one more bag: its key when it decrypts
/// under the password, its certificate when it is one.
pub open spec fn spec_bag_step(b: SafeBagView, password: Seq<u8>, prev: (Seq<Seq<u8>>, Seq<Seq<u8>>)) -> (Seq<Seq<u8>>, Seq<Seq<u8>>) {
    match b {
        SafeBagView::ShroudedKey { encryption: KeyEncryptionView::Pbe { kind, salt, iterations }, data } => match spec_pbe_decrypt(kind, salt, iterations, data, password) {
            Some(key) => (prev.0.push(key), prev.1),
            None => prev,
        },
        SafeBagView::X509Certificate(cert) => (prev.0, prev.1.push(cert)),
        _ => prev,
    }
}

/// The private keys that decrypt under the password, and the X.509
/// certificates, of the bags, each in order.
pub open spec fn spec_keys_and_certs(bags: Seq<SafeBagView>, password: Seq<u8>) -> (Seq<Seq<u8>>, Seq<Seq<u8>>)
    decreases bags.len(),
{
    if bags.len() == 0 {
        (Seq::empty(), Seq::empty())
    } else {
        spec_bag_step(bags.last(), password, spec_keys_and_certs(bags.drop_last(), password))
    }
}

/// Adds what one bag holds to the keys and certificates; false, with
/// nothing added, when its key asks for too many rounds.
fn take_bag(bag: &SafeBagItem, pw: &Vec<u8>, keys: &mut Vec<Vec<u8>>, certs: &mut Vec<Vec<u8>>) -> (ok: bool)
    ensures
        ok == bag_bounded(bag@),
        ok ==> (final(keys).deep_view(), final(certs).deep_view()) == spec_bag_step(
            bag@,
            pw@,
            (old(keys).deep_view(), old(certs).deep_view()),
        ),
{
    match bag {
        SafeBagItem::ShroudedKey { encryption: KeyEncryption::Pbe { kind, salt, iterations }, data } => {
            if *iterations > MAX_PBE_ITERATIONS {
                return false;
            }
            match pbe_decrypt(*kind, salt.as_slice(), *iterations, data.as_slice(), pw.as_slice()) {
                Some(k) => {
                    let ghost prev = keys.deep_view();
                    assert(k.deep_view() =~= k@);
                    keys.push(k);
                    assert(keys.deep_view() =~= prev.push(k@));
                },
                None => {},
            }
            true
        },
        SafeBagItem::X509Certificate(c) => {
            let ghost prev = certs.deep_view();
            let copy = copy_bytes(c);
            assert(copy.deep_view() =~= c@);
            certs.push(copy);
            assert(certs.deep_view() =~= prev.push(c@));
            true
        },
        _ => true,
    }
}

/// Why a container could not be read.
#[derive(Clone, Copy, Debug, PartialEq, Eq, Structural)]
pub enum PfxError {
    /// The container's shape is not one that is handed to `p12`, or a key
    /// in it asks for more than `MAX_PBE_ITERATIONS` rounds.
    Unsupported,
    /// `p12` could not read the container under the password.
    NotReadable,
}

/// What reading a container gives: its keys and certificates, or why not.
pub open spec fn spec_read_pfx(der: Seq<u8>, password: Seq<char>) -> Result<(Seq<Seq<u8>>, Seq<Seq<u8>>), PfxError> {
    if !spec_pfx_shape_ok(der) {
        Err(PfxError::Unsupported)
    } else {
        match spec_pfx_parse(der) {
            None => Err(PfxError::NotReadable),
            Some(pfx) => match spec_pfx_bags(pfx, password) {
                None => Err(PfxError::NotReadable),
                Some(bags) => if bags_bounded(bags) {
                    Ok(spec_keys_and_certs(bags, spec_bmp_password(password)))
                } else {
                    Err(PfxError::Unsupported)
                },
            },
        }
    }
}

/// A copy of some bytes.
fn copy_bytes(b: &Vec<u8>) -> (r: Vec<u8>)
    ensures
        r@ == b@,
{
    let mut r: Vec<u8> = Vec::new();
    let mut k: usize = 0;
    while k < b.len()
        invariant
            k <= b.len(),
            r@ == b@.take(k as int),
        decreases b.len() - k,
    {
        r.push(b[k]);
        k = k + 1;
        assert(r@ =~= b@.take(k as int));
    }
    assert(b@.take(b.len() as int) =~= b@);
    r
}

/// The private keys (PKCS#8 DER) and X.509 certificates (DER) of a PKCS#12
/// container, opened with its password, in the order of its bags.
pub fn read_pfx(der: &Vec<u8>, password: &str) -> (r: Result<(Vec<Vec<u8>>, Vec<Vec<u8>>), PfxError>)
    ensures
        match spec_read_pfx(der@, password@) {
            Err(e) => r == Err::<(Vec<Vec<u8>>, Vec<Vec<u8>>), PfxError>(e),
            Ok(v) => r matches Ok(got) && got.0.deep_view() == v.0 && got.1.deep_view() == v.1,
        },
{
    if !pfx_shape_ok(der) {
        return Err(PfxError::Unsupported);
    }
    let pfx = match pfx_parse(der.as_slice()) {
        Some(p) => p,
        None => return Err(PfxError::NotReadable),
    };
    let bags = match pfx_safe_bags(&pfx, password) {
        Some(b) => b,
        None => return Err(PfxError::NotReadable),
    };
    let ghost bv = bags_view(bags@);
    let pw = bmp_password(password);
    let mut keys: Vec<Vec<u8>> = Vec::new();
    let mut certs: Vec<Vec<u8>> = Vec::new();
    let mut i: usize = 0;
    assert(keys.deep_view() =~= Seq::<Seq<u8>>::empty());
    assert(certs.deep_view() =~= Seq::<Seq<u8>>::empty());
    while i < bags.len()
        invariant
            i <= bags.len(),
            bv == bags_view(bags@),
            spec_pfx_shape_ok(der@),
            spec_pfx_parse(der@) == Some(pfx),
            spec_pfx_bags(pfx, password@) == Some(bv),
            pw@ == spec_bmp_password(password@),
            bags_bounded(bv.take(i as int)),
            (keys.deep_view(), certs.deep_view()) == spec_keys_and_certs(bv.take(i as int), pw@),
        decreases bags.len() - i,
    {
        let ghost t = bv.take(i + 1);
        assert(t.drop_last() =~= bv.take(i as int));
        assert(t.last() == bags@[i as int]@);
        if !take_bag(&bags[i], &pw, &mut keys, &mut certs) {
            assert(!bag_bounded(bv[i as int]));
            return Err(PfxError::Unsupported);
        }
        assert(bags_bounded(t)) by {
            assert forall|j: int| 0 <= j < t.len() implies bag_bounded(#[trigger] t[j]) by {
                if j < i {
                    assert(t[j] == bv.take(i as int)[j]);
                }
            }
        }
        i = i + 1;
    }
    assert(bv.take(bags.len() as int) =~= bv);
    Ok((keys, certs))
}

} // verus!

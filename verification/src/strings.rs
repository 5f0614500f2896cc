//! Character-level string helpers shared by the rest of the library.

use vstd::prelude::*;

verus! {

/// `String::push` appends one character to the end of the string.
pub assume_specification[ String::push ](s: &mut String, ch: char)
    ensures
        final(s)@ == old(s)@.push(ch),
;

/// The ASCII upper-case letter `c` in lower case; any other character unchanged.
pub open spec fn spec_ascii_lower(c: char) -> char {
    if 'A' <= c && c <= 'Z' {
        ((c as u32) + 32) as char
    } else {
        c
    }
}

/// The ASCII lower-case letter `c` in upper case; any other character unchanged.
pub open spec fn spec_ascii_upper(c: char) -> char {
    if 'a' <= c && c <= 'z' {
        ((c as u32) - 32) as char
    } else {
        c
    }
}

/// Every character of `s` mapped through `spec_ascii_lower`.
pub open spec fn spec_lower_seq(s: Seq<char>) -> Seq<char> {
    Seq::new(s.len(), |i: int| spec_ascii_lower(s[i]))
}

/// Every character of `s` mapped through `spec_ascii_upper`.
pub open spec fn spec_upper_seq(s: Seq<char>) -> Seq<char> {
    Seq::new(s.len(), |i: int| spec_ascii_upper(s[i]))
}

/// `needle` occurs in `hay` at position `at`.
pub open spec fn occurs_at(hay: Seq<char>, needle: Seq<char>, at: int) -> bool {
    0 <= at && at + needle.len() <= hay.len() && hay.subrange(at, at + needle.len()) == needle
}

/// `needle` occurs somewhere in `hay`.
pub open spec fn contains_seq(hay: Seq<char>, needle: Seq<char>) -> bool {
    exists|at: int| occurs_at(hay, needle, at)
}

/// The characters of `s`, in order.
pub fn chars_of(s: &str) -> (res: Vec<char>)
    ensures
        res@ == s@,
{
    let mut res: Vec<char> = Vec::new();
    for c in iter: s.chars()
        invariant
            res@ == iter.seq().take(iter.index() as int),
            iter.seq() == s@,
    {
        res.push(c);
    }
    res
}

/// A string holding the given characters.
pub fn string_of(chars: &Vec<char>) -> (res: String)
    ensures
        res@ == chars@,
{
    let mut res = String::new();
    let mut i: usize = 0;
    while i < chars.len()
        invariant
            i <= chars.len(),
            res@ == chars@.take(i as int),
        decreases chars.len() - i,
    {
        res.push(chars[i]);
        i = i + 1;
        assert(chars@.take(i as int) == chars@.take((i - 1) as int).push(chars@[i - 1]));
    }
    assert(chars@.take(chars.len() as int) == chars@);
    res
}

/// A new string with the same characters as `s`.
pub fn owned(s: &str) -> (res: String)
    ensures
        res@ == s@,
{
    let v = chars_of(s);
    string_of(&v)
}

/// `c` in lower case when it is an ASCII letter.
pub fn ascii_lower(c: char) -> (r: char)
    ensures
        r == spec_ascii_lower(c),
{
    if 'A' <= c && c <= 'Z' {
        ((c as u8) + 32) as char
    } else {
        c
    }
}

/// `c` in upper case when it is an ASCII letter.
pub fn ascii_upper(c: char) -> (r: char)
    ensures
        r == spec_ascii_upper(c),
{
    if 'a' <= c && c <= 'z' {
        ((c as u8) - 32) as char
    } else {
        c
    }
}

/// Two character sequences are equal.
pub fn chars_eq(a: &Vec<char>, b: &Vec<char>) -> (r: bool)
    ensures
        r == (a@ == b@),
{
    if a.len() != b.len() {
        return false;
    }
    let mut i: usize = 0;
    while i < a.len()
        invariant
            i <= a.len(),
            a.len() == b.len(),
            forall|j: int| 0 <= j < i ==> a@[j] == b@[j],
        decreases a.len() - i,
    {
        if a[i] != b[i] {
            return false;
        }
        i = i + 1;
    }
    assert(a@ =~= b@);
    true
}

/// Two strings hold the same characters.
pub fn str_eq(a: &str, b: &str) -> (r: bool)
    ensures
        r == (a@ == b@),
{
    let va = chars_of(a);
    let vb = chars_of(b);
    chars_eq(&va, &vb)
}

/// Two strings are equal once ASCII letters are folded to one case.
pub fn eq_ignore_ascii_case(a: &str, b: &str) -> (r: bool)
    ensures
        r == (spec_lower_seq(a@) == spec_lower_seq(b@)),
{
    let va = chars_of(a);
    let vb = chars_of(b);
    if va.len() != vb.len() {
        assert(spec_lower_seq(a@).len() != spec_lower_seq(b@).len());
        return false;
    }
    let mut i: usize = 0;
    while i < va.len()
        invariant
            i <= va.len(),
            va.len() == vb.len(),
            va@ == a@,
            vb@ == b@,
            forall|j: int| 0 <= j < i ==> spec_ascii_lower(a@[j]) == spec_ascii_lower(b@[j]),
        decreases va.len() - i,
    {
        if ascii_lower(va[i]) != ascii_lower(vb[i]) {
            assert(spec_lower_seq(a@)[i as int] != spec_lower_seq(b@)[i as int]);
            return false;
        }
        i = i + 1;
    }
    assert(spec_lower_seq(a@) =~= spec_lower_seq(b@));
    true
}

/// The characters of `s` with ASCII letters in lower case.
pub fn lower_chars(s: &Vec<char>) -> (r: Vec<char>)
    ensures
        r@ == spec_lower_seq(s@),
{
    let mut r: Vec<char> = Vec::new();
    let mut i: usize = 0;
    while i < s.len()
        invariant
            i <= s.len(),
            r@ == spec_lower_seq(s@.take(i as int)),
        decreases s.len() - i,
    {
        r.push(ascii_lower(s[i]));
        i = i + 1;
        assert(spec_lower_seq(s@.take(i as int)) =~= spec_lower_seq(s@.take((i - 1) as int)).push(
            spec_ascii_lower(s@[i - 1]),
        ));
    }
    assert(s@.take(s.len() as int) == s@);
    r
}

/// `needle` occurs in `hay` at position `at`.
fn occurs_at_exec(hay: &Vec<char>, needle: &Vec<char>, at: usize) -> (r: bool)
    requires
        at + needle.len() <= hay.len(),
    ensures
        r == occurs_at(hay@, needle@, at as int),
{
    let mut i: usize = 0;
    while i < needle.len()
        invariant
            i <= needle.len(),
            at + needle.len() <= hay.len(),
            forall|j: int| 0 <= j < i ==> hay@[at + j] == needle@[j],
        decreases needle.len() - i,
    {
        if hay[at + i] != needle[i] {
            assert(hay@.subrange(at as int, at + needle.len())[i as int] != needle@[i as int]);
            return false;
        }
        i = i + 1;
    }
    assert(hay@.subrange(at as int, at + needle.len()) =~= needle@);
    true
}

/// `needle` occurs somewhere in `hay`.
pub fn contains_chars(hay: &Vec<char>, needle: &Vec<char>) -> (r: bool)
    ensures
        r == contains_seq(hay@, needle@),
{
    if needle.len() > hay.len() {
        return false;
    }
    let mut at: usize = 0;
    let last = hay.len() - needle.len();
    loop
        invariant
            last == hay.len() - needle.len(),
            needle.len() <= hay.len(),
            at <= last,
            forall|k: int| 0 <= k < at ==> !occurs_at(hay@, needle@, k),
        ensures
            forall|k: int| 0 <= k <= last ==> !occurs_at(hay@, needle@, k),
        decreases last - at,
    {
        if occurs_at_exec(hay, needle, at) {
            return true;
        }
        if at == last {
            break;
        }
        at = at + 1;
    }
    assert forall|k: int| !occurs_at(hay@, needle@, k) by {
        if 0 <= k <= last {
        }
    }
    false
}

/// `needle` occurs somewhere in `hay`.
pub fn str_contains(hay: &Vec<char>, needle: &str) -> (r: bool)
    ensures
        r == contains_seq(hay@, needle@),
{
    let n = chars_of(needle);
    contains_chars(hay, &n)
}

/// `a` comes before `b` in lexicographic order of code points.
pub open spec fn seq_lt(a: Seq<char>, b: Seq<char>) -> bool
    decreases a.len(),
{
    if a.len() == 0 {
        b.len() > 0
    } else if b.len() == 0 {
        false
    } else if a[0] != b[0] {
        (a[0] as int) < (b[0] as int)
    } else {
        seq_lt(a.drop_first(), b.drop_first())
    }
}

/// The lexicographic order is irreflexive.
pub proof fn lemma_seq_lt_irreflexive(a: Seq<char>)
    ensures
        !seq_lt(a, a),
    decreases a.len(),
{
    if a.len() > 0 {
        lemma_seq_lt_irreflexive(a.drop_first());
    }
}

/// Of two different sequences, exactly one comes first.
pub proof fn lemma_seq_lt_total(a: Seq<char>, b: Seq<char>)
    ensures
        a != b ==> (seq_lt(a, b) != seq_lt(b, a)),
        a == b ==> !seq_lt(a, b),
    decreases a.len(),
{
    lemma_seq_lt_irreflexive(a);
    if a.len() > 0 && b.len() > 0 && a[0] == b[0] {
        lemma_seq_lt_total(a.drop_first(), b.drop_first());
        if a.drop_first() == b.drop_first() {
            assert(a =~= seq![a[0]] + a.drop_first());
            assert(b =~= seq![b[0]] + b.drop_first());
        }
    }
    if a.len() > 0 && b.len() > 0 && a[0] != b[0] {
        assert((a[0] as int) != (b[0] as int));
    }
    if a.len() == 0 && b.len() == 0 {
        assert(a =~= b);
    }
}

/// The lexicographic order is transitive.
pub proof fn lemma_seq_lt_transitive(a: Seq<char>, b: Seq<char>, c: Seq<char>)
    requires
        seq_lt(a, b),
        seq_lt(b, c),
    ensures
        seq_lt(a, c),
    decreases a.len(),
{
    if a.len() > 0 && b.len() > 0 && c.len() > 0 && a[0] == b[0] && b[0] == c[0] {
        lemma_seq_lt_transitive(a.drop_first(), b.drop_first(), c.drop_first());
    }
}

/// The result of comparing two character sequences.
#[derive(Clone, Copy, Debug, PartialEq, Eq, Structural)]
pub enum SeqOrder {
    Less,
    Equal,
    Greater,
}

/// Compares two character sequences in lexicographic order of code points.
pub fn compare_chars(a: &Vec<char>, b: &Vec<char>) -> (r: SeqOrder)
    ensures
        r == SeqOrder::Less <==> seq_lt(a@, b@),
        r == SeqOrder::Equal <==> a@ == b@,
        r == SeqOrder::Greater <==> seq_lt(b@, a@),
{
    proof {
        lemma_seq_lt_total(a@, b@);
    }
    let mut i: usize = 0;
    assert(a@.skip(0) == a@ && b@.skip(0) == b@);
    while i < a.len() && i < b.len() && a[i] == b[i]
        invariant
            i <= a.len(),
            i <= b.len(),
            a@.take(i as int) == b@.take(i as int),
            seq_lt(a@, b@) == seq_lt(a@.skip(i as int), b@.skip(i as int)),
            seq_lt(b@, a@) == seq_lt(b@.skip(i as int), a@.skip(i as int)),
        decreases a.len() - i,
    {
        assert(a@.skip(i as int).drop_first() =~= a@.skip(i + 1));
        assert(b@.skip(i as int).drop_first() =~= b@.skip(i + 1));
        assert(a@.take(i + 1) =~= a@.take(i as int).push(a@[i as int]));
        assert(b@.take(i + 1) =~= b@.take(i as int).push(b@[i as int]));
        i = i + 1;
    }
    if i == a.len() && i == b.len() {
        assert(a@ =~= a@.take(i as int));
        assert(b@ =~= b@.take(i as int));
        SeqOrder::Equal
    } else if i == a.len() {
        assert(a@.skip(i as int).len() == 0);
        assert(a@ != b@);
        SeqOrder::Less
    } else if i == b.len() {
        assert(b@.skip(i as int).len() == 0);
        assert(a@ != b@);
        SeqOrder::Greater
    } else {
        assert(a@.skip(i as int)[0] == a@[i as int]);
        assert(b@.skip(i as int)[0] == b@[i as int]);
        assert(a@ != b@) by {
            if a@ == b@ {
                assert(a@[i as int] == b@[i as int]);
            }
        }
        if a[i] < b[i] {
            SeqOrder::Less
        } else {
            SeqOrder::Greater
        }
    }
}

/// The characters of `s` with ASCII letters in upper case.
pub fn upper_chars(s: &Vec<char>) -> (r: Vec<char>)
    ensures
        r@ == spec_upper_seq(s@),
{
    let mut r: Vec<char> = Vec::new();
    let mut i: usize = 0;
    while i < s.len()
        invariant
            i <= s.len(),
            r@ == spec_upper_seq(s@.take(i as int)),
        decreases s.len() - i,
    {
        r.push(ascii_upper(s[i]));
        i = i + 1;
        assert(spec_upper_seq(s@.take(i as int)) =~= spec_upper_seq(s@.take((i - 1) as int)).push(
            spec_ascii_upper(s@[i - 1]),
        ));
    }
    assert(s@.take(s.len() as int) == s@);
    r
}

/// The one-character string literal holding an underscore.
pub proof fn lemma_underscore()
    ensures
        "_"@ == seq!['_'],
{
    reveal_strlit("_");
    assert("_"@ =~= seq!['_']);
}

/// What `str::to_lowercase` yields for the given characters.
pub uninterp spec fn spec_to_lowercase(s: Seq<char>) -> Seq<char>;

/// All characters are ASCII.
pub open spec fn all_ascii(s: Seq<char>) -> bool {
    forall|i: int| 0 <= i < s.len() ==> (s[i] as int) < 128
}

/// Lower-cases text with `str::to_lowercase` (Unicode case mapping). The
/// contract names the result; for ASCII text it is the ASCII lower case, as
/// the standard library documents.
#[verifier::external_body]
pub fn to_lowercase(s: &str) -> (r: String)
    ensures
        r@ == spec_to_lowercase(s@),
        all_ascii(s@) ==> r@ == spec_lower_seq(s@),
{
    s.to_lowercase()
}

/// The characters with the Unicode White_Space property, which
/// `char::is_whitespace` tests: tab through carriage return, space, next
/// line, no-break space, ogham space mark, the spaces from en quad to hair
/// space, the line and paragraph separators, narrow no-break space, medium
/// mathematical space and ideographic space.
pub open spec fn spec_is_whitespace(c: char) -> bool {
    ||| '\t' <= c <= '\r'
    ||| c == ' '
    ||| c == '\u{85}'
    ||| c == '\u{A0}'
    ||| c == '\u{1680}'
    ||| '\u{2000}' <= c <= '\u{200A}'
    ||| c == '\u{2028}'
    ||| c == '\u{2029}'
    ||| c == '\u{202F}'
    ||| c == '\u{205F}'
    ||| c == '\u{3000}'
}

/// What `char::is_numeric` says of `c` (Unicode numeric characters).
pub uninterp spec fn spec_is_numeric(c: char) -> bool;

/// Whether `c` is whitespace in the Unicode sense, as `char::is_whitespace`
/// decides it.
pub fn is_whitespace(c: char) -> (r: bool)
    ensures
        r == spec_is_whitespace(c),
{
    ('\t' <= c && c <= '\r') || c == ' ' || c == '\u{85}' || c == '\u{A0}' || c == '\u{1680}'
        || ('\u{2000}' <= c && c <= '\u{200A}') || c == '\u{2028}' || c == '\u{2029}'
        || c == '\u{202F}' || c == '\u{205F}' || c == '\u{3000}'
}

/// Tests `c` with `char::is_numeric`. The contract names the result and
/// states the documented ASCII cases: the digits are numeric, and ASCII
/// letters, space and punctuation are not.
#[verifier::external_body]
pub fn is_numeric(c: char) -> (r: bool)
    ensures
        r == spec_is_numeric(c),
        ('0' <= c <= '9') ==> r,
        ((c as int) < 128 && !('0' <= c <= '9')) ==> !r,
{
    c.is_numeric()
}

/// What `char::is_uppercase` says of `c` (the Unicode Uppercase property).
pub uninterp spec fn spec_is_uppercase(c: char) -> bool;

/// Tests `c` with `char::is_uppercase`. The contract names the result and
/// states the documented ASCII cases: among ASCII characters exactly the
/// letters A to Z are upper case.
#[verifier::external_body]
pub fn is_uppercase(c: char) -> (r: bool)
    ensures
        r == spec_is_uppercase(c),
        ('A' <= c <= 'Z') ==> r,
        ((c as int) < 128 && !('A' <= c <= 'Z')) ==> !r,
{
    c.is_uppercase()
}

/// `s` without leading and trailing whitespace.
pub open spec fn spec_trim(s: Seq<char>) -> Seq<char> {
    s.subrange(spec_trim_start(s), spec_trim_end(s))
}

/// The index of the first non-whitespace character (or the length).
#[verifier::opaque]
pub open spec fn spec_trim_start(s: Seq<char>) -> int {
    if exists|i: int| 0 <= i < s.len() && !spec_is_whitespace(s[i]) {
        choose|i: int| 0 <= i < s.len() && !spec_is_whitespace(s[i]) && forall|j: int| 0 <= j < i ==> spec_is_whitespace(s[j])
    } else {
        s.len() as int
    }
}

/// One past the index of the last non-whitespace character (or the start).
#[verifier::opaque]
pub open spec fn spec_trim_end(s: Seq<char>) -> int {
    if exists|i: int| 0 <= i < s.len() && !spec_is_whitespace(s[i]) {
        1 + choose|i: int| 0 <= i < s.len() && !spec_is_whitespace(s[i]) && forall|j: int| i < j < s.len() ==> spec_is_whitespace(s[j])
    } else {
        s.len() as int
    }
}

/// `s` without leading and trailing whitespace, as `str::trim` does.
pub fn trim_chars(s: &Vec<char>) -> (r: Vec<char>)
    ensures
        r@ == spec_trim(s@),
{
    reveal(spec_trim_start);
    reveal(spec_trim_end);
    let mut start: usize = 0;
    while start < s.len() && is_whitespace(s[start])
        invariant
            start <= s.len(),
            forall|j: int| 0 <= j < start ==> spec_is_whitespace(s@[j]),
        decreases s.len() - start,
    {
        start = start + 1;
    }
    if start == s.len() {
        assert(!exists|i: int| 0 <= i < s@.len() && !spec_is_whitespace(s@[i]));
        return Vec::new();
    }
    assert(!spec_is_whitespace(s@[start as int]));
    let mut end: usize = s.len();
    while end > start + 1 && is_whitespace(s[end - 1])
        invariant
            start < end <= s.len(),
            !spec_is_whitespace(s@[start as int]),
            forall|j: int| end <= j < s.len() ==> spec_is_whitespace(s@[j]),
        decreases end,
    {
        end = end - 1;
    }
    proof {
        let i0 = choose|i: int| 0 <= i < s@.len() && !spec_is_whitespace(s@[i]) && forall|j: int| 0 <= j < i ==> spec_is_whitespace(s@[j]);
        assert(i0 == start as int) by {
            if i0 < start {
            } else if i0 > start {
            }
        }
        assert(!spec_is_whitespace(s@[end - 1]));
        let i1 = choose|i: int| 0 <= i < s@.len() && !spec_is_whitespace(s@[i]) && forall|j: int| i < j < s@.len() ==> spec_is_whitespace(s@[j]);
        assert(i1 == end - 1) by {
            if i1 < end - 1 {
            } else if i1 > end - 1 {
            }
        }
    }
    let mut r: Vec<char> = Vec::new();
    let mut k = start;
    while k < end
        invariant
            start <= k <= end,
            end <= s.len(),
            r@ == s@.subrange(start as int, k as int),
        decreases end - k,
    {
        r.push(s[k]);
        k = k + 1;
        assert(r@ =~= s@.subrange(start as int, k as int));
    }
    r
}

/// The characters of `s` from `a` up to `b`.
pub fn copy_range(s: &Vec<char>, a: usize, b: usize) -> (r: Vec<char>)
    requires
        a <= b <= s.len(),
    ensures
        r@ == s@.subrange(a as int, b as int),
{
    let mut r: Vec<char> = Vec::new();
    let mut k = a;
    while k < b
        invariant
            a <= k <= b,
            b <= s.len(),
            r@ == s@.subrange(a as int, k as int),
        decreases b - k,
    {
        r.push(s[k]);
        k = k + 1;
        assert(r@ =~= s@.subrange(a as int, k as int));
    }
    r
}

/// The characters of `a` followed by those of `b`.
pub fn concat_chars(a: &Vec<char>, b: &Vec<char>) -> (r: Vec<char>)
    ensures
        r@ == a@ + b@,
{
    let mut r = copy_range(a, 0, a.len());
    assert(a@.subrange(0, a@.len() as int) =~= a@);
    let mut k: usize = 0;
    while k < b.len()
        invariant
            k <= b.len(),
            r@ == a@ + b@.take(k as int),
        decreases b.len() - k,
    {
        r.push(b[k]);
        k = k + 1;
        assert(r@ =~= a@ + b@.take(k as int));
    }
    assert(b@.take(b.len() as int) =~= b@);
    r
}

/// The text `a` followed by `b`.
pub fn concat_str(a: &str, b: &str) -> (r: String)
    ensures
        r@ == a@ + b@,
{
    let va = chars_of(a);
    let vb = chars_of(b);
    let v = concat_chars(&va, &vb);
    string_of(&v)
}

/// Appends the characters of `s`.
pub fn append_str(v: &mut Vec<char>, s: &str)
    ensures
        final(v)@ == old(v)@ + s@,
{
    let c = chars_of(s);
    append_chars(v, &c);
}

/// Appends the characters of `c`.
pub fn append_chars(v: &mut Vec<char>, c: &Vec<char>)
    ensures
        final(v)@ == old(v)@ + c@,
{
    let ghost start = v@;
    let mut i: usize = 0;
    while i < c.len()
        invariant
            i <= c.len(),
            v@ == start + c@.take(i as int),
        decreases c.len() - i,
    {
        v.push(c[i]);
        i = i + 1;
        assert(v@ =~= start + c@.take(i as int));
    }
    assert(c@.take(c.len() as int) =~= c@);
}

/// The character of a decimal digit.
pub open spec fn digit_char(d: nat) -> char {
    ((48 + d) as u32) as char
}

/// The decimal digits of `n`.
pub open spec fn spec_decimal(n: nat) -> Seq<char>
    decreases n,
{
    if n < 10 {
        seq![digit_char(n)]
    } else {
        spec_decimal(n / 10).push(digit_char(n % 10))
    }
}

/// The character of a decimal digit.
fn digit(d: u32) -> (r: char)
    requires
        d < 10,
    ensures
        r == digit_char(d as nat),
{
    ((48 + d) as u8) as char
}

/// The decimal digits of `n`.
pub fn decimal_chars(n: u32) -> (r: Vec<char>)
    ensures
        r@ == spec_decimal(n as nat),
{
    let mut out: Vec<char> = Vec::new();
    let mut m = n;
    assert(spec_decimal(n as nat) =~= spec_decimal(m as nat) + out@);
    while m >= 10
        invariant
            spec_decimal(n as nat) == spec_decimal(m as nat) + out@,
        decreases m,
    {
        let d = digit(m % 10);
        let ghost old_out = out@;
        out.insert(0, d);
        assert(spec_decimal(m as nat) == spec_decimal((m / 10) as nat).push(d));
        assert(spec_decimal(m as nat) + old_out =~= spec_decimal((m / 10) as nat) + out@);
        m = m / 10;
    }
    let d = digit(m);
    let ghost old_out = out@;
    out.insert(0, d);
    assert(spec_decimal(m as nat) + old_out =~= out@);
    out
}

/// The decimal digits of `n`.
pub fn decimal_chars_u64(n: u64) -> (r: Vec<char>)
    ensures
        r@ == spec_decimal(n as nat),
{
    let mut out: Vec<char> = Vec::new();
    let mut m = n;
    assert(spec_decimal(n as nat) =~= spec_decimal(m as nat) + out@);
    while m >= 10
        invariant
            spec_decimal(n as nat) == spec_decimal(m as nat) + out@,
        decreases m,
    {
        let d = digit((m % 10) as u32);
        let ghost old_out = out@;
        out.insert(0, d);
        assert(spec_decimal(m as nat) == spec_decimal((m / 10) as nat).push(d));
        assert(spec_decimal(m as nat) + old_out =~= spec_decimal((m / 10) as nat) + out@);
        m = m / 10;
    }
    let d = digit(m as u32);
    let ghost old_out = out@;
    out.insert(0, d);
    assert(spec_decimal(m as nat) + old_out =~= out@);
    out
}

/// The decimal form of an integer: a minus sign before negative numbers.
pub open spec fn spec_signed_decimal(i: int) -> Seq<char> {
    if i < 0 {
        seq!['-'] + spec_decimal((-i) as nat)
    } else {
        spec_decimal(i as nat)
    }
}

/// The decimal form of `n`, as `to_string` writes it.
pub fn signed_decimal_chars(n: i64) -> (r: Vec<char>)
    ensures
        r@ == spec_signed_decimal(n as int),
{
    if n < 0 {
        let magnitude: u64 = if n == i64::MIN { 9223372036854775808u64 } else { (-n) as u64 };
        let digits = decimal_chars_u64(magnitude);
        let mut out: Vec<char> = Vec::new();
        out.push('-');
        append_chars(&mut out, &digits);
        assert(out@ =~= seq!['-'] + spec_decimal((-(n as int)) as nat));
        out
    } else {
        decimal_chars_u64(n as u64)
    }
}

/// `s` padded on the left with zeros to at least `width` characters.
pub open spec fn spec_zero_pad(s: Seq<char>, width: nat) -> Seq<char> {
    if s.len() >= width {
        s
    } else {
        Seq::new((width - s.len()) as nat, |i: int| '0') + s
    }
}

/// `s` padded on the left with zeros to at least `width` characters.
pub fn zero_pad(s: &Vec<char>, width: usize) -> (r: Vec<char>)
    ensures
        r@ == spec_zero_pad(s@, width as nat),
{
    let mut out: Vec<char> = Vec::new();
    if s.len() < width {
        let n = width - s.len();
        let mut i: usize = 0;
        while i < n
            invariant
                i <= n,
                out@ == Seq::new(i as nat, |j: int| '0'),
            decreases n - i,
        {
            out.push('0');
            i = i + 1;
            assert(out@ =~= Seq::new(i as nat, |j: int| '0'));
        }
    }
    let ghost pad = out@;
    append_chars(&mut out, s);
    if s.len() >= width {
        assert(out@ =~= s@);
    }
    out
}

} // verus!

//! The text that a Windows PowerShell run prints: with or without a UTF-8 byte order mark,
//! in UTF-8 or in UTF-16 little endian.
use vstd::prelude::*;

verus! {

/// The bytes without a leading UTF-8 byte order mark.
pub open spec fn bom_stripped(b: Seq<u8>) -> Seq<u8> {
    if b.len() >= 3 && b[0] == 0xEFu8 && b[1] == 0xBBu8 && b[2] == 0xBFu8 {
        b.skip(3)
    } else {
        b
    }
}

/// The bytes without a leading UTF-8 byte order mark.
pub fn strip_utf8_bom(bytes: &[u8]) -> (r: Vec<u8>)
    ensures
        r@ == bom_stripped(bytes@),
{
    let start: usize = if bytes.len() >= 3 && bytes[0] == 0xEFu8 && bytes[1] == 0xBBu8 && bytes[2]
        == 0xBFu8 {
        3
    } else {
        0
    };
    let mut out: Vec<u8> = Vec::new();
    let mut i: usize = start;
    while i < bytes.len()
        invariant
            start <= i <= bytes@.len(),
            out@ == bytes@.subrange(start as int, i as int),
        decreases bytes@.len() - i,
    {
        out.push(bytes[i]);
        i = i + 1;
        assert(out@ =~= bytes@.subrange(start as int, i as int));
    }
    assert(bytes@.skip(start as int) =~= bytes@.subrange(start as int, bytes@.len() as int));
    assert(bytes@.skip(0) =~= bytes@);
    out
}

/// How many of the first `n` byte pairs have a zero second byte.
pub open spec fn zero_high_pairs(b: Seq<u8>, n: nat) -> nat
    decreases n,
{
    if n == 0 {
        0
    } else {
        zero_high_pairs(b, (n - 1) as nat) + if b[2 * n - 1] == 0u8 {
            1nat
        } else {
            0nat
        }
    }
}

/// Whether the bytes look like UTF-16 little endian: a byte order mark `FF FE`, or, among the
/// complete byte pairs of the first 128 bytes, at least four pairs of which at least half have
/// a zero second byte.
pub open spec fn utf16le_like(b: Seq<u8>) -> bool {
    if b.len() >= 2 && b[0] == 0xFFu8 && b[1] == 0xFEu8 {
        true
    } else if b.len() < 4 {
        false
    } else {
        let pairs = (if b.len() < 128 { b.len() } else { 128 }) / 2;
        pairs >= 4 && zero_high_pairs(b, pairs) * 2 >= pairs
    }
}

/// Whether the bytes look like UTF-16 little endian.
pub fn looks_like_utf16le(bytes: &[u8]) -> (r: bool)
    ensures
        r == utf16le_like(bytes@),
{
    if bytes.len() >= 2 && bytes[0] == 0xFFu8 && bytes[1] == 0xFEu8 {
        return true;
    }
    if bytes.len() < 4 {
        return false;
    }
    let sample: usize = if bytes.len() < 128 {
        bytes.len()
    } else {
        128
    };
    let pairs = sample / 2;
    let mut zeros: usize = 0;
    let mut k: usize = 0;
    while k < pairs
        invariant
            pairs == sample / 2,
            sample <= bytes@.len(),
            sample <= 128,
            k <= pairs,
            zeros == zero_high_pairs(bytes@, k as nat),
            zeros <= k,
        decreases pairs - k,
    {
        if bytes[2 * k + 1] == 0u8 {
            zeros = zeros + 1;
        }
        k = k + 1;
    }
    pairs >= 4 && zeros * 2 >= pairs
}

/// The little-endian 16-bit units of the complete byte pairs.
pub open spec fn le_units(b: Seq<u8>) -> Seq<u16> {
    Seq::new(b.len() / 2, |k: int| (b[2 * k] as int + 256 * b[2 * k + 1] as int) as u16)
}

/// The text that UTF-16 units encode, where they are valid UTF-16: a unit outside the
/// surrogate range stands for itself, a high surrogate followed by a low one for the
/// character they combine to; any other surrogate makes the units invalid.
pub open spec fn utf16_decoded(units: Seq<u16>) -> Option<Seq<char>>
    decreases units.len(),
{
    if units.len() == 0 {
        Some(Seq::empty())
    } else if units[0] < 0xD800 || units[0] > 0xDFFF {
        match utf16_decoded(units.drop_first()) {
            Some(rest) => Some(seq![units[0] as char] + rest),
            None => None,
        }
    } else if units[0] <= 0xDBFF && units.len() >= 2 && 0xDC00 <= units[1] <= 0xDFFF {
        let c = 0x10000 + (units[0] - 0xD800) * 0x400 + (units[1] - 0xDC00);
        match utf16_decoded(units.skip(2)) {
            Some(rest) => Some(seq![c as char] + rest),
            None => None,
        }
    } else {
        None
    }
}

/// `String::from_utf16`, with its error dropped: as its documentation says, it decodes
/// valid UTF-16 and fails on any invalid data.
#[verifier::external_body]
fn string_from_utf16(units: &[u16]) -> (r: Option<String>)
    ensures
        crate::credential::opt_view(r) == utf16_decoded(units@),
{
    String::from_utf16(units).ok()
}

/// The text that `String::from_utf8_lossy` makes of the bytes.
pub uninterp spec fn utf8_lossy(bytes: Seq<u8>) -> Seq<char>;

/// `String::from_utf8_lossy`. The result is named `utf8_lossy`, a function of the bytes
/// alone; as its documentation says, bytes that are valid UTF-8 give exactly their text.
#[verifier::external_body]
fn string_from_utf8_lossy(bytes: &[u8]) -> (r: String)
    ensures
        r@ == utf8_lossy(bytes@),
        vstd::utf8::valid_utf8(bytes@) ==> r@ == vstd::utf8::decode_utf8(bytes@),
{
    String::from_utf8_lossy(bytes).into_owned()
}

/// The text of a PowerShell run's output: empty where nothing but a byte order mark was
/// printed; read as UTF-16 little endian where it looks like it and decodes, after its own
/// byte order mark; else read as UTF-8 with invalid sequences replaced.
pub open spec fn powershell_text(b: Seq<u8>) -> Seq<char> {
    let s = bom_stripped(b);
    if s.len() == 0 {
        Seq::empty()
    } else if utf16le_like(s) {
        let u = if s.len() >= 2 && s[0] == 0xFFu8 && s[1] == 0xFEu8 {
            s.skip(2)
        } else {
            s
        };
        match utf16_decoded(le_units(u)) {
            Some(t) => t,
            None => utf8_lossy(s),
        }
    } else {
        utf8_lossy(s)
    }
}

/// The text of a PowerShell run's output.
pub fn decode_windows_powershell_output(bytes: &[u8]) -> (r: String)
    ensures
        r@ == powershell_text(bytes@),
{
    let s = strip_utf8_bom(bytes);
    if s.len() == 0 {
        return String::new();
    }
    if looks_like_utf16le(s.as_slice()) {
        let start: usize = if s.len() >= 2 && s[0] == 0xFFu8 && s[1] == 0xFEu8 {
            2
        } else {
            0
        };
        let ghost u = s@.skip(start as int);
        let n = (s.len() - start) / 2;
        let mut units: Vec<u16> = Vec::new();
        let mut k: usize = 0;
        while k < n
            invariant
                n == (s@.len() - start) / 2,
                start <= s@.len(),
                s@.len() <= usize::MAX,
                u == s@.skip(start as int),
                k <= n,
                units@ == le_units(u).take(k as int),
            decreases n - k,
        {
            let lo = s[start + 2 * k] as u16;
            let hi = s[start + 2 * k + 1] as u16;
            let unit = lo + 256 * hi;
            units.push(unit);
            assert(u[2 * k as int] == s@[start + 2 * k]);
            assert(u[2 * k + 1] == s@[start + 2 * k + 1]);
            k = k + 1;
            assert(units@ =~= le_units(u).take(k as int));
        }
        assert(le_units(u).take(n as int) =~= le_units(u));
        assert(s@.skip(0) =~= s@);
        match string_from_utf16(units.as_slice()) {
            Some(t) => {
                return t;
            },
            None => {},
        }
    }
    string_from_utf8_lossy(s.as_slice())
}

} // verus!

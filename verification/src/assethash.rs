//! Checksums of emulation assets (CRC-32 and SHA-1), as MAME records them.
use vstd::prelude::*;

use crate::text::string_from_chars;

verus! {

/// `hex::FromHexError`, the error of hex decoding.
#[verifier::external_type_specification]
#[verifier::external_body]
pub struct ExFromHexError(hex::FromHexError);

/// The CRC-32 (IEEE) checksum of `data`, as `crc32fast::hash` computes it.
pub uninterp spec fn crc32_of(data: Seq<u8>) -> u32;

/// The SHA-1 digest of `data`, as `sha1::Sha1::digest` computes it.
pub uninterp spec fn sha1_of(data: Seq<u8>) -> Seq<u8>;

/// An ASCII hexadecimal digit, in either case.
pub open spec fn is_hex_digit(c: char) -> bool {
    ('0' <= c <= '9') || ('a' <= c <= 'f') || ('A' <= c <= 'F')
}

/// The value of a hexadecimal digit.
pub open spec fn hex_val(c: char) -> int {
    if '0' <= c <= '9' {
        c as int - '0' as int
    } else if 'a' <= c <= 'f' {
        c as int - 'a' as int + 10
    } else {
        c as int - 'A' as int + 10
    }
}

/// The `n` bytes that the hexadecimal text `s` spells, if it spells exactly `n` bytes.
pub open spec fn hex_decoded(s: Seq<char>, n: nat) -> Option<Seq<u8>> {
    if s.len() == 2 * n && forall|i: int| 0 <= i < s.len() ==> is_hex_digit(#[trigger] s[i]) {
        Some(Seq::new(n, |i: int| (hex_val(s[2 * i]) * 16 + hex_val(s[2 * i + 1])) as u8))
    } else {
        None
    }
}

/// The lowercase hexadecimal digit for `d`.
pub open spec fn lower_hex_digit(d: int) -> char {
    if d < 10 {
        ((d + '0' as int) as u32) as char
    } else {
        ((d - 10 + 'a' as int) as u32) as char
    }
}

/// `bytes` written in lowercase hexadecimal, two digits per byte.
pub open spec fn lower_hex(bytes: Seq<u8>) -> Seq<char>
    decreases bytes.len(),
{
    if bytes.len() == 0 {
        seq![]
    } else {
        lower_hex(bytes.drop_last()) + seq![
            lower_hex_digit(bytes.last() as int / 16),
            lower_hex_digit(bytes.last() as int % 16),
        ]
    }
}

/// Decodes a hexadecimal text of exactly `N` bytes with `hex::decode_to_slice`.
/// The contract states the crate's documented behaviour: success exactly when the text has
/// `2 * N` characters, all hexadecimal digits (either case), and then each byte is made of two
/// digits, high one first. Which error comes back on failure is not stated.
#[verifier::external_body]
fn decode_hex<const N: usize>(s: &str) -> (r: Result<[u8; N], hex::FromHexError>)
    ensures
        match r {
            Ok(a) => hex_decoded(s@, N as nat) == Some(a@),
            Err(_) => hex_decoded(s@, N as nat) is None,
        },
{
    let mut out = [0u8; N];
    match hex::decode_to_slice(s, &mut out) {
        Ok(()) => Ok(out),
        Err(e) => Err(e),
    }
}

/// Encodes bytes as lowercase hexadecimal with `hex::encode`: two digits per byte, high one
/// first, `0-9a-f`.
#[verifier::external_body]
fn hex_encode(data: &[u8]) -> (r: String)
    ensures
        r@ == lower_hex(data@),
{
    hex::encode(data)
}

/// The CRC-32 of `data`, by `crc32fast::hash`.
#[verifier::external_body]
fn crc32(data: &[u8]) -> (r: u32)
    ensures
        r == crc32_of(data@),
{
    crc32fast::hash(data)
}

/// The SHA-1 digest of `data`, by `sha1::Sha1::digest`; a digest has twenty bytes.
#[verifier::external_body]
fn sha1_digest(data: &[u8]) -> (r: [u8; 20])
    ensures
        r@ == sha1_of(data@),
{
    <sha1::Sha1 as sha1::Digest>::digest(data).into()
}

/// Why checksums could not be read.
#[derive(Debug, Clone, Copy, PartialEq, Eq)]
pub enum AssetHashError {
    /// A checksum text is not hexadecimal of the right length.
    InvalidHex,
}

/// The checksums of an asset; either may be unknown.
#[derive(Copy, Clone, Debug, PartialEq, Eq)]
pub struct AssetHash {
    pub crc: Option<u32>,
    pub sha1: Option<[u8; 20]>,
}

/// The value of four bytes, most significant first.
pub open spec fn be_u32(b: Seq<u8>) -> u32 {
    (b[0] as int * 16777216 + b[1] as int * 65536 + b[2] as int * 256 + b[3] as int) as u32
}

/// The four bytes of `c`, most significant first.
pub open spec fn be_bytes(c: u32) -> Seq<u8> {
    seq![
        (c / 16777216) as u8,
        ((c / 65536) % 256) as u8,
        ((c / 256) % 256) as u8,
        (c % 256) as u8,
    ]
}

/// The checksums that the two hexadecimal texts name, or `None` when a text is not valid.
pub open spec fn hash_from_hex(crc: Option<Seq<char>>, sha1: Option<Seq<char>>) -> Option<
    (Option<u32>, Option<Seq<u8>>),
> {
    let c = match crc {
        Some(t) => match hex_decoded(t, 4) {
            Some(b) => Some(Some(be_u32(b))),
            None => None,
        },
        None => Some(None),
    };
    let s = match sha1 {
        Some(t) => match hex_decoded(t, 20) {
            Some(b) => Some(Some(b)),
            None => None,
        },
        None => Some(None),
    };
    match (c, s) {
        (Some(c), Some(s)) => Some((c, s)),
        _ => None,
    }
}

/// An optional text as an optional character sequence.
pub open spec fn opt_text(o: Option<&str>) -> Option<Seq<char>> {
    match o {
        Some(s) => Some(s@),
        None => None,
    }
}

/// The optional SHA-1 as an optional byte sequence.
pub open spec fn opt_sha1(o: Option<[u8; 20]>) -> Option<Seq<u8>> {
    match o {
        Some(a) => Some(a@),
        None => None,
    }
}

/// Two optional checksums agree: one is unknown, or they are equal.
pub open spec fn agree<T>(a: Option<T>, b: Option<T>) -> bool {
    match (a, b) {
        (Some(x), Some(y)) => x == y,
        _ => true,
    }
}

/// The text that shows checksums: `CRC(...)`, `SHA1(...)`, both separated by a space, or
/// `<<NONE>>`.
pub open spec fn hash_text(crc: Option<u32>, sha1: Option<Seq<u8>>) -> Seq<char> {
    let c = match crc {
        Some(c) => seq!['C', 'R', 'C', '('] + lower_hex(be_bytes(c)) + seq![')'],
        None => seq![],
    };
    let sep = if crc is Some && sha1 is Some {
        seq![' ']
    } else {
        seq![]
    };
    let s = match sha1 {
        Some(s) => seq!['S', 'H', 'A', '1', '('] + lower_hex(s) + seq![')'],
        None => seq![],
    };
    if crc is None && sha1 is None {
        seq!['<', '<', 'N', 'O', 'N', 'E', '>', '>']
    } else {
        c + sep + s
    }
}

impl Default for AssetHash {
    fn default() -> (r: AssetHash)
        ensures
            r.crc is None && r.sha1 is None,
    {
        AssetHash { crc: None, sha1: None }
    }
}

fn bytes_eq_20(a: &[u8; 20], b: &[u8; 20]) -> (r: bool)
    ensures
        r == (a@ == b@),
{
    let mut i: usize = 0;
    while i < 20
        invariant
            i <= 20,
            a@.len() == 20,
            b@.len() == 20,
            forall|k: int| 0 <= k < i ==> a@[k] == b@[k],
        decreases 20 - i,
    {
        if a[i] != b[i] {
            return false;
        }
        i = i + 1;
    }
    assert(a@ =~= b@);
    true
}

fn be_bytes_exec(c: u32) -> (r: [u8; 4])
    ensures
        r@ == be_bytes(c),
{
    let r = [(c / 16777216) as u8, ((c / 65536) % 256) as u8, ((c / 256) % 256) as u8, (c % 256) as u8];
    assert(r@ =~= be_bytes(c));
    r
}

impl AssetHash {
    /// Whether this is the "nothing known" value.
    pub fn is_default(&self) -> (r: bool)
        ensures
            r == (self.crc is None && self.sha1 is None),
    {
        self.crc.is_none() && self.sha1.is_none()
    }

    /// Reads checksums from hexadecimal texts: eight digits for the CRC-32 (most significant
    /// first) and forty for the SHA-1. Fails when a given text is not such hexadecimal.
    pub fn from_hex_strings(crc_string: Option<&str>, sha1_string: Option<&str>) -> (r: Result<
        AssetHash,
        AssetHashError,
    >)
        ensures
            match hash_from_hex(opt_text(crc_string), opt_text(sha1_string)) {
                Some((c, s)) => r matches Ok(h) && h.crc == c && opt_sha1(h.sha1) == s,
                None => r == Err::<AssetHash, AssetHashError>(AssetHashError::InvalidHex),
            },
    {
        let crc = match crc_string {
            Some(t) => match decode_hex::<4>(t) {
                Ok(b) => {
                    let v = b[0] as u32 * 16777216 + b[1] as u32 * 65536 + b[2] as u32 * 256
                        + b[3] as u32;
                    Some(v)
                },
                Err(_) => return Err(AssetHashError::InvalidHex),
            },
            None => None,
        };
        let sha1 = match sha1_string {
            Some(t) => match decode_hex::<20>(t) {
                Ok(b) => Some(b),
                Err(_) => return Err(AssetHashError::InvalidHex),
            },
            None => None,
        };
        Ok(AssetHash { crc, sha1 })
    }

    /// The checksums of `data`.
    pub fn from_data(data: &[u8]) -> (r: AssetHash)
        ensures
            r.crc == Some(crc32_of(data@)),
            opt_sha1(r.sha1) == Some(sha1_of(data@)),
    {
        let crc = crc32(data);
        let sha1 = sha1_digest(data);
        AssetHash { crc: Some(crc), sha1: Some(sha1) }
    }

    /// Whether two sets of checksums can describe the same data: each checksum known on both
    /// sides is equal.
    pub fn matches(&self, other: &AssetHash) -> (r: bool)
        ensures
            r == (agree(self.crc, other.crc) && agree(opt_sha1(self.sha1), opt_sha1(other.sha1))),
    {
        let crc_ok = match (self.crc, other.crc) {
            (Some(x), Some(y)) => x == y,
            _ => true,
        };
        let sha1_ok = match (&self.sha1, &other.sha1) {
            (Some(x), Some(y)) => bytes_eq_20(x, y),
            _ => true,
        };
        crc_ok && sha1_ok
    }

    /// The text that shows these checksums, such as `CRC(f2345678) SHA1(9988...ff)`.
    pub fn to_display_string(&self) -> (r: String)
        ensures
            r@ == hash_text(self.crc, opt_sha1(self.sha1)),
    {
        if self.crc.is_none() && self.sha1.is_none() {
            let none = vec!['<', '<', 'N', 'O', 'N', 'E', '>', '>'];
            assert(none@ =~= seq!['<', '<', 'N', 'O', 'N', 'E', '>', '>']);
            return string_from_chars(&none);
        }
        let mut out: Vec<char> = Vec::new();
        if let Some(c) = self.crc {
            let bytes = be_bytes_exec(c);
            out.push('C');
            out.push('R');
            out.push('C');
            out.push('(');
            let h = hex_encode(&bytes);
            crate::text::push_all(&mut out, &crate::text::chars_of(h.as_str()));
            out.push(')');
        }
        if self.crc.is_some() && self.sha1.is_some() {
            out.push(' ');
        }
        if let Some(s) = &self.sha1 {
            out.push('S');
            out.push('H');
            out.push('A');
            out.push('1');
            out.push('(');
            let h = hex_encode(s);
            crate::text::push_all(&mut out, &crate::text::chars_of(h.as_str()));
            out.push(')');
        }
        assert(out@ =~= hash_text(self.crc, opt_sha1(self.sha1)));
        string_from_chars(&out)
    }
}

proof fn lemma_lower_hex_digit(d: int)
    requires
        0 <= d < 16,
    ensures
        is_hex_digit(lower_hex_digit(d)),
        hex_val(lower_hex_digit(d)) == d,
{
}

proof fn lemma_lower_hex(bytes: Seq<u8>)
    ensures
        lower_hex(bytes).len() == 2 * bytes.len(),
        forall|i: int|
            0 <= i < bytes.len() ==> lower_hex(bytes)[2 * i] == lower_hex_digit(
                #[trigger] bytes[i] as int / 16,
            ) && lower_hex(bytes)[2 * i + 1] == lower_hex_digit(bytes[i] as int % 16),
    decreases bytes.len(),
{
    if bytes.len() > 0 {
        lemma_lower_hex(bytes.drop_last());
        assert forall|i: int| 0 <= i < bytes.len() implies lower_hex(bytes)[2 * i]
            == lower_hex_digit(#[trigger] bytes[i] as int / 16) && lower_hex(bytes)[2 * i + 1]
            == lower_hex_digit(bytes[i] as int % 16) by {
            if i < bytes.len() - 1 {
                assert(bytes.drop_last()[i] == bytes[i]);
            }
        }
    }
}

/// Hexadecimal text written for some bytes reads back as the same bytes.
pub proof fn lemma_hex_round_trip(bytes: Seq<u8>)
    ensures
        hex_decoded(lower_hex(bytes), bytes.len()) == Some(bytes),
{
    lemma_lower_hex(bytes);
    let h = lower_hex(bytes);
    assert forall|i: int| 0 <= i < h.len() implies is_hex_digit(#[trigger] h[i]) by {
        let j = i / 2;
        assert(bytes[j] == bytes[j]);
        if i % 2 == 0 {
            assert(i == 2 * j);
            lemma_lower_hex_digit(bytes[j] as int / 16);
        } else {
            assert(i == 2 * j + 1);
            lemma_lower_hex_digit(bytes[j] as int % 16);
        }
    }
    let d = hex_decoded(h, bytes.len())->0;
    assert forall|i: int| 0 <= i < bytes.len() implies d[i] == bytes[i] by {
        assert(bytes[i] == bytes[i]);
        lemma_lower_hex_digit(bytes[i] as int / 16);
        lemma_lower_hex_digit(bytes[i] as int % 16);
    }
    assert(d =~= bytes);
}

/// The four bytes of a CRC-32, most significant first, give back the CRC-32.
pub proof fn lemma_be_round_trip(c: u32)
    ensures
        be_u32(be_bytes(c)) == c,
{
    assert(be_u32(be_bytes(c)) == c) by (nonlinear_arith);
}

/// The checksums written in hexadecimal (as the display text shows them) read back as
/// the same checksums.
pub proof fn lemma_hash_hex_round_trip(crc: u32, sha1: Seq<u8>)
    requires
        sha1.len() == 20,
    ensures
        hash_from_hex(Some(lower_hex(be_bytes(crc))), Some(lower_hex(sha1))) == Some(
            (Some(crc), Some(sha1)),
        ),
{
    lemma_hex_round_trip(be_bytes(crc));
    lemma_hex_round_trip(sha1);
    lemma_be_round_trip(crc);
}

/// Any checksums match themselves, and matching does not depend on the order.
pub proof fn lemma_matches_reflexive_symmetric(a: AssetHash, b: AssetHash)
    ensures
        agree(a.crc, a.crc) && agree(opt_sha1(a.sha1), opt_sha1(a.sha1)),
        (agree(a.crc, b.crc) && agree(opt_sha1(a.sha1), opt_sha1(b.sha1))) == (agree(b.crc, a.crc)
            && agree(opt_sha1(b.sha1), opt_sha1(a.sha1))),
{
}

} // verus!

//! Checking the host and port of a socket connection.
use crate::text::split_char;
use vstd::prelude::*;

verus! {

/// The characters that a host name may hold: ASCII letters and digits, `-` and `.`.
pub open spec fn hostname_char(c: char) -> bool {
    ('a' <= c && c <= 'z') || ('A' <= c && c <= 'Z') || ('0' <= c && c <= '9') || c == '-' || c
        == '.'
}

/// A label of a host name: not empty, at most 63 characters, and neither starting
/// nor ending with `-`.
pub open spec fn hostname_label(l: Seq<char>) -> bool {
    0 < l.len() <= 63 && l[0] != '-' && l.last() != '-'
}

/// A valid host name: 1 to 253 characters, all of them allowed, and every label
/// between dots valid.
pub open spec fn hostname_valid(h: Seq<char>) -> bool {
    &&& 0 < h.len() <= 253
    &&& forall|i: int| 0 <= i < h.len() ==> hostname_char(#[trigger] h[i])
    &&& forall|k: int|
        0 <= k < split_char(h, '.').len() ==> hostname_label(#[trigger] split_char(h, '.')[k])
}

/// `hostname_validator::is_valid`: whether `hostname` is a valid host name.  (The
/// crate counts bytes; a name that passes holds ASCII characters only, each one
/// byte.)
#[verifier::external_body]
fn is_valid_hostname(hostname: &str) -> (r: bool)
    ensures
        r == hostname_valid(hostname@),
{
    hostname_validator::is_valid(hostname)
}

/// The value of a string of decimal digits.
pub open spec fn digits_value(d: Seq<char>) -> nat
    decreases d.len(),
{
    if d.len() == 0 {
        0
    } else {
        digits_value(d.drop_last()) * 10 + ((d.last() as u32) - ('0' as u32)) as nat
    }
}

/// The digits of a port number: the text without one leading `+`.
pub open spec fn port_digits(p: Seq<char>) -> Seq<char> {
    if p.len() > 0 && p[0] == '+' {
        p.skip(1)
    } else {
        p
    }
}

/// The port number written in `p`, as `u16`'s parsing reads it: an optional `+`, then
/// one or more ASCII digits whose value fits in 16 bits.
pub open spec fn port_number(p: Seq<char>) -> Option<u16> {
    let d = port_digits(p);
    if d.len() > 0 && (forall|i: int| 0 <= i < d.len() ==> '0' <= #[trigger] d[i] <= '9')
        && digits_value(d) <= 65535 {
        Some(digits_value(d) as u16)
    } else {
        None
    }
}

proof fn lemma_digits_value_grows(d: Seq<char>, k: int)
    requires
        0 <= k <= d.len(),
        forall|i: int| 0 <= i < d.len() ==> '0' <= #[trigger] d[i] <= '9',
    ensures
        digits_value(d.take(k)) <= digits_value(d),
    decreases d.len() - k,
{
    if k < d.len() {
        lemma_digits_value_grows(d, k + 1);
        assert(d.take(k + 1).drop_last() =~= d.take(k));
    } else {
        assert(d.take(k) =~= d);
    }
}

/// Parses a port number as `u16`'s parsing does; `None` where it fails.
pub fn parse_port(text: &str) -> (r: Option<u16>)
    ensures
        r == port_number(text@),
{
    let chars = crate::text::chars_of(text);
    let ghost d = port_digits(text@);
    let start: usize = if chars.len() > 0 && chars[0] == '+' {
        1
    } else {
        0
    };
    assert(d =~= chars@.skip(start as int));
    if start >= chars.len() {
        return None;
    }
    let mut v: u32 = 0;
    let mut i: usize = start;
    while i < chars.len()
        invariant
            start <= i <= chars.len(),
            chars@ == text@,
            d == chars@.skip(start as int),
            d == port_digits(text@),
            d.len() > 0,
            v == digits_value(d.take(i - start)),
            v <= 65535,
            forall|k: int| 0 <= k < i - start ==> '0' <= #[trigger] d[k] <= '9',
        decreases chars.len() - i,
    {
        let c = chars[i];
        if c < '0' || c > '9' {
            assert(d[i - start] == c);
            assert(!('0' <= d[i - start] <= '9'));
            return None;
        }
        let digit: u32 = (c as u32) - ('0' as u32);
        let ghost before = d.take(i - start);
        v = v * 10 + digit;
        assert(d.take(i - start + 1).drop_last() =~= before);
        assert(d.take(i - start + 1).last() == c);
        assert(v == digits_value(d.take(i - start + 1)));
        i = i + 1;
        if v > 65535 {
            proof {
                if forall|k: int| 0 <= k < d.len() ==> '0' <= #[trigger] d[k] <= '9' {
                    lemma_digits_value_grows(d, i - start);
                }
            }
            return None;
        }
    }
    assert(d.take(d.len() as int) =~= d);
    Some(v as u16)
}

/// The host and port entered, when the host name is valid and the port a number.
pub fn get_results(host_text: &str, port_text: &str) -> (r: Option<(String, u16)>)
    ensures
        r matches Some((h, p)) ==> h@ == host_text@ && port_number(port_text@) == Some(p)
            && hostname_valid(host_text@),
        r is None <==> (port_number(port_text@) is None || !hostname_valid(host_text@)),
{
    let port = match parse_port(port_text) {
        Some(p) => p,
        None => {
            return None;
        },
    };
    if is_valid_hostname(host_text) {
        Some((host_text.to_owned(), port))
    } else {
        None
    }
}

/// Whether the dialog can be accepted: whether the host and port entered are valid.
pub fn can_accept(host_text: &str, port_text: &str) -> (r: bool)
    ensures
        r == (port_number(port_text@) is Some && hostname_valid(host_text@)),
{
    get_results(host_text, port_text).is_some()
}

proof fn lemma_digit_value(k: int)
    requires
        0 <= k < 10,
    ensures
        '0' <= crate::text::digit_char(k) <= '9',
        ((crate::text::digit_char(k) as u32) - ('0' as u32)) as nat == k,
{
}

proof fn lemma_decimal_digits(n: nat)
    ensures
        crate::text::decimal(n).len() > 0,
        forall|i: int|
            0 <= i < crate::text::decimal(n).len() ==> '0' <= #[trigger] crate::text::decimal(n)[i]
                <= '9',
        digits_value(crate::text::decimal(n)) == n,
    decreases n,
{
    let d = crate::text::decimal(n);
    lemma_digit_value((n % 10) as int);
    if n < 10 {
        assert(d.drop_last().len() == 0);
        assert(digits_value(d.drop_last()) == 0);
    }
    if n >= 10 {
        lemma_decimal_digits(n / 10);
        assert(d.drop_last() =~= crate::text::decimal(n / 10));
        assert forall|i: int| 0 <= i < d.len() implies '0' <= #[trigger] d[i] <= '9' by {
            if i < d.len() - 1 {
                assert(d[i] == crate::text::decimal(n / 10)[i]);
            }
        }
    }
}

/// A port number written in decimal reads back as the same number.
pub proof fn lemma_port_round_trip(n: u16)
    ensures
        port_number(crate::text::decimal(n as nat)) == Some(n),
{
    lemma_decimal_digits(n as nat);
    let d = crate::text::decimal(n as nat);
    assert('0' <= d[0] <= '9');
    assert(port_digits(d) == d);
}

} // verus!

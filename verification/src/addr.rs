//! IP address model and the address classifier: decides whether an address
//! is internal (non-routable, must never be contacted) or externally
//! routable.

use vstd::prelude::*;

verus! {

/// An IP address, v4 or v6, held as plain integers so that the classifier
/// and the resolution gate can be reasoned about directly.
#[derive(Clone, Copy, PartialEq, Eq, Structural, Debug)]
pub enum IpAddress {
    V4 { a: u8, b: u8, c: u8, d: u8 },
    V6 { s0: u16, s1: u16, s2: u16, s3: u16, s4: u16, s5: u16, s6: u16, s7: u16 },
}

/// The internal (deny) set for IPv4: loopback, RFC1918 private, link-local,
/// broadcast, documentation ranges and the unspecified address.
pub open spec fn is_internal_v4(a: u8, b: u8, c: u8, d: u8) -> bool {
    ||| a == 127
    ||| a == 10
    ||| (a == 172 && 16 <= b && b < 32)
    ||| (a == 192 && b == 168)
    ||| (a == 169 && b == 254)
    ||| (a == 255 && b == 255 && c == 255 && d == 255)
    ||| (a == 192 && b == 0 && c == 2)
    ||| (a == 198 && b == 51 && c == 100)
    ||| (a == 203 && b == 0 && c == 113)
    ||| (a == 0 && b == 0 && c == 0 && d == 0)
}

/// The internal (deny) set for IPv6: loopback, unspecified, unique-local
/// (fc00::/7) and link-local (fe80::/10).
pub open spec fn is_internal_v6(
    s0: u16, s1: u16, s2: u16, s3: u16, s4: u16, s5: u16, s6: u16, s7: u16,
) -> bool {
    ||| (s0 == 0 && s1 == 0 && s2 == 0 && s3 == 0 && s4 == 0 && s5 == 0 && s6 == 0 && s7 == 1)
    ||| (s0 == 0 && s1 == 0 && s2 == 0 && s3 == 0 && s4 == 0 && s5 == 0 && s6 == 0 && s7 == 0)
    ||| (s0 & 0xfe00) == 0xfc00
    ||| (s0 & 0xffc0) == 0xfe80
}

/// Whether an address belongs to the internal set and must be rejected by
/// the resolution gate.
pub open spec fn is_internal(ip: IpAddress) -> bool {
    match ip {
        IpAddress::V4 { a, b, c, d } => is_internal_v4(a, b, c, d),
        IpAddress::V6 { s0, s1, s2, s3, s4, s5, s6, s7 } =>
            is_internal_v6(s0, s1, s2, s3, s4, s5, s6, s7),
    }
}

/// Classify one address: true means internal (rejected), false means
/// externally routable. Total, pure, no failure mode.
pub fn classify_address(ip: &IpAddress) -> (r: bool)
    ensures
        r == is_internal(*ip),
{
    match *ip {
        IpAddress::V4 { a, b, c, d } => {
            a == 127
                || a == 10
                || (a == 172 && 16 <= b && b < 32)
                || (a == 192 && b == 168)
                || (a == 169 && b == 254)
                || (a == 255 && b == 255 && c == 255 && d == 255)
                || (a == 192 && b == 0 && c == 2)
                || (a == 198 && b == 51 && c == 100)
                || (a == 203 && b == 0 && c == 113)
                || (a == 0 && b == 0 && c == 0 && d == 0)
        },
        IpAddress::V6 { s0, s1, s2, s3, s4, s5, s6, s7 } => {
            (s0 == 0 && s1 == 0 && s2 == 0 && s3 == 0 && s4 == 0 && s5 == 0 && s6 == 0
                && s7 == 1)
                || (s0 == 0 && s1 == 0 && s2 == 0 && s3 == 0 && s4 == 0 && s5 == 0 && s6 == 0
                    && s7 == 0)
                || (s0 & 0xfe00) == 0xfc00
                || (s0 & 0xffc0) == 0xfe80
        },
    }
}

/// The two IPv6 mask tests select exactly the prefix ranges they stand
/// for: unique-local fc00::/7 (top seven bits `1111 110`) and link-local
/// fe80::/10 (top ten bits `1111 1110 10`).
pub proof fn lemma_v6_prefix_ranges(s0: u16)
    ensures
        ((s0 & 0xfe00) == 0xfc00) <==> (0xfc00 <= s0 && s0 <= 0xfdff),
        ((s0 & 0xffc0) == 0xfe80) <==> (0xfe80 <= s0 && s0 <= 0xfebf),
{
    assert(((s0 & 0xfe00) == 0xfc00) <==> (0xfc00 <= s0 && s0 <= 0xfdff)) by (bit_vector);
    assert(((s0 & 0xffc0) == 0xfe80) <==> (0xfe80 <= s0 && s0 <= 0xfebf)) by (bit_vector);
}

/// The decimal digit character for a value below ten.
pub open spec fn dec_digit(n: u8) -> char
    recommends
        n < 10,
{
    ((n + 48) as char)
}

/// Decimal text of one octet, one to three digits, no leading zeros.
pub open spec fn dec_octet(n: u8) -> Seq<char> {
    if n < 10 {
        seq![dec_digit(n)]
    } else if n < 100 {
        seq![dec_digit(n / 10), dec_digit(n % 10)]
    } else {
        seq![dec_digit(n / 100), dec_digit((n / 10) % 10), dec_digit(n % 10)]
    }
}

/// The lower-case hexadecimal digit character for a value below sixteen.
pub open spec fn hex_digit(n: u16) -> char
    recommends
        n < 16,
{
    if n < 10 {
        (((n as u8) + 48) as char)
    } else {
        (((n as u8) + 87) as char)
    }
}

/// Lower-case hexadecimal text of one 16-bit group, no leading zeros.
pub open spec fn hex_group(n: u16) -> Seq<char> {
    if n < 0x10 {
        seq![hex_digit(n)]
    } else if n < 0x100 {
        seq![hex_digit(n / 16), hex_digit(n % 16)]
    } else if n < 0x1000 {
        seq![hex_digit(n / 256), hex_digit((n / 16) % 16), hex_digit(n % 16)]
    } else {
        seq![
            hex_digit(n / 4096),
            hex_digit((n / 256) % 16),
            hex_digit((n / 16) % 16),
            hex_digit(n % 16),
        ]
    }
}

/// The literal text of an address as the request rewriter pins it into a
/// URL: dotted decimal for v4, bracketed full-form hexadecimal for v6.
pub open spec fn addr_text(ip: IpAddress) -> Seq<char> {
    match ip {
        IpAddress::V4 { a, b, c, d } => dec_octet(a) + seq!['.'] + dec_octet(b) + seq!['.']
            + dec_octet(c) + seq!['.'] + dec_octet(d),
        IpAddress::V6 { s0, s1, s2, s3, s4, s5, s6, s7 } => seq!['['] + hex_group(s0) + seq![':']
            + hex_group(s1) + seq![':'] + hex_group(s2) + seq![':'] + hex_group(s3) + seq![':']
            + hex_group(s4) + seq![':'] + hex_group(s5) + seq![':'] + hex_group(s6) + seq![':']
            + hex_group(s7) + seq![']'],
    }
}

/// Append the decimal text of one octet.
fn push_dec_octet(v: &mut Vec<char>, n: u8)
    ensures
        final(v)@ == old(v)@ + dec_octet(n),
{
    if n >= 100 {
        v.push(((n / 100 + 48) as char));
    }
    if n >= 10 {
        v.push((((n / 10) % 10 + 48) as char));
    }
    v.push(((n % 10 + 48) as char));
    proof {
        assert(final(v)@ =~= old(v)@ + dec_octet(n));
    }
}

/// Append the hexadecimal text of one 16-bit group.
fn push_hex_group(v: &mut Vec<char>, n: u16)
    ensures
        final(v)@ == old(v)@ + hex_group(n),
{
    if n >= 0x1000 {
        v.push(hex_digit_exec((n / 4096) as u8));
    }
    if n >= 0x100 {
        v.push(hex_digit_exec(((n / 256) % 16) as u8));
    }
    if n >= 0x10 {
        v.push(hex_digit_exec(((n / 16) % 16) as u8));
    }
    v.push(hex_digit_exec((n % 16) as u8));
    proof {
        assert(final(v)@ =~= old(v)@ + hex_group(n));
    }
}

/// One lower-case hexadecimal digit character.
fn hex_digit_exec(n: u8) -> (c: char)
    requires
        n < 16,
    ensures
        c == hex_digit(n as u16),
{
    if n < 10 {
        ((n + 48) as char)
    } else {
        ((n + 87) as char)
    }
}

/// Render the address exactly as the request rewriter pins it into a URL.
pub fn format_address(ip: &IpAddress) -> (r: String)
    ensures
        r@ == addr_text(*ip),
{
    let mut v: Vec<char> = Vec::new();
    match *ip {
        IpAddress::V4 { a, b, c, d } => {
            push_dec_octet(&mut v, a);
            v.push('.');
            push_dec_octet(&mut v, b);
            v.push('.');
            push_dec_octet(&mut v, c);
            v.push('.');
            push_dec_octet(&mut v, d);
            proof {
                assert(v@ =~= addr_text(*ip));
            }
        },
        IpAddress::V6 { s0, s1, s2, s3, s4, s5, s6, s7 } => {
            v.push('[');
            push_hex_group(&mut v, s0);
            v.push(':');
            push_hex_group(&mut v, s1);
            v.push(':');
            push_hex_group(&mut v, s2);
            v.push(':');
            push_hex_group(&mut v, s3);
            v.push(':');
            push_hex_group(&mut v, s4);
            v.push(':');
            push_hex_group(&mut v, s5);
            v.push(':');
            push_hex_group(&mut v, s6);
            v.push(':');
            push_hex_group(&mut v, s7);
            v.push(']');
            proof {
                assert(v@ =~= addr_text(*ip));
            }
        },
    }
    crate::chars::chars_to_string(&v)
}

} // verus!

use vstd::prelude::*;

use crate::text::{digits_value, is_digits};

verus! {

/// The pieces of a text between the separators `c`: `n` separators give
/// `n + 1` pieces.
pub open spec fn split_on(s: Seq<char>, c: char) -> Seq<Seq<char>>
    decreases s.len(),
{
    if s.len() == 0 {
        seq![Seq::<char>::empty()]
    } else {
        let parts = split_on(s.drop_last(), c);
        if s.last() == c {
            parts.push(Seq::empty())
        } else {
            parts.update(parts.len() - 1, parts.last().push(s.last()))
        }
    }
}

/// An octet in decimal: digits without a leading zero (but for zero
/// itself), with a value of at most 255.
pub open spec fn decimal_octet(w: Seq<char>) -> Option<u8> {
    if is_digits(w) && !(w.len() > 1 && w[0] == '0') && digits_value(w) <= 255 {
        Some(digits_value(w) as u8)
    } else {
        None
    }
}

/// The octets of an IPv4 address in dot-decimal text: four decimal octets
/// divided by dots.
pub open spec fn dotted_quad(s: Seq<char>) -> Option<Seq<u8>> {
    let parts = split_on(s, '.');
    if parts.len() == 4 && forall|i: int| 0 <= i < 4 ==> (#[trigger] decimal_octet(parts[i])) is Some {
        Some(
            seq![
                decimal_octet(parts[0])->0,
                decimal_octet(parts[1])->0,
                decimal_octet(parts[2])->0,
                decimal_octet(parts[3])->0,
            ],
        )
    } else {
        None
    }
}

/// `<core::net::Ipv4Addr as FromStr>::from_str` on the text: the four octets
/// of the address, or the message of the parse error.
pub uninterp spec fn ipv4_from_text(s: Seq<char>) -> Result<Seq<u8>, Seq<char>>;

/// `<core::net::Ipv6Addr as FromStr>::from_str` on the text: the sixteen
/// octets of the address, or the message of the parse error.
pub uninterp spec fn ipv6_from_text(s: Seq<char>) -> Result<Seq<u8>, Seq<char>>;

/// `<core::net::Ipv6Addr as Display>::fmt` on the address with these octets.
pub uninterp spec fn ipv6_text(a: Seq<u8>) -> Seq<char>;

/// Parses an IPv4 address with `core::net::Ipv4Addr`'s `FromStr`, whose
/// documentation gives the accepted text: four octets in decimal, divided
/// by dots, without octal (a leading zero) or hexadecimal forms. The octets
/// are those of [`dotted_quad`], and on other text the result is an error.
/// The message of the error is [`ipv4_from_text`] of the text: its wording
/// is left to core.
#[verifier::external_body]
pub(crate) fn parse_ipv4(s: &str) -> (r: Result<[u8; 4], String>)
    ensures
        match dotted_quad(s@) {
            Some(a) => r matches Ok(x) && x@ == a,
            None => r is Err,
        },
        match ipv4_from_text(s@) {
            Ok(a) => r matches Ok(x) && x@ == a,
            Err(t) => r matches Err(e) && e@ == t,
        },
{
    match s.parse::<core::net::Ipv4Addr>() {
        Ok(ip) => Ok(ip.octets()),
        Err(e) => Err(e.to_string()),
    }
}

/// Parses an IPv6 address with `core::net::Ipv6Addr`'s `FromStr`. The
/// result is [`ipv6_from_text`] of the text: what it holds is left to core.
#[verifier::external_body]
pub(crate) fn parse_ipv6(s: &str) -> (r: Result<[u8; 16], String>)
    ensures
        match ipv6_from_text(s@) {
            Ok(a) => r matches Ok(x) && x@ == a,
            Err(t) => r matches Err(e) && e@ == t,
        },
{
    match s.parse::<core::net::Ipv6Addr>() {
        Ok(ip) => Ok(ip.octets()),
        Err(e) => Err(e.to_string()),
    }
}

/// Writes an IPv6 address with `core::net::Ipv6Addr`'s `Display`. The text
/// is [`ipv6_text`] of the octets: how the address is shortened is left to
/// core.
#[verifier::external_body]
pub(crate) fn format_ipv6(a: &[u8; 16]) -> (r: String)
    ensures
        r@ == ipv6_text(a@),
{
    core::net::Ipv6Addr::from(*a).to_string()
}

} // verus!

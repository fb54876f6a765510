//! 20-byte account addresses, parsed from hexadecimal text.

use vstd::prelude::*;

verus! {

/// An account or contract address.
#[derive(Clone, Copy, Debug)]
pub struct Address {
    pub bytes: [u8; 20],
}

pub open spec fn is_hex_char(c: char) -> bool {
    ('0' <= c && c <= '9') || ('a' <= c && c <= 'f') || ('A' <= c && c <= 'F')
}

/// Characters that the hexadecimal reader passes over.
pub open spec fn is_skipped_char(c: char) -> bool {
    c == ' ' || c == '\r' || c == '\n' || c == '\t'
}

pub open spec fn hex_value(c: char) -> nat {
    if '0' <= c && c <= '9' {
        (c as u32 - '0' as u32) as nat
    } else if 'a' <= c && c <= 'f' {
        (c as u32 - 'a' as u32 + 10) as nat
    } else {
        (c as u32 - 'A' as u32 + 10) as nat
    }
}

/// The text without a leading `0x`.
pub open spec fn without_hex_prefix(s: Seq<char>) -> Seq<char> {
    if s.len() >= 2 && s[0] == '0' && s[1] == 'x' {
        s.skip(2)
    } else {
        s
    }
}

/// The hexadecimal digits of the text after its prefix, in order.
pub open spec fn address_digits(s: Seq<char>) -> Seq<char> {
    without_hex_prefix(s).filter(|c: char| is_hex_char(c))
}

/// Text names an address when, after an optional `0x`, it holds only
/// hexadecimal digits and passed-over whitespace, with exactly 40 digits.
pub open spec fn is_address_text(s: Seq<char>) -> bool {
    &&& forall|i: int|
        0 <= i < without_hex_prefix(s).len() ==> is_hex_char(#[trigger] without_hex_prefix(s)[i])
            || is_skipped_char(without_hex_prefix(s)[i])
    &&& address_digits(s).len() == 40
}

/// The bytes that address text names, each from two digits, high digit first.
pub open spec fn address_bytes(s: Seq<char>) -> Seq<u8> {
    Seq::new(
        20,
        |i: int| (16 * hex_value(address_digits(s)[2 * i]) + hex_value(address_digits(s)[2 * i + 1])) as u8,
    )
}

/// Relies on fixed-hash's `FromStr` for `H160`: it drops a leading `0x`, reads
/// hexadecimal digit pairs while passing over spaces, tabs, carriage returns and
/// line feeds, and fails unless exactly twenty bytes come out of text that holds
/// nothing else.
#[verifier::external_body]
pub(crate) fn parse_address(s: &str) -> (r: Option<Address>)
    ensures
        r is Some <==> is_address_text(s@),
        r is Some ==> r->Some_0.bytes@ == address_bytes(s@),
{
    <ethers::types::H160 as std::str::FromStr>::from_str(s).ok().map(|a| Address { bytes: a.0 })
}

/// Parses each text as an address; `None` where any of them is not one.
pub fn parse_addresses(texts: &Vec<String>) -> (r: Option<Vec<Address>>)
    ensures
        r is Some <==> forall|i: int| 0 <= i < texts@.len() ==> #[trigger] is_address_text(texts@[i]@),
        r is Some ==> r->Some_0@.len() == texts@.len() && forall|i: int| 0 <= i < texts@.len()
            ==> (#[trigger] r->Some_0@[i]).bytes@ == address_bytes(texts@[i]@),
{
    let mut out: Vec<Address> = Vec::new();
    let mut i: usize = 0;
    while i < texts.len()
        invariant
            i <= texts@.len(),
            out@.len() == i,
            forall|j: int| 0 <= j < i ==> #[trigger] is_address_text(texts@[j]@),
            forall|j: int| 0 <= j < i ==> (#[trigger] out@[j]).bytes@ == address_bytes(texts@[j]@),
        decreases texts@.len() - i,
    {
        match parse_address(texts[i].as_str()) {
            Some(a) => {
                out.push(a);
            },
            None => {
                return None;
            },
        }
        i = i + 1;
    }
    Some(out)
}

} // verus!

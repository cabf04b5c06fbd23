//! Fingerprints of FTPS leaf certificates and the pins that connections keep of them.

use vstd::prelude::*;
use vstd::slice::slice_subrange;

use crate::digest::{digest, hex_bytes, sha256, to_hex_bytes};
use crate::numerals::hex_padded;
use crate::pieces::{
    has_prefix, lemma_drop_end_while, lemma_drop_while, starts_with, trim, trimmed, white,
};
use crate::text::{ascii_lowercase, chars_of, plus, same_text, string_of, to_ascii_lower};

verus! {

/// The text form of a fingerprint: `sha256:` and the digest of the certificate in hexadecimal.
pub open spec fn fingerprint_of(der: Seq<u8>) -> Seq<char> {
    "sha256:"@ + hex_bytes(sha256(der))
}

/// The fingerprint of a certificate is a canonical pin: saved as it is, it is what a later handshake
/// with the same certificate is compared with.
pub fn certificate_fingerprint(der: &[u8]) -> (r: String)
    ensures
        r@ == fingerprint_of(der@),
        canonical_pin(r@) == Some(r@),
{
    let hash: Vec<u8> = digest(der);
    let hex: String = string_of(&to_hex_bytes(&hash));
    proof {
        lemma_hex_digits(hash@);
        lemma_canonical_text(hex@);
    }
    plus("sha256:".to_owned(), hex.as_str())
}

/// A lower-case hexadecimal digit.
pub open spec fn is_lower_hex(c: char) -> bool {
    '0' <= c <= '9' || 'a' <= c <= 'f'
}

/// 64 lower-case hexadecimal digits.
pub open spec fn is_digest_text(s: Seq<char>) -> bool {
    s.len() == 64 && forall|i: int| 0 <= i < s.len() ==> is_lower_hex(#[trigger] s[i])
}

/// A text without one leading `sha256:`.
pub open spec fn without_label(s: Seq<char>) -> Seq<char> {
    if has_prefix(s, "sha256:"@) {
        s.skip(7)
    } else {
        s
    }
}

/// The canonical form of a pin: white space around it and letter case do not matter, and neither
/// does a missing label. Anything but a whole SHA-256 digest is no pin.
pub open spec fn canonical_pin(value: Seq<char>) -> Option<Seq<char>> {
    let hex = without_label(ascii_lowercase(trimmed(value)));
    if is_digest_text(hex) {
        Some("sha256:"@ + hex)
    } else {
        None
    }
}

fn digest_text(s: &[char]) -> (r: bool)
    ensures
        r == is_digest_text(s@),
{
    if s.len() != 64 {
        return false;
    }
    let mut i: usize = 0;
    while i < s.len()
        invariant
            i <= s@.len(),
            forall|j: int| 0 <= j < i ==> is_lower_hex(#[trigger] s@[j]),
        decreases s@.len() - i,
    {
        let c: char = s[i];
        if !(('0' <= c && c <= '9') || ('a' <= c && c <= 'f')) {
            assert(!is_lower_hex(s@[i as int]));
            return false;
        }
        i += 1;
    }
    true
}

pub fn normalize_certificate_pin(value: &str) -> (r: Option<String>)
    ensures
        r is Some <==> canonical_pin(value@) is Some,
        r matches Some(pin) ==> canonical_pin(value@) == Some(pin@),
{
    let chars: Vec<char> = chars_of(value);
    let lower: Vec<char> = to_ascii_lower(trim(&chars));
    let label: Vec<char> = chars_of("sha256:");
    proof {
        reveal_strlit("sha256:");
    }
    let hex: &[char] = if starts_with(&lower, &label) {
        slice_subrange(lower.as_slice(), 7, lower.len())
    } else {
        lower.as_slice()
    };
    assert(hex@ =~= without_label(lower@));
    if digest_text(hex) {
        let digits: String = string_of(hex);
        Some(plus("sha256:".to_owned(), digits.as_str()))
    } else {
        None
    }
}

/// What a handshake with a certificate comes to.
pub struct PinCheck {
    /// The fingerprint of the certificate that was presented.
    pub observed: String,
    /// Whether the handshake may go on.
    pub accepted: bool,
}

/// Compare the leaf certificate with the pin. Without a pin every certificate is observed and
/// accepted; the caller then sends no credentials.
pub fn verify_leaf(expected: Option<&str>, der: &[u8]) -> (r: PinCheck)
    ensures
        r.observed@ == fingerprint_of(der@),
        r.accepted <==> (expected matches Some(pin) ==> pin@ == fingerprint_of(der@)),
{
    let observed: String = certificate_fingerprint(der);
    let accepted: bool = match expected {
        Some(pin) => same_text(pin, observed.as_str()),
        None => true,
    };
    PinCheck { observed, accepted }
}

proof fn lemma_hex_digits(bytes: Seq<u8>)
    ensures
        hex_bytes(bytes).len() == 2 * bytes.len(),
        forall|i: int| 0 <= i < hex_bytes(bytes).len() ==> is_lower_hex(#[trigger] hex_bytes(bytes)[i]),
    decreases bytes.len(),
{
    if bytes.len() > 0 {
        let shorter = hex_bytes(bytes.drop_last());
        lemma_hex_digits(bytes.drop_last());
        reveal_with_fuel(hex_padded, 3);
        let pair = hex_padded(bytes.last() as nat, 2);
        assert(pair.len() == 2);
        assert(is_lower_hex(pair[0]) && is_lower_hex(pair[1]));
        assert forall|i: int| 0 <= i < hex_bytes(bytes).len() implies is_lower_hex(
            #[trigger] hex_bytes(bytes)[i],
        ) by {
            if i < shorter.len() {
                assert(hex_bytes(bytes)[i] == shorter[i]);
            } else {
                assert(hex_bytes(bytes)[i] == pair[i - shorter.len()]);
            }
        }
    }
}

proof fn lemma_canonical_text(hex: Seq<char>)
    requires
        is_digest_text(hex),
    ensures
        canonical_pin("sha256:"@ + hex) == Some("sha256:"@ + hex),
        canonical_pin(hex) == Some("sha256:"@ + hex),
{
    reveal_strlit("sha256:");
    let whole = "sha256:"@ + hex;
    assert(is_lower_hex(hex[0]));
    assert(is_lower_hex(hex[63]));
    lemma_drop_while(whole, white(), 0);
    lemma_drop_end_while(whole, white(), whole.len() as int);
    assert(trimmed(whole) =~= whole);
    lemma_drop_while(hex, white(), 0);
    lemma_drop_end_while(hex, white(), hex.len() as int);
    assert(trimmed(hex) =~= hex);
    assert(ascii_lowercase(whole) =~= whole);
    assert(ascii_lowercase(hex) =~= hex);
    assert(whole.take(7) =~= "sha256:"@);
    assert(whole.skip(7) =~= hex);
    assert(!has_prefix(hex, "sha256:"@)) by {
        if has_prefix(hex, "sha256:"@) {
            assert(hex.take(7)[0] == 's');
            assert(is_lower_hex(hex[0]));
        }
    }
}

/// A canonical pin is its own canonical form, and so is the same pin without its label.
pub proof fn canonical_pins_are_fixed_points(value: Seq<char>, pin: Seq<char>)
    requires
        canonical_pin(value) == Some(pin),
    ensures
        canonical_pin(pin) == Some(pin),
        canonical_pin(without_label(pin)) == Some(pin),
{
    reveal_strlit("sha256:");
    let hex = without_label(ascii_lowercase(trimmed(value)));
    lemma_canonical_text(hex);
    assert(pin.take(7) =~= "sha256:"@);
    assert(pin.skip(7) =~= hex);
}

} // verus!

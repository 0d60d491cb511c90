//! Peer identifiers.
//!
//! A peer is referenced externally only by an opaque 128-bit identifier,
//! generated at peer creation.  Identifiers cross the control surface as
//! text in the canonical five-group hyphenated hexadecimal form; the
//! rendering (`id_text`) and the reading (`id_value`) are specified here
//! and proved inverse, so a rendered identifier always resolves back to
//! the same peer.

use vstd::prelude::*;
use vstd::string::*;
use crate::digits::{
    all_lower_hex_digits, hex_seq_val, hex_text, hex_val, is_lower_hex_digit,
    lemma_hex_seq_val_bound, lemma_hex_text_all_digits, lemma_hex_text_len,
    lemma_hex_text_value, lemma_lower_hex_ascii, lemma_lower_hex_unique, lemma_pow16_mono, pow16,
    render_hex_u128,
};

verus! {

/// `16^32`, one past the largest identifier value.
pub proof fn lemma_pow16_32()
    ensures
        pow16(32) == 0x100000000000000000000000000000000,
{
    reveal_with_fuel(pow16, 33);
}

/// Canonical text of an identifier: 32 lower-case hexadecimal digits in
/// groups of 8-4-4-4-12, joined by hyphens.
pub open spec fn id_text(id: u128) -> Seq<char> {
    let h = hex_text(id as nat, 32);
    h.subrange(0, 8) + seq!['-'] + h.subrange(8, 12) + seq!['-'] + h.subrange(12, 16)
        + seq!['-'] + h.subrange(16, 20) + seq!['-'] + h.subrange(20, 32)
}

/// The 32 digit positions of a canonical identifier, hyphens removed.
pub open spec fn strip_hyphens(s: Seq<char>) -> Seq<char> {
    s.subrange(0, 8) + s.subrange(9, 13) + s.subrange(14, 18) + s.subrange(19, 23)
        + s.subrange(24, 36)
}

/// The identifier a piece of text denotes, when it is the canonical
/// rendering of one; `None` otherwise.
pub open spec fn id_value(s: Seq<char>) -> Option<u128> {
    if s.len() == 36 && s[8] == '-' && s[13] == '-' && s[18] == '-' && s[23] == '-'
        && all_lower_hex_digits(strip_hyphens(s)) {
        Some(hex_seq_val(strip_hyphens(s)) as u128)
    } else {
        None
    }
}

/// How many of the positions before `i` in a canonical identifier hold a
/// digit rather than a hyphen.
pub open spec fn digits_before(i: int) -> int {
    i - (if i > 8 { 1int } else { 0 }) - (if i > 13 { 1int } else { 0 }) - (if i > 18 {
        1int
    } else {
        0
    }) - (if i > 23 { 1int } else { 0 })
}

pub proof fn lemma_strip_index(s: Seq<char>, i: int)
    requires
        s.len() == 36,
        0 <= i < 36,
        i != 8,
        i != 13,
        i != 18,
        i != 23,
    ensures
        0 <= digits_before(i) < 32,
        strip_hyphens(s)[digits_before(i)] == s[i],
        digits_before(i + 1) == digits_before(i) + 1,
{
}

/// The rendering of an identifier reads back as exactly that identifier.
pub proof fn lemma_id_round_trip(id: u128)
    ensures
        id_value(id_text(id)) == Some(id),
{
    let h = hex_text(id as nat, 32);
    lemma_hex_text_len(id as nat, 32);
    lemma_hex_text_all_digits(id as nat, 32);
    let s = id_text(id);
    assert(s.len() == 36);
    assert(s[8] == '-' && s[13] == '-' && s[18] == '-' && s[23] == '-');
    assert(strip_hyphens(s) =~= h);
    lemma_pow16_32();
    lemma_hex_text_value(id as nat, 32);
}

/// Text that reads as an identifier is the canonical rendering of it:
/// the hyphenated form is unambiguous.
pub proof fn lemma_id_value_sound(s: Seq<char>, id: u128)
    requires
        id_value(s) == Some(id),
    ensures
        s =~= id_text(id),
{
    let hs = strip_hyphens(s);
    assert(hs.len() == 32);
    lemma_lower_hex_unique(hs);
    lemma_hex_seq_val_bound(hs);
    lemma_pow16_32();
    assert(hex_seq_val(hs) == id);
    assert(hex_text(id as nat, 32) == hs);
}

/// Canonical rendering of an identifier.
pub fn render_id(id: u128) -> (r: String)
    ensures
        r@ =~= id_text(id),
{
    proof {
        reveal_strlit("-");
        lemma_hex_text_len(id as nat, 32);
        lemma_hex_text_all_digits(id as nat, 32);
    }
    let h = render_hex_u128(id, 32);
    let hs = h.as_str();
    proof {
        assert forall|i| 0 <= i < hs@.len() implies '\0' <= #[trigger] hs@[i] <= '\u{7f}' by {
            let c = hs@[i];
            assert(c == hex_text(id as nat, 32)[i]);
            assert(is_lower_hex_digit(c));
            lemma_lower_hex_ascii(c);
        }
        assert(vstd::string::is_ascii(hs));
    }
    let mut s = String::from_str(hs.substring_ascii(0, 8));
    s.append("-");
    s.append(hs.substring_ascii(8, 12));
    s.append("-");
    s.append(hs.substring_ascii(12, 16));
    s.append("-");
    s.append(hs.substring_ascii(16, 20));
    s.append("-");
    s.append(hs.substring_ascii(20, 32));
    s
}

/// Read canonical identifier text back into an identifier.
pub fn parse_id(s: &str) -> (r: Option<u128>)
    ensures
        r == id_value(s@),
{
    let len = s.unicode_len();
    if len != 36 {
        return None;
    }
    let ghost hs = strip_hyphens(s@);
    assert(hs.len() == 32);
    let mut acc: u128 = 0;
    let mut i: usize = 0;
    while i < 36
        invariant
            0 <= i <= 36,
            s@.len() == 36,
            hs == strip_hyphens(s@),
            hs.len() == 32,
            forall|k: int| (k == 8 || k == 13 || k == 18 || k == 23) && k < i ==> s@[k] == '-',
            forall|j: int|
                0 <= j < digits_before(i as int) ==> is_lower_hex_digit(#[trigger] hs[j]),
            0 <= digits_before(i as int) <= 32,
            acc == hex_seq_val(hs.subrange(0, digits_before(i as int))),
        decreases 36 - i,
    {
        let c = s.get_char(i);
        if i == 8 || i == 13 || i == 18 || i == 23 {
            if c != '-' {
                return None;
            }
        } else {
            let code = c as u32;
            let ok = (code >= 48 && code <= 57) || (code >= 97 && code <= 102);
            proof {
                lemma_strip_index(s@, i as int);
            }
            if !ok {
                assert(!is_lower_hex_digit(s@[i as int]));
                assert(hs[digits_before(i as int)] == s@[i as int]);
                assert(!all_lower_hex_digits(hs));
                return None;
            }
            let d: u128 = if code >= 97 {
                (code - 87) as u128
            } else {
                (code - 48) as u128
            };
            proof {
                let db = digits_before(i as int);
                assert(all_lower_hex_digits(hs.subrange(0, db))) by {
                    assert(forall|j: int|
                        0 <= j < db ==> hs.subrange(0, db)[j] == hs[j]);
                }
                lemma_hex_seq_val_bound(hs.subrange(0, db));
                lemma_pow16_mono(db as nat, 31);
                lemma_pow16_32();
                assert(pow16(32) == 16 * pow16(31));
                assert(hs.subrange(0, db + 1).drop_last() =~= hs.subrange(0, db));
                assert(hs.subrange(0, db + 1).last() == hs[db]);
                assert(hs[db] == s@[i as int]);
                assert(hex_val(s@[i as int]) == d);
            }
            acc = acc * 16 + d;
            assert(acc == hex_seq_val(hs.subrange(0, digits_before(i as int) + 1)));
        }
        i = i + 1;
    }
    proof {
        assert(hs.subrange(0, 32) =~= hs);
        assert(all_lower_hex_digits(hs)) by {
            assert(digits_before(36) == 32);
        }
        lemma_hex_seq_val_bound(hs);
        assert(id_value(s@) == Some(hex_seq_val(hs) as u128));
    }
    Some(acc)
}

/// Read a textual peer identifier from the control surface: canonical
/// text resolves to its identifier, anything else is rejected as
/// `IdentifierParseError`.
pub fn parse_peer_id(s: &str) -> (r: Result<u128, crate::errors::PartitionSimError>)
    ensures
        r matches Ok(id) ==> id_value(s@) == Some(id),
        r is Err <==> id_value(s@) is None,
        r matches Err(e) ==> e == crate::errors::PartitionSimError::IdentifierParseError,
{
    match parse_id(s) {
        Some(id) => Ok(id),
        None => Err(crate::errors::PartitionSimError::IdentifierParseError),
    }
}

/// Relies on `uuid::Uuid::new_v4`: a freshly generated random 128-bit
/// identifier.  The value is random, so nothing is promised of it.
#[verifier::external_body]
pub fn random_id() -> u128 {
    uuid::Uuid::new_v4().as_u128()
}

} // verus!

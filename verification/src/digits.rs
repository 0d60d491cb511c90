//! Decimal and hexadecimal text primitives.
//!
//! Peer addresses, peer identifiers and remote exit codes all cross the
//! engine's boundary as text.  This module gives that text an exact
//! mathematical form: spec-level renderings (`dec_text`, `hex_text`),
//! spec-level values (`dec_value`, `hex_seq_val`), and executable
//! renderers and parsers proved against them.

use vstd::prelude::*;
use vstd::string::*;

verus! {

// ---------------------------------------------------------------------
// Characters
// ---------------------------------------------------------------------

/// Numeric value of a decimal digit character, `-1` for anything else.
pub open spec fn dec_val(c: char) -> int {
    if 48 <= c as u32 <= 57 {
        c as u32 - 48
    } else {
        -1
    }
}

pub open spec fn is_dec_digit(c: char) -> bool {
    48 <= c as u32 <= 57
}

/// Numeric value of a hexadecimal digit character (either case),
/// `-1` for anything else.
pub open spec fn hex_val(c: char) -> int {
    if 48 <= c as u32 <= 57 {
        c as u32 - 48
    } else if 97 <= c as u32 <= 102 {
        c as u32 - 87
    } else if 65 <= c as u32 <= 70 {
        c as u32 - 55
    } else {
        -1
    }
}

pub open spec fn is_hex_digit(c: char) -> bool {
    hex_val(c) >= 0
}

/// A lower-case hexadecimal digit: the only digits the canonical
/// identifier rendering uses, which keeps that rendering unambiguous.
pub open spec fn is_lower_hex_digit(c: char) -> bool {
    48 <= c as u32 <= 57 || 97 <= c as u32 <= 102
}

/// The decimal digit character for a value below ten.
pub open spec fn dec_digit_char(d: int) -> char {
    if d == 0 { '0' }
    else if d == 1 { '1' }
    else if d == 2 { '2' }
    else if d == 3 { '3' }
    else if d == 4 { '4' }
    else if d == 5 { '5' }
    else if d == 6 { '6' }
    else if d == 7 { '7' }
    else if d == 8 { '8' }
    else { '9' }
}

/// The lower-case hexadecimal digit character for a value below sixteen.
pub open spec fn hex_digit_char(d: int) -> char {
    if d < 10 { dec_digit_char(d) }
    else if d == 10 { 'a' }
    else if d == 11 { 'b' }
    else if d == 12 { 'c' }
    else if d == 13 { 'd' }
    else if d == 14 { 'e' }
    else { 'f' }
}

pub proof fn lemma_dec_digit_char(d: int)
    requires
        0 <= d < 10,
    ensures
        is_dec_digit(dec_digit_char(d)),
        dec_val(dec_digit_char(d)) == d,
{
}

pub proof fn lemma_hex_digit_char(d: int)
    requires
        0 <= d < 16,
    ensures
        is_hex_digit(hex_digit_char(d)),
        is_lower_hex_digit(hex_digit_char(d)),
        hex_val(hex_digit_char(d)) == d,
{
}

// ---------------------------------------------------------------------
// Decimal renderings and values
// ---------------------------------------------------------------------

/// The canonical decimal rendering of a natural number: no sign,
/// no leading zero (except for zero itself).
pub open spec fn dec_text(n: nat) -> Seq<char>
    decreases n,
{
    if n < 10 {
        seq![dec_digit_char(n as int)]
    } else {
        dec_text(n / 10).push(dec_digit_char((n % 10) as int))
    }
}

/// The value of a digit string, read most-significant first.
pub open spec fn dec_seq_val(s: Seq<char>) -> int
    decreases s.len(),
{
    if s.len() == 0 {
        0
    } else {
        10 * dec_seq_val(s.drop_last()) + dec_val(s.last())
    }
}

pub open spec fn all_dec_digits(s: Seq<char>) -> bool {
    forall|i: int| 0 <= i < s.len() ==> is_dec_digit(#[trigger] s[i])
}

/// A digit string in canonical form: nonempty, digits only, and no
/// leading zero unless it is exactly "0".
pub open spec fn canonical_dec(s: Seq<char>) -> bool {
    &&& s.len() >= 1
    &&& all_dec_digits(s)
    &&& (s[0] != '0' || s.len() == 1)
}

/// The number a piece of text denotes, when it is a canonical decimal
/// rendering; `None` otherwise.
pub open spec fn dec_value(s: Seq<char>) -> Option<int> {
    if canonical_dec(s) {
        Some(dec_seq_val(s))
    } else {
        None
    }
}

pub proof fn lemma_dec_text_first_nonzero(n: nat)
    requires
        n >= 1,
    ensures
        dec_text(n).len() >= 1,
        dec_text(n)[0] != '0',
    decreases n,
{
    if n >= 10 {
        lemma_dec_text_first_nonzero(n / 10);
    }
}

pub proof fn lemma_dec_text_canonical(n: nat)
    ensures
        canonical_dec(dec_text(n)),
    decreases n,
{
    if n < 10 {
    } else {
        lemma_dec_text_canonical(n / 10);
        lemma_dec_text_first_nonzero(n / 10);
        let prefix = dec_text(n / 10);
        let whole = dec_text(n);
        assert(whole == prefix.push(dec_digit_char((n % 10) as int)));
        assert(whole[0] == prefix[0]);
        assert forall|i: int| 0 <= i < whole.len() implies is_dec_digit(#[trigger] whole[i]) by {
            if i < prefix.len() {
                assert(whole[i] == prefix[i]);
            } else {
                lemma_dec_digit_char((n % 10) as int);
            }
        }
    }
}

/// Rendering and reading back are inverse: the value of `dec_text(n)` is `n`.
pub proof fn lemma_dec_text_value(n: nat)
    ensures
        dec_seq_val(dec_text(n)) == n,
    decreases n,
{
    if n < 10 {
        let s = dec_text(n);
        assert(s == seq![dec_digit_char(n as int)]);
        assert(s.drop_last() =~= Seq::<char>::empty());
        assert(s.last() == dec_digit_char(n as int));
        lemma_dec_digit_char(n as int);
        assert(dec_seq_val(s) == 10 * dec_seq_val(s.drop_last()) + dec_val(s.last()));
        assert(dec_seq_val(Seq::<char>::empty()) == 0);
    } else {
        lemma_dec_text_value(n / 10);
        let prefix = dec_text(n / 10);
        let d = dec_digit_char((n % 10) as int);
        assert(prefix.push(d).drop_last() =~= prefix);
        assert(prefix.push(d).last() == d);
        lemma_dec_digit_char((n % 10) as int);
        assert(dec_text(n) == prefix.push(d));
        assert(dec_seq_val(prefix.push(d)) == 10 * dec_seq_val(prefix) + dec_val(d));
        assert(n == 10 * (n / 10) + (n % 10));
    }
}

/// Canonical decimal text round-trips exactly.
pub proof fn lemma_dec_round_trip(n: nat)
    ensures
        dec_value(dec_text(n)) == Some(n as int),
{
    lemma_dec_text_canonical(n);
    lemma_dec_text_value(n);
}

/// Reading a digit character's value and rendering it again gives the
/// same character back.
pub proof fn lemma_dec_digit_char_inverse(c: char)
    requires
        is_dec_digit(c),
    ensures
        dec_digit_char(dec_val(c)) == c,
{
}

/// A nonempty digit string that does not start with '0' denotes
/// a strictly positive number.
pub proof fn lemma_dec_seq_val_pos(s: Seq<char>)
    requires
        all_dec_digits(s),
        s.len() >= 1,
        s[0] != '0',
    ensures
        dec_seq_val(s) >= 1,
    decreases s.len(),
{
    if s.len() == 1 {
        assert(s.last() == s[0]);
        assert(s.drop_last() =~= Seq::<char>::empty());
        assert(dec_seq_val(s.drop_last()) == 0);
        assert(is_dec_digit(s[0]));
        assert(dec_val(s[0]) >= 1) by {
            lemma_dec_digit_char_inverse(s[0]);
        }
    } else {
        let prefix = s.drop_last();
        assert(all_dec_digits(prefix)) by {
            assert(forall|i: int| 0 <= i < s.len() - 1 ==> prefix[i] == s[i]);
        }
        assert(prefix[0] == s[0]);
        lemma_dec_seq_val_pos(prefix);
        assert(is_dec_digit(s[s.len() - 1]));
        assert(s.last() == s[s.len() - 1]);
    }
}

/// Canonical decimal renderings are unique: a canonical digit string is
/// exactly the rendering of its own value.
pub proof fn lemma_canonical_dec_unique(s: Seq<char>)
    requires
        canonical_dec(s),
    ensures
        dec_seq_val(s) >= 0,
        s == dec_text(dec_seq_val(s) as nat),
    decreases s.len(),
{
    lemma_dec_seq_val_nonneg(s);
    let v = dec_seq_val(s);
    if s.len() == 1 {
        assert(s.last() == s[0]);
        assert(s.drop_last() =~= Seq::<char>::empty());
        assert(dec_seq_val(s.drop_last()) == 0);
        assert(is_dec_digit(s[0]));
        assert(v == dec_val(s[0]));
        assert(0 <= v < 10);
        assert(dec_text(v as nat) =~= seq![dec_digit_char(v)]);
        lemma_dec_digit_char_inverse(s[0]);
        assert(s =~= seq![s[0]]);
    } else {
        let prefix = s.drop_last();
        assert(all_dec_digits(prefix)) by {
            assert(forall|i: int| 0 <= i < s.len() - 1 ==> prefix[i] == s[i]);
        }
        assert(prefix[0] == s[0]);
        assert(canonical_dec(prefix));
        lemma_dec_seq_val_pos(prefix);
        lemma_canonical_dec_unique(prefix);
        let pv = dec_seq_val(prefix);
        let d = dec_val(s.last());
        assert(0 <= d < 10);
        assert(v == 10 * pv + d);
        assert(v >= 10);
        assert(v / 10 == pv && v % 10 == d);
        assert(dec_text(v as nat) == dec_text(pv as nat).push(dec_digit_char(d)));
        assert(is_dec_digit(s[s.len() - 1]) && s.last() == s[s.len() - 1]);
        lemma_dec_digit_char_inverse(s.last());
        assert(prefix.push(s.last()) =~= s);
    }
}

pub proof fn lemma_dec_seq_val_nonneg(s: Seq<char>)
    requires
        all_dec_digits(s),
    ensures
        dec_seq_val(s) >= 0,
    decreases s.len(),
{
    if s.len() > 0 {
        assert(all_dec_digits(s.drop_last())) by {
            assert(forall|i: int| 0 <= i < s.len() - 1 ==> s.drop_last()[i] == s[i]);
        }
        lemma_dec_seq_val_nonneg(s.drop_last());
    }
}

/// The value of a prefix never exceeds the value of the whole digit string.
pub proof fn lemma_dec_prefix_le(s: Seq<char>, i: int)
    requires
        all_dec_digits(s),
        0 <= i <= s.len(),
    ensures
        dec_seq_val(s.subrange(0, i)) <= dec_seq_val(s),
    decreases s.len() - i,
{
    if i == s.len() {
        assert(s.subrange(0, i) =~= s);
    } else {
        let shorter = s.subrange(0, i);
        let longer = s.subrange(0, i + 1);
        assert(longer.drop_last() =~= shorter);
        assert(all_dec_digits(shorter)) by {
            assert(forall|j: int| 0 <= j < i ==> shorter[j] == s[j]);
        }
        lemma_dec_seq_val_nonneg(shorter);
        assert(dec_seq_val(longer) == 10 * dec_seq_val(shorter) + dec_val(s[i]));
        lemma_dec_prefix_le(s, i + 1);
    }
}

// ---------------------------------------------------------------------
// Hexadecimal renderings and values
// ---------------------------------------------------------------------

pub open spec fn pow16(len: nat) -> int
    decreases len,
{
    if len == 0 {
        1
    } else {
        16 * pow16((len - 1) as nat)
    }
}

/// Fixed-width lower-case hexadecimal rendering, leading zeros kept.
pub open spec fn hex_text(n: nat, len: nat) -> Seq<char>
    decreases len,
{
    if len == 0 {
        Seq::empty()
    } else {
        hex_text(n / 16, (len - 1) as nat).push(hex_digit_char((n % 16) as int))
    }
}

/// The value of a hexadecimal digit string, read most-significant first.
pub open spec fn hex_seq_val(s: Seq<char>) -> int
    decreases s.len(),
{
    if s.len() == 0 {
        0
    } else {
        16 * hex_seq_val(s.drop_last()) + hex_val(s.last())
    }
}

pub open spec fn all_hex_digits(s: Seq<char>) -> bool {
    forall|i: int| 0 <= i < s.len() ==> is_hex_digit(#[trigger] s[i])
}

/// Every lower-case hexadecimal digit is an ASCII character.
pub proof fn lemma_lower_hex_ascii(c: char)
    requires
        is_lower_hex_digit(c),
    ensures
        '\0' <= c <= '\u{7f}',
{
}

pub open spec fn all_lower_hex_digits(s: Seq<char>) -> bool {
    forall|i: int| 0 <= i < s.len() ==> is_lower_hex_digit(#[trigger] s[i])
}

/// Reading a lower-case hexadecimal digit's value and rendering it again
/// gives the same character back.
pub proof fn lemma_hex_digit_char_inverse(c: char)
    requires
        is_lower_hex_digit(c),
    ensures
        is_hex_digit(c),
        hex_digit_char(hex_val(c)) == c,
{
}

/// Fixed-width lower-case hexadecimal renderings are unique: a string of
/// lower-case hexadecimal digits is exactly the rendering of its own value
/// at its own width.
pub proof fn lemma_lower_hex_unique(s: Seq<char>)
    requires
        all_lower_hex_digits(s),
    ensures
        hex_seq_val(s) >= 0,
        s == hex_text(hex_seq_val(s) as nat, s.len()),
    decreases s.len(),
{
    if s.len() == 0 {
        assert(s =~= hex_text(hex_seq_val(s) as nat, s.len()));
    } else {
        let prefix = s.drop_last();
        assert(all_lower_hex_digits(prefix)) by {
            assert(forall|i: int| 0 <= i < s.len() - 1 ==> prefix[i] == s[i]);
        }
        assert(is_lower_hex_digit(s[s.len() - 1]) && s.last() == s[s.len() - 1]);
        lemma_hex_digit_char_inverse(s.last());
        lemma_lower_hex_unique(prefix);
        let pv = hex_seq_val(prefix);
        let d = hex_val(s.last());
        let v = hex_seq_val(s);
        assert(v == 16 * pv + d);
        assert(0 <= d < 16);
        assert(v / 16 == pv && v % 16 == d);
        assert(hex_text(v as nat, s.len()) == hex_text(pv as nat, (s.len() - 1) as nat).push(
            hex_digit_char(d),
        ));
        assert(prefix.push(s.last()) =~= s);
    }
}

pub proof fn lemma_pow16_pos(len: nat)
    ensures
        pow16(len) >= 1,
    decreases len,
{
    if len > 0 {
        lemma_pow16_pos((len - 1) as nat);
    }
}

pub proof fn lemma_pow16_mono(a: nat, b: nat)
    requires
        a <= b,
    ensures
        pow16(a) <= pow16(b),
    decreases b,
{
    if a < b {
        lemma_pow16_mono(a, (b - 1) as nat);
        lemma_pow16_pos((b - 1) as nat);
    }
}

pub proof fn lemma_hex_text_len(n: nat, len: nat)
    ensures
        hex_text(n, len).len() == len,
    decreases len,
{
    if len > 0 {
        lemma_hex_text_len(n / 16, (len - 1) as nat);
    }
}

pub proof fn lemma_hex_text_all_digits(n: nat, len: nat)
    ensures
        all_hex_digits(hex_text(n, len)),
        all_lower_hex_digits(hex_text(n, len)),
    decreases len,
{
    if len > 0 {
        lemma_hex_text_all_digits(n / 16, (len - 1) as nat);
        let prefix = hex_text(n / 16, (len - 1) as nat);
        let whole = hex_text(n, len);
        lemma_hex_text_len(n / 16, (len - 1) as nat);
        assert forall|i: int| 0 <= i < whole.len() implies is_hex_digit(#[trigger] whole[i])
            && is_lower_hex_digit(#[trigger] whole[i]) by {
            if i < prefix.len() {
                assert(whole[i] == prefix[i]);
            } else {
                lemma_hex_digit_char((n % 16) as int);
            }
        }
    }
}

/// Rendering a value below `16^len` in width `len` and reading it back
/// is the identity.
pub proof fn lemma_hex_text_value(n: nat, len: nat)
    requires
        n < pow16(len),
    ensures
        hex_seq_val(hex_text(n, len)) == n,
    decreases len,
{
    if len == 0 {
    } else {
        assert(n / 16 < pow16((len - 1) as nat)) by {
            assert(pow16(len) == 16 * pow16((len - 1) as nat));
            assert(n < 16 * pow16((len - 1) as nat));
            assert(n / 16 < pow16((len - 1) as nat)) by (nonlinear_arith)
                requires n >= 0 && pow16((len - 1) as nat) >= 1 && n < 16 * pow16((len - 1) as nat);
        }
        lemma_pow16_pos((len - 1) as nat);
        lemma_hex_text_value(n / 16, (len - 1) as nat);
        let prefix = hex_text(n / 16, (len - 1) as nat);
        let d = hex_digit_char((n % 16) as int);
        assert(prefix.push(d).drop_last() =~= prefix);
        lemma_hex_digit_char((n % 16) as int);
    }
}

/// A string of `len` hexadecimal digits denotes a value in `[0, 16^len)`.
pub proof fn lemma_hex_seq_val_bound(s: Seq<char>)
    requires
        all_hex_digits(s),
    ensures
        0 <= hex_seq_val(s) < pow16(s.len()),
    decreases s.len(),
{
    if s.len() == 0 {
    } else {
        assert(all_hex_digits(s.drop_last())) by {
            assert(forall|i: int| 0 <= i < s.len() - 1 ==> s.drop_last()[i] == s[i]);
        }
        lemma_hex_seq_val_bound(s.drop_last());
        assert(pow16(s.len()) == 16 * pow16((s.len() - 1) as nat));
        assert(0 <= hex_val(s.last()) < 16);
    }
}

// ---------------------------------------------------------------------
// Executable renderers
// ---------------------------------------------------------------------

/// One-character string for a decimal digit value.
pub fn dec_digit_str(d: u8) -> (r: &'static str)
    requires
        d < 10,
    ensures
        r@ =~= seq![dec_digit_char(d as int)],
{
    proof {
        reveal_strlit("0");
        reveal_strlit("1");
        reveal_strlit("2");
        reveal_strlit("3");
        reveal_strlit("4");
        reveal_strlit("5");
        reveal_strlit("6");
        reveal_strlit("7");
        reveal_strlit("8");
        reveal_strlit("9");
    }
    match d {
        0 => "0",
        1 => "1",
        2 => "2",
        3 => "3",
        4 => "4",
        5 => "5",
        6 => "6",
        7 => "7",
        8 => "8",
        _ => "9",
    }
}

/// One-character string for a hexadecimal digit value, lower case.
pub fn hex_digit_str(d: u8) -> (r: &'static str)
    requires
        d < 16,
    ensures
        r@ =~= seq![hex_digit_char(d as int)],
{
    proof {
        reveal_strlit("a");
        reveal_strlit("b");
        reveal_strlit("c");
        reveal_strlit("d");
        reveal_strlit("e");
        reveal_strlit("f");
    }
    match d {
        10 => "a",
        11 => "b",
        12 => "c",
        13 => "d",
        14 => "e",
        15 => "f",
        _ => dec_digit_str(d),
    }
}

/// Canonical decimal rendering of an unsigned number.
pub fn render_dec_u32(n: u32) -> (r: String)
    ensures
        r@ =~= dec_text(n as nat),
    decreases n,
{
    if n < 10 {
        String::from_str(dec_digit_str(n as u8))
    } else {
        let mut s = render_dec_u32(n / 10);
        s.append(dec_digit_str((n % 10) as u8));
        proof {
            assert(dec_text((n / 10) as nat).push(dec_digit_char((n % 10) as int))
                =~= dec_text((n / 10) as nat) + seq![dec_digit_char((n % 10) as int)]);
        }
        s
    }
}

/// Canonical decimal rendering of a possibly negative number.
pub open spec fn dec_text_signed(v: int) -> Seq<char> {
    if v < 0 {
        seq!['-'] + dec_text((-v) as nat)
    } else {
        dec_text(v as nat)
    }
}

/// Canonical decimal rendering of a signed 32-bit value.
pub fn render_dec_i32(v: i32) -> (r: String)
    ensures
        r@ =~= dec_text_signed(v as int),
{
    proof {
        reveal_strlit("-");
    }
    if v < 0 {
        let m = (-(v as i64)) as u32;
        let mut s = String::from_str("-");
        let t = render_dec_u32(m);
        s.append(t.as_str());
        s
    } else {
        render_dec_u32(v as u32)
    }
}

/// Fixed-width lower-case hexadecimal rendering of a 128-bit value.
pub fn render_hex_u128(n: u128, len: usize) -> (r: String)
    ensures
        r@ =~= hex_text(n as nat, len as nat),
    decreases len,
{
    if len == 0 {
        String::new()
    } else {
        let mut s = render_hex_u128(n / 16, len - 1);
        s.append(hex_digit_str((n % 16) as u8));
        proof {
            assert(hex_text((n / 16) as nat, (len - 1) as nat).push(hex_digit_char((n % 16) as int))
                =~= hex_text((n / 16) as nat, (len - 1) as nat) + seq![hex_digit_char((n % 16) as int)]);
        }
        s
    }
}

// ---------------------------------------------------------------------
// Executable decimal parser
// ---------------------------------------------------------------------

/// What `parse_dec_capped` returns: the denoted number when the text is a
/// canonical decimal rendering of a value no larger than `cap`.
pub open spec fn parse_dec_spec(s: Seq<char>, cap: u32) -> Option<u32> {
    match dec_value(s) {
        Some(v) => if 0 <= v <= cap { Some(v as u32) } else { None },
        None => None,
    }
}

/// Parse a canonical decimal rendering, rejecting values above `cap`.
pub fn parse_dec_capped(s: &str, cap: u32) -> (r: Option<u32>)
    ensures
        r == parse_dec_spec(s@, cap),
{
    let len = s.unicode_len();
    if len == 0 {
        return None;
    }
    if len > 1 && s.get_char(0) == '0' {
        assert(!canonical_dec(s@));
        return None;
    }
    let mut acc: u64 = 0;
    let mut i: usize = 0;
    while i < len
        invariant
            0 <= i <= len,
            len == s@.len(),
            len >= 1,
            s@[0] != '0' || len == 1,
            forall|j: int| 0 <= j < i ==> is_dec_digit(#[trigger] s@[j]),
            acc == dec_seq_val(s@.subrange(0, i as int)),
            acc <= cap,
        decreases len - i,
    {
        let c = s.get_char(i);
        let code = c as u32;
        if code < 48 || code > 57 {
            assert(!all_dec_digits(s@));
            return None;
        }
        let d = (code - 48) as u64;
        let next = acc * 10 + d;
        proof {
            assert(s@.subrange(0, i + 1).drop_last() =~= s@.subrange(0, i as int));
            assert(dec_seq_val(s@.subrange(0, i + 1)) == 10 * dec_seq_val(s@.subrange(0, i as int)) + dec_val(s@[i as int]));
        }
        if next > cap as u64 {
            proof {
                if all_dec_digits(s@) {
                    lemma_dec_prefix_le(s@, i + 1);
                    assert(dec_seq_val(s@) >= next);
                }
            }
            return None;
        }
        acc = next;
        i = i + 1;
    }
    proof {
        assert(s@.subrange(0, len as int) =~= s@);
        assert(canonical_dec(s@));
    }
    Some(acc as u32)
}

} // verus!

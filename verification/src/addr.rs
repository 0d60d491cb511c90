//! Peer network addresses.
//!
//! The engine models a peer's address as four plain octets and gives the
//! canonical dotted-decimal text an exact specification: `addr_text` is
//! the rendering, `addr_value` the constructive reading, and the two are
//! proved inverse.  Remote firewall rules are keyed by this text, so the
//! partition protocol's contracts all bottom out here.

use vstd::prelude::*;
use vstd::string::*;
use crate::digits::{
    all_dec_digits, canonical_dec, dec_seq_val, dec_text, dec_val, dec_value, is_dec_digit,
    lemma_canonical_dec_unique, lemma_dec_prefix_le, lemma_dec_round_trip,
    lemma_dec_text_canonical, render_dec_u32,
};

verus! {

/// An IPv4 address held as four plain octets.
#[derive(Clone, Copy, PartialEq, Eq, Structural, Debug)]
pub struct PeerAddr {
    pub o0: u8,
    pub o1: u8,
    pub o2: u8,
    pub o3: u8,
}

/// Canonical dotted-decimal text of an address.
pub open spec fn addr_text(a: PeerAddr) -> Seq<char> {
    dec_text(a.o0 as nat) + seq!['.'] + dec_text(a.o1 as nat) + seq!['.']
        + dec_text(a.o2 as nat) + seq!['.'] + dec_text(a.o3 as nat)
}

// ---------------------------------------------------------------------
// Constructive reading of dotted-decimal text
// ---------------------------------------------------------------------

/// End of the maximal run of decimal digits beginning at `i`.
pub open spec fn digit_run_end(s: Seq<char>, i: int) -> int
    decreases s.len() - i,
{
    if 0 <= i < s.len() && is_dec_digit(s[i]) {
        digit_run_end(s, i + 1)
    } else {
        i
    }
}

/// The octet denoted by the digit run beginning at `i`, with the position
/// just past it; `None` when the run is empty, has a leading zero, or
/// denotes a value above 255.
pub open spec fn octet_at(s: Seq<char>, i: int) -> Option<(u8, int)> {
    let e = digit_run_end(s, i);
    match dec_value(s.subrange(i, e)) {
        Some(v) => if v <= 255 {
            Some(((v as u8), e))
        } else {
            None
        },
        None => None,
    }
}

/// The address a piece of text denotes, when it is the canonical
/// dotted-decimal form of one; `None` otherwise.
pub open spec fn addr_value(s: Seq<char>) -> Option<PeerAddr> {
    match octet_at(s, 0) {
        None => None,
        Some((v0, p0)) => if p0 < s.len() && s[p0] == '.' {
            match octet_at(s, p0 + 1) {
                None => None,
                Some((v1, p1)) => if p1 < s.len() && s[p1] == '.' {
                    match octet_at(s, p1 + 1) {
                        None => None,
                        Some((v2, p2)) => if p2 < s.len() && s[p2] == '.' {
                            match octet_at(s, p2 + 1) {
                                None => None,
                                Some((v3, p3)) => if p3 == s.len() {
                                    Some(PeerAddr { o0: v0, o1: v1, o2: v2, o3: v3 })
                                } else {
                                    None
                                },
                            }
                        } else {
                            None
                        },
                    }
                } else {
                    None
                },
            }
        } else {
            None
        },
    }
}

pub proof fn lemma_digit_run_end_bounds(s: Seq<char>, i: int)
    requires
        0 <= i <= s.len(),
    ensures
        i <= digit_run_end(s, i) <= s.len(),
        forall|j: int| i <= j < digit_run_end(s, i) ==> is_dec_digit(#[trigger] s[j]),
        digit_run_end(s, i) == s.len() || !is_dec_digit(s[digit_run_end(s, i)]),
    decreases s.len() - i,
{
    if i < s.len() && is_dec_digit(s[i]) {
        lemma_digit_run_end_bounds(s, i + 1);
    }
}

/// A maximal digit run is uniquely determined by its endpoints.
pub proof fn lemma_digit_run_end_exact(s: Seq<char>, i: int, e: int)
    requires
        0 <= i <= e <= s.len(),
        forall|j: int| i <= j < e ==> is_dec_digit(#[trigger] s[j]),
        e == s.len() || !is_dec_digit(s[e]),
    ensures
        digit_run_end(s, i) == e,
    decreases e - i,
{
    if i < e {
        lemma_digit_run_end_exact(s, i + 1, e);
    }
}

/// Reading the text directly after a rendered octet: the digit run is the
/// rendered octet itself, and `octet_at` recovers its value.
pub proof fn lemma_octet_at_rendered(s: Seq<char>, i: int, v: u8)
    requires
        0 <= i,
        i + dec_text(v as nat).len() <= s.len(),
        s.subrange(i, i + dec_text(v as nat).len() as int) =~= dec_text(v as nat),
        i + dec_text(v as nat).len() == s.len()
            || !is_dec_digit(s[i + dec_text(v as nat).len()]),
    ensures
        octet_at(s, i) == Some((v, i + dec_text(v as nat).len() as int)),
{
    let d = dec_text(v as nat);
    let e = i + d.len() as int;
    lemma_dec_text_canonical(v as nat);
    assert(forall|j: int| i <= j < e ==> is_dec_digit(#[trigger] s[j])) by {
        assert(forall|j: int| i <= j < e ==> s[j] == d[j - i]);
    }
    lemma_digit_run_end_exact(s, i, e);
    lemma_dec_round_trip(v as nat);
}

// ---------------------------------------------------------------------
// Executable rendering and parsing
// ---------------------------------------------------------------------

impl PeerAddr {
    pub fn new(o0: u8, o1: u8, o2: u8, o3: u8) -> (r: PeerAddr)
        ensures
            r == (PeerAddr { o0, o1, o2, o3 }),
    {
        PeerAddr { o0, o1, o2, o3 }
    }

    /// Canonical dotted-decimal rendering.
    pub fn to_text(&self) -> (r: String)
        ensures
            r@ =~= addr_text(*self),
    {
        proof {
            reveal_strlit(".");
        }
        let mut s = render_dec_u32(self.o0 as u32);
        s.append(".");
        let t1 = render_dec_u32(self.o1 as u32);
        s.append(t1.as_str());
        s.append(".");
        let t2 = render_dec_u32(self.o2 as u32);
        s.append(t2.as_str());
        s.append(".");
        let t3 = render_dec_u32(self.o3 as u32);
        s.append(t3.as_str());
        s
    }

    /// Read canonical dotted-decimal text back into an address.
    pub fn parse(s: &str) -> (r: Option<PeerAddr>)
        ensures
            r == addr_value(s@),
    {
        let len = s.unicode_len();
        let (v0, p0) = match scan_octet(s, 0) {
            Some(p) => p,
            None => {
                return None;
            },
        };
        if p0 >= len || s.get_char(p0) != '.' {
            return None;
        }
        let (v1, p1) = match scan_octet(s, p0 + 1) {
            Some(p) => p,
            None => {
                return None;
            },
        };
        if p1 >= len || s.get_char(p1) != '.' {
            return None;
        }
        let (v2, p2) = match scan_octet(s, p1 + 1) {
            Some(p) => p,
            None => {
                return None;
            },
        };
        if p2 >= len || s.get_char(p2) != '.' {
            return None;
        }
        let (v3, p3) = match scan_octet(s, p2 + 1) {
            Some(p) => p,
            None => {
                return None;
            },
        };
        if p3 != len {
            return None;
        }
        Some(PeerAddr { o0: v0, o1: v1, o2: v2, o3: v3 })
    }
}

/// The rendering of an address reads back as exactly that address.
pub proof fn lemma_addr_round_trip(a: PeerAddr)
    ensures
        addr_value(addr_text(a)) == Some(a),
{
    let s = addr_text(a);
    let d0 = dec_text(a.o0 as nat);
    let d1 = dec_text(a.o1 as nat);
    let d2 = dec_text(a.o2 as nat);
    let d3 = dec_text(a.o3 as nat);
    let q0: int = 0;
    let q1: int = d0.len() as int + 1;
    let q2: int = d0.len() as int + d1.len() as int + 2;
    let q3: int = d0.len() as int + d1.len() as int + d2.len() as int + 3;
    assert(s.len() == d0.len() + d1.len() + d2.len() + d3.len() + 3);
    assert(s.subrange(q0, q0 + d0.len() as int) =~= d0);
    assert(s[q0 + d0.len() as int] == '.');
    lemma_octet_at_rendered(s, q0, a.o0);
    assert(s.subrange(q1, q1 + d1.len() as int) =~= d1);
    assert(s[q1 + d1.len() as int] == '.');
    lemma_octet_at_rendered(s, q1, a.o1);
    assert(s.subrange(q2, q2 + d2.len() as int) =~= d2);
    assert(s[q2 + d2.len() as int] == '.');
    lemma_octet_at_rendered(s, q2, a.o2);
    assert(s.subrange(q3, q3 + d3.len() as int) =~= d3);
    lemma_octet_at_rendered(s, q3, a.o3);
}

/// Text that reads as an address is the canonical rendering of it:
/// the dotted-decimal form is unambiguous.
pub proof fn lemma_addr_value_sound(s: Seq<char>, a: PeerAddr)
    requires
        addr_value(s) == Some(a),
    ensures
        s =~= addr_text(a),
{
    let p0 = digit_run_end(s, 0);
    lemma_digit_run_end_bounds(s, 0);
    lemma_canonical_dec_unique(s.subrange(0, p0));
    let p1 = digit_run_end(s, p0 + 1);
    lemma_digit_run_end_bounds(s, p0 + 1);
    lemma_canonical_dec_unique(s.subrange(p0 + 1, p1));
    let p2 = digit_run_end(s, p1 + 1);
    lemma_digit_run_end_bounds(s, p1 + 1);
    lemma_canonical_dec_unique(s.subrange(p1 + 1, p2));
    let p3 = digit_run_end(s, p2 + 1);
    lemma_digit_run_end_bounds(s, p2 + 1);
    lemma_canonical_dec_unique(s.subrange(p2 + 1, p3));
}

/// Parse the maximal digit run starting at `start` as an octet.
fn scan_octet(s: &str, start: usize) -> (r: Option<(u8, usize)>)
    requires
        start <= s@.len(),
    ensures
        match octet_at(s@, start as int) {
            Some((v, e)) => r matches Some(p) && p.0 == v && p.1 == e,
            None => r is None,
        },
{
    let len = s.unicode_len();
    let mut e: usize = start;
    while e < len
        invariant_except_break
            start <= e <= len,
            len == s@.len(),
            forall|j: int| start <= j < e ==> is_dec_digit(#[trigger] s@[j]),
        ensures
            start <= e <= len,
            len == s@.len(),
            forall|j: int| start <= j < e ==> is_dec_digit(#[trigger] s@[j]),
            e == len || !is_dec_digit(s@[e as int]),
        decreases len - e,
    {
        let c = s.get_char(e);
        if (c as u32) < 48 || (c as u32) > 57 {
            break;
        }
        e = e + 1;
    }
    proof {
        lemma_digit_run_end_exact(s@, start as int, e as int);
    }
    let ghost run = s@.subrange(start as int, e as int);
    if e == start {
        // empty run: not a canonical decimal
        return None;
    }
    if e - start > 1 && s.get_char(start) == '0' {
        assert(run[0] == '0' && run.len() > 1);
        assert(dec_value(run) is None);
        return None;
    }
    let mut acc: u32 = 0;
    let mut i: usize = start;
    while i < e
        invariant
            start <= i <= e <= len,
            len == s@.len(),
            e as int == digit_run_end(s@, start as int),
            forall|j: int| start <= j < e ==> is_dec_digit(#[trigger] s@[j]),
            s@[start as int] != '0' || e - start == 1,
            acc == dec_seq_val(s@.subrange(start as int, i as int)),
            acc <= 255,
        decreases e - i,
    {
        let c = s.get_char(i);
        let d = (c as u32) - 48;
        proof {
            assert(s@.subrange(start as int, i + 1).drop_last() =~= s@.subrange(
                start as int,
                i as int,
            ));
            assert(dec_seq_val(s@.subrange(start as int, i + 1)) == 10 * dec_seq_val(
                s@.subrange(start as int, i as int),
            ) + dec_val(s@[i as int]));
        }
        let next = acc * 10 + d;
        if next > 255 {
            proof {
                let whole = s@.subrange(start as int, e as int);
                assert(all_dec_digits(whole)) by {
                    assert(forall|j: int| 0 <= j < whole.len() ==> whole[j] == s@[start + j]);
                }
                lemma_dec_prefix_le(whole, i + 1 - start);
                assert(whole.subrange(0, i + 1 - start) =~= s@.subrange(start as int, i + 1));
                assert(dec_seq_val(whole) >= next);
            }
            return None;
        }
        acc = next;
        i = i + 1;
    }
    proof {
        let run = s@.subrange(start as int, e as int);
        assert(canonical_dec(run)) by {
            assert(run[0] == s@[start as int]);
            assert(forall|j: int| 0 <= j < run.len() ==> run[j] == s@[start + j]);
        }
    }
    Some(((acc as u8), e))
}

} // verus!

//! Only what the writer can produce is read.

use crate::envelope::grammar::{
    array_member, array_member_at, body_at, candidate_at, candidate_text, candidates_at,
    candidates_tail_at, candidates_tail_text, candidates_text, digit_run, digits_value,
    envelope_of, envelope_text, escape_byte, escaped, hex_digit, index_at, index_member,
    index_member_at, key_candidate, key_ice_candidates, key_offer, key_sdp_m_line_index,
    key_sdp_mid, lit_at, quoted, separator, string_at, text_member, text_member_at, unit_at,
    CandidateFieldsView, EnvelopeFieldsView, BACKSLASH, COMMA, LBRACE, LBRACKET, QUOTE, RBRACE,
    RBRACKET,
};
use crate::envelope::roundtrip::{lemma_envelope_written, lemma_lit_split};
use crate::text::decimal;
use vstd::prelude::*;

verus! {

proof fn lemma_one_byte(t: Seq<u8>, pos: int, b: u8)
    requires
        0 <= pos < t.len(),
        t[pos] == b,
    ensures
        lit_at(t, pos, seq![b]),
{
    assert(t.subrange(pos, pos + 1) =~= seq![b]);
}

proof fn lemma_nothing(t: Seq<u8>, pos: int)
    requires
        0 <= pos <= t.len(),
    ensures
        lit_at(t, pos, Seq::<u8>::empty()),
{
    assert(t.subrange(pos, pos) =~= Seq::<u8>::empty());
}

proof fn lemma_unit_read(t: Seq<u8>, pos: int, b: u8, next: int)
    requires
        unit_at(t, pos) == Some((b, next)),
    ensures
        lit_at(t, pos, escape_byte(b)),
        next == pos + escape_byte(b).len(),
{
    let e = escape_byte(b);
    if t[pos] == BACKSLASH && t[pos + 1] == 0x75 {
        assert(hex_digit(b as int / 16) == t[pos + 4]);
        assert(hex_digit(b as int % 16) == t[pos + 5]);
    }
    assert(t.subrange(pos, pos + e.len()) =~= e);
}

/// What is read between the quotes stands there as the writer writes it.
pub proof fn lemma_body_read(t: Seq<u8>, pos: int, s: Seq<u8>, end: int)
    requires
        body_at(t, pos) == Some((s, end)),
    ensures
        lit_at(t, pos, escaped(s) + seq![QUOTE]),
        end == pos + escaped(s).len() + 1,
    decreases t.len() - pos,
{
    if t[pos] == QUOTE {
        assert(escaped(s) + seq![QUOTE] =~= seq![QUOTE]);
        lemma_one_byte(t, pos, QUOTE);
    } else {
        let (b, next) = unit_at(t, pos).unwrap();
        let (rest, rest_end) = body_at(t, next).unwrap();
        lemma_unit_read(t, pos, b, next);
        lemma_body_read(t, next, rest, rest_end);
        assert(s == seq![b] + rest);
        assert(s.skip(1) =~= rest);
        assert(escaped(s) + seq![QUOTE] =~= escape_byte(b) + (escaped(rest) + seq![QUOTE]));
        lemma_lit_split(t, pos, escape_byte(b), escaped(rest) + seq![QUOTE]);
    }
}

/// A string that is read stands there as the writer writes it.
pub proof fn lemma_string_read(t: Seq<u8>, pos: int, s: Seq<u8>, end: int)
    requires
        string_at(t, pos) == Some((s, end)),
    ensures
        lit_at(t, pos, quoted(s)),
        end == pos + quoted(s).len(),
{
    lemma_body_read(t, pos + 1, s, end);
    lemma_one_byte(t, pos, QUOTE);
    assert(quoted(s) =~= seq![QUOTE] + (escaped(s) + seq![QUOTE]));
    lemma_lit_split(t, pos, seq![QUOTE], escaped(s) + seq![QUOTE]);
}

/// A line index that is read stands there as the writer writes it.
pub proof fn lemma_index_read(t: Seq<u8>, pos: int, n: u16, end: int)
    requires
        index_at(t, pos) == Some((n, end)),
    ensures
        lit_at(t, pos, decimal(n as nat)),
        end == pos + decimal(n as nat).len(),
{
    reveal_with_fuel(decimal, 6);
    reveal_with_fuel(digits_value, 6);
    let k = digit_run(t, pos);
    let d = decimal(n as nat);
    assert(d.len() == k);
    assert(t.subrange(pos, pos + k) =~= d);
}

proof fn lemma_text_member_read(
    t: Seq<u8>,
    pos: int,
    first: bool,
    key: Seq<u8>,
    value: Option<Seq<u8>>,
    end: int,
)
    requires
        0 <= pos <= t.len(),
        text_member_at(t, pos, first, key) == Some((value, end)),
    ensures
        lit_at(t, pos, text_member(first, key, value)),
        end == pos + text_member(first, key, value).len(),
        end <= t.len(),
{
    let lit = separator(first) + key;
    match value {
        Some(v) => {
            lemma_string_read(t, pos + lit.len(), v, end);
            lemma_lit_split(t, pos, lit, quoted(v));
        },
        None => {
            lemma_nothing(t, pos);
        },
    }
}

proof fn lemma_index_member_read(
    t: Seq<u8>,
    pos: int,
    first: bool,
    key: Seq<u8>,
    value: Option<u16>,
    end: int,
)
    requires
        0 <= pos <= t.len(),
        index_member_at(t, pos, first, key) == Some((value, end)),
    ensures
        lit_at(t, pos, index_member(first, key, value)),
        end == pos + index_member(first, key, value).len(),
        end <= t.len(),
{
    let lit = separator(first) + key;
    match value {
        Some(n) => {
            lemma_index_read(t, pos + lit.len(), n, end);
            lemma_lit_split(t, pos, lit, decimal(n as nat));
        },
        None => {
            lemma_nothing(t, pos);
        },
    }
}

/// A candidate object that is read stands there as the writer writes it.
pub proof fn lemma_candidate_read(t: Seq<u8>, pos: int, c: CandidateFieldsView, end: int)
    requires
        candidate_at(t, pos) == Some((c, end)),
    ensures
        lit_at(t, pos, candidate_text(c)),
        end == pos + candidate_text(c).len(),
        end > pos,
{
    let f2 = c.candidate is None;
    let f3 = f2 && c.sdp_mid is None;
    let m1 = text_member(true, key_candidate(), c.candidate);
    let m2 = text_member(f2, key_sdp_mid(), c.sdp_mid);
    let m3 = index_member(f3, key_sdp_m_line_index(), c.sdp_m_line_index);
    let (v1, p1) = text_member_at(t, pos + 1, true, key_candidate()).unwrap();
    lemma_text_member_read(t, pos + 1, true, key_candidate(), v1, p1);
    let (v2, p2) = text_member_at(t, p1, f2, key_sdp_mid()).unwrap();
    lemma_text_member_read(t, p1, f2, key_sdp_mid(), v2, p2);
    let (v3, p3) = index_member_at(t, p2, f3, key_sdp_m_line_index()).unwrap();
    lemma_index_member_read(t, p2, f3, key_sdp_m_line_index(), v3, p3);
    lemma_one_byte(t, pos, LBRACE);
    lemma_one_byte(t, p3, RBRACE);
    lemma_lit_split(t, pos, seq![LBRACE], m1);
    lemma_lit_split(t, pos, seq![LBRACE] + m1, m2);
    lemma_lit_split(t, pos, seq![LBRACE] + m1 + m2, m3);
    lemma_lit_split(t, pos, seq![LBRACE] + m1 + m2 + m3, seq![RBRACE]);
}

/// The candidates that are read behind the first stand there as the writer
/// writes them.
pub proof fn lemma_tail_read(t: Seq<u8>, pos: int, cs: Seq<CandidateFieldsView>, end: int)
    requires
        candidates_tail_at(t, pos) == Some((cs, end)),
    ensures
        lit_at(t, pos, candidates_tail_text(cs)),
        end == pos + candidates_tail_text(cs).len(),
    decreases t.len() - pos,
{
    if t[pos] == RBRACKET {
        lemma_one_byte(t, pos, RBRACKET);
    } else {
        let (c, next) = candidate_at(t, pos + 1).unwrap();
        let (rest, rest_end) = candidates_tail_at(t, next).unwrap();
        lemma_candidate_read(t, pos + 1, c, next);
        lemma_tail_read(t, next, rest, rest_end);
        assert(cs == seq![c] + rest);
        assert(cs.skip(1) =~= rest);
        lemma_one_byte(t, pos, COMMA);
        lemma_lit_split(t, pos, seq![COMMA], candidate_text(c));
        lemma_lit_split(t, pos, seq![COMMA] + candidate_text(c), candidates_tail_text(rest));
    }
}

/// An array of candidate objects that is read stands there as the writer
/// writes it.
pub proof fn lemma_candidates_read(t: Seq<u8>, pos: int, cs: Seq<CandidateFieldsView>, end: int)
    requires
        candidates_at(t, pos) == Some((cs, end)),
    ensures
        lit_at(t, pos, candidates_text(cs)),
        end == pos + candidates_text(cs).len(),
{
    if pos + 1 < t.len() && t[pos + 1] == RBRACKET {
        assert(t.subrange(pos, pos + 2) =~= seq![LBRACKET, RBRACKET]);
    } else {
        let (c, next) = candidate_at(t, pos + 1).unwrap();
        let (rest, rest_end) = candidates_tail_at(t, next).unwrap();
        lemma_candidate_read(t, pos + 1, c, next);
        lemma_tail_read(t, next, rest, rest_end);
        assert(cs == seq![c] + rest);
        assert(cs.skip(1) =~= rest);
        lemma_one_byte(t, pos, LBRACKET);
        lemma_lit_split(t, pos, seq![LBRACKET], candidate_text(c));
        lemma_lit_split(t, pos, seq![LBRACKET] + candidate_text(c), candidates_tail_text(rest));
    }
}

/// A byte string that is read as an envelope is that envelope as the writer
/// writes it.
pub proof fn lemma_envelope_read(t: Seq<u8>, e: EnvelopeFieldsView)
    requires
        envelope_of(t) == Some(e),
    ensures
        t == envelope_text(e),
{
    let f2 = e.ice_candidates is None;
    let m1 = array_member(true, key_ice_candidates(), e.ice_candidates);
    let m2 = text_member(f2, key_offer(), e.offer);
    let lit1 = separator(true) + key_ice_candidates();
    let (v1, p1) = array_member_at(t, 1, true, key_ice_candidates()).unwrap();
    match e.ice_candidates {
        Some(cs) => {
            lemma_candidates_read(t, 1 + lit1.len() as int, cs, p1);
            lemma_lit_split(t, 1, lit1, candidates_text(cs));
        },
        None => {
            lemma_nothing(t, 1);
        },
    }
    let (v2, p2) = text_member_at(t, p1, f2, key_offer()).unwrap();
    lemma_text_member_read(t, p1, f2, key_offer(), v2, p2);
    lemma_one_byte(t, 0, LBRACE);
    lemma_one_byte(t, p2, RBRACE);
    lemma_lit_split(t, 0, seq![LBRACE], m1);
    lemma_lit_split(t, 0, seq![LBRACE] + m1, m2);
    lemma_lit_split(t, 0, seq![LBRACE] + m1 + m2, seq![RBRACE]);
    assert(t.subrange(0, t.len() as int) =~= t);
}

/// A byte string is read as an envelope exactly where it is that envelope
/// as the writer writes it.
pub proof fn lemma_envelope_exact(t: Seq<u8>, e: EnvelopeFieldsView)
    ensures
        envelope_of(t) == Some(e) <==> t == envelope_text(e),
{
    if envelope_of(t) == Some(e) {
        lemma_envelope_read(t, e);
    }
    if t == envelope_text(e) {
        lemma_envelope_written(e);
    }
}

} // verus!

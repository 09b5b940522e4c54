//! Reading gives back what was written.

use crate::envelope::grammar::{
    array_member, body_at, candidate_at, candidate_text, candidates_at, candidates_tail_at,
    candidates_tail_text, candidates_text, digit_at, digits_value, envelope_of, envelope_text,
    escape_byte, escaped, hex_digit, hex_value, index_at, index_member, index_member_at, is_digit,
    key_candidate, key_ice_candidates, key_offer, key_sdp_m_line_index, key_sdp_mid, lit_at,
    quoted, separator, short_escape, string_at, text_member, text_member_at, unit_at,
    CandidateFieldsView, EnvelopeFieldsView, COMMA, LBRACE, LBRACKET, QUOTE, RBRACE,
};
use crate::text::decimal;
use vstd::prelude::*;

verus! {

/// Two texts stand one behind the other exactly where their concatenation
/// stands.
pub proof fn lemma_lit_split(t: Seq<u8>, pos: int, a: Seq<u8>, b: Seq<u8>)
    ensures
        lit_at(t, pos, a + b) <==> lit_at(t, pos, a) && lit_at(t, pos + a.len(), b),
{
    if lit_at(t, pos, a + b) {
        let whole = t.subrange(pos, pos + (a + b).len());
        assert(t.subrange(pos, pos + a.len()) =~= whole.subrange(0, a.len() as int));
        assert(whole.subrange(0, a.len() as int) =~= a);
        assert(t.subrange(pos + a.len(), pos + a.len() + b.len()) =~= whole.subrange(
            a.len() as int,
            (a + b).len() as int,
        ));
        assert(whole.subrange(a.len() as int, (a + b).len() as int) =~= b);
    }
    if lit_at(t, pos, a) && lit_at(t, pos + a.len(), b) {
        assert(t.subrange(pos, pos + (a + b).len()) =~= t.subrange(pos, pos + a.len())
            + t.subrange(pos + a.len(), pos + a.len() + b.len()));
    }
}

/// A text that stands at `pos` gives the bytes there.
pub proof fn lemma_lit_byte(t: Seq<u8>, pos: int, lit: Seq<u8>, k: int)
    requires
        lit_at(t, pos, lit),
        0 <= k < lit.len(),
    ensures
        0 <= pos + k < t.len(),
        t[pos + k] == lit[k],
{
    assert(t.subrange(pos, pos + lit.len())[k] == t[pos + k]);
}

/// A text does not stand where one of its bytes differs.
pub proof fn lemma_lit_differs(t: Seq<u8>, pos: int, lit: Seq<u8>, k: int)
    requires
        0 <= k < lit.len(),
        0 <= pos,
        pos + k >= t.len() || t[pos + k] != lit[k],
    ensures
        !lit_at(t, pos, lit),
{
    if lit_at(t, pos, lit) {
        lemma_lit_byte(t, pos, lit, k);
    }
}

proof fn lemma_unit_written(t: Seq<u8>, pos: int, b: u8)
    requires
        lit_at(t, pos, escape_byte(b)),
    ensures
        unit_at(t, pos) == Some((b, pos + escape_byte(b).len())),
        t[pos] != QUOTE,
        escape_byte(b).len() >= 1,
{
    let e = escape_byte(b);
    lemma_lit_byte(t, pos, e, 0);
    if short_escape(b) is Some {
        lemma_lit_byte(t, pos, e, 1);
    } else if b < 0x20 {
        lemma_lit_byte(t, pos, e, 1);
        lemma_lit_byte(t, pos, e, 2);
        lemma_lit_byte(t, pos, e, 3);
        lemma_lit_byte(t, pos, e, 4);
        lemma_lit_byte(t, pos, e, 5);
        assert(b as int / 16 == 0 || b as int / 16 == 1);
        assert(hex_value(hex_digit(b as int % 16)) == Some(b as int % 16));
    }
}

/// The text between the quotes is read back as it was written.
pub proof fn lemma_body_written(t: Seq<u8>, pos: int, s: Seq<u8>)
    requires
        lit_at(t, pos, escaped(s) + seq![QUOTE]),
    ensures
        body_at(t, pos) == Some((s, pos + escaped(s).len() + 1)),
    decreases s.len(),
{
    if s.len() == 0 {
        lemma_lit_byte(t, pos, escaped(s) + seq![QUOTE], 0);
        assert(s =~= Seq::<u8>::empty());
    } else {
        let e = escape_byte(s[0]);
        let rest = s.skip(1);
        assert(escaped(s) + seq![QUOTE] =~= e + (escaped(rest) + seq![QUOTE]));
        lemma_lit_split(t, pos, e, escaped(rest) + seq![QUOTE]);
        lemma_unit_written(t, pos, s[0]);
        lemma_body_written(t, pos + e.len(), rest);
        assert(seq![s[0]] + rest =~= s);
    }
}

/// A JSON string is read back as it was written.
pub proof fn lemma_string_written(t: Seq<u8>, pos: int, s: Seq<u8>)
    requires
        lit_at(t, pos, quoted(s)),
    ensures
        string_at(t, pos) == Some((s, pos + quoted(s).len())),
{
    assert(quoted(s) =~= seq![QUOTE] + (escaped(s) + seq![QUOTE]));
    lemma_lit_split(t, pos, seq![QUOTE], escaped(s) + seq![QUOTE]);
    lemma_lit_byte(t, pos, seq![QUOTE], 0);
    lemma_body_written(t, pos + 1, s);
}

/// A line index is read back as it was written, where no digit follows it.
pub proof fn lemma_index_written(t: Seq<u8>, pos: int, n: u16)
    requires
        lit_at(t, pos, decimal(n as nat)),
        !digit_at(t, pos + decimal(n as nat).len()),
    ensures
        index_at(t, pos) == Some((n, pos + decimal(n as nat).len())),
{
    reveal_with_fuel(decimal, 6);
    reveal_with_fuel(digits_value, 6);
    let d = decimal(n as nat);
    let m = n as nat;
    if m < 10 {
        lemma_lit_byte(t, pos, d, 0);
    } else if m < 100 {
        lemma_lit_byte(t, pos, d, 0);
        lemma_lit_byte(t, pos, d, 1);
    } else if m < 1000 {
        lemma_lit_byte(t, pos, d, 0);
        lemma_lit_byte(t, pos, d, 1);
        lemma_lit_byte(t, pos, d, 2);
    } else if m < 10000 {
        lemma_lit_byte(t, pos, d, 0);
        lemma_lit_byte(t, pos, d, 1);
        lemma_lit_byte(t, pos, d, 2);
        lemma_lit_byte(t, pos, d, 3);
    } else {
        lemma_lit_byte(t, pos, d, 0);
        lemma_lit_byte(t, pos, d, 1);
        lemma_lit_byte(t, pos, d, 2);
        lemma_lit_byte(t, pos, d, 3);
        lemma_lit_byte(t, pos, d, 4);
    }
}

/// `after` and `lit` differ at a byte that both have.
pub open spec fn differs(after: Seq<u8>, lit: Seq<u8>) -> bool {
    exists|k: int| 0 <= k < lit.len() && k < after.len() && after[k] != lit[k]
}

proof fn lemma_differs_at(after: Seq<u8>, lit: Seq<u8>, k: int)
    requires
        0 <= k < lit.len(),
        k < after.len(),
        after[k] != lit[k],
    ensures
        differs(after, lit),
{
}

proof fn lemma_key_absent(t: Seq<u8>, pos: int, lit: Seq<u8>, after: Seq<u8>)
    requires
        lit_at(t, pos, after),
        differs(after, lit),
    ensures
        !lit_at(t, pos, lit),
{
    let k = choose|k: int| 0 <= k < lit.len() && k < after.len() && after[k] != lit[k];
    lemma_lit_byte(t, pos, after, k);
    lemma_lit_differs(t, pos, lit, k);
}

proof fn lemma_text_slot(
    t: Seq<u8>,
    pos: int,
    first: bool,
    key: Seq<u8>,
    value: Option<Seq<u8>>,
    after: Seq<u8>,
)
    requires
        lit_at(t, pos, text_member(first, key, value) + after),
        value is None ==> differs(after, separator(first) + key),
    ensures
        text_member_at(t, pos, first, key) == Some(
            (value, pos + text_member(first, key, value).len()),
        ),
        lit_at(t, pos + text_member(first, key, value).len(), after),
{
    let m = text_member(first, key, value);
    lemma_lit_split(t, pos, m, after);
    match value {
        Some(v) => {
            let lit = separator(first) + key;
            assert(m =~= lit + quoted(v));
            lemma_lit_split(t, pos, lit, quoted(v));
            lemma_string_written(t, pos + lit.len(), v);
        },
        None => {
            lemma_key_absent(t, pos, separator(first) + key, after);
        },
    }
}

proof fn lemma_index_slot(
    t: Seq<u8>,
    pos: int,
    first: bool,
    key: Seq<u8>,
    value: Option<u16>,
    after: Seq<u8>,
)
    requires
        lit_at(t, pos, index_member(first, key, value) + after),
        value is None ==> differs(after, separator(first) + key),
        after.len() > 0 && !is_digit(after[0]),
    ensures
        index_member_at(t, pos, first, key) == Some(
            (value, pos + index_member(first, key, value).len()),
        ),
        lit_at(t, pos + index_member(first, key, value).len(), after),
{
    let m = index_member(first, key, value);
    lemma_lit_split(t, pos, m, after);
    lemma_lit_byte(t, pos + m.len(), after, 0);
    match value {
        Some(n) => {
            let lit = separator(first) + key;
            assert(m =~= lit + decimal(n as nat));
            lemma_lit_split(t, pos, lit, decimal(n as nat));
            lemma_index_written(t, pos + lit.len(), n);
        },
        None => {
            lemma_key_absent(t, pos, separator(first) + key, after);
        },
    }
}

/// A candidate object is read back as it was written.
pub proof fn lemma_candidate_written(t: Seq<u8>, pos: int, c: CandidateFieldsView)
    requires
        lit_at(t, pos, candidate_text(c)),
    ensures
        candidate_at(t, pos) == Some((c, pos + candidate_text(c).len())),
        candidate_text(c).len() >= 2,
{
    reveal_strlit("\"candidate\":");
    reveal_strlit("\"sdp_mid\":");
    reveal_strlit("\"sdp_m_line_index\":");
    let f2 = c.candidate is None;
    let f3 = f2 && c.sdp_mid is None;
    let m1 = text_member(true, key_candidate(), c.candidate);
    let m2 = text_member(f2, key_sdp_mid(), c.sdp_mid);
    let m3 = index_member(f3, key_sdp_m_line_index(), c.sdp_m_line_index);
    let close = seq![RBRACE];
    let after3 = close;
    let after2 = m3 + after3;
    let after1 = m2 + after2;
    assert(candidate_text(c) =~= seq![LBRACE] + (m1 + after1));
    lemma_lit_split(t, pos, seq![LBRACE], m1 + after1);
    lemma_lit_byte(t, pos, seq![LBRACE], 0);
    let lit1 = separator(true) + key_candidate();
    let lit2 = separator(f2) + key_sdp_mid();
    let lit3 = separator(f3) + key_sdp_m_line_index();
    if c.sdp_m_line_index is None {
        assert(after2 =~= after3);
        lemma_differs_at(after2, lit3, 0);
    }
    if c.sdp_mid is None {
        assert(after1 =~= after2);
        if c.sdp_m_line_index is None {
            lemma_differs_at(after1, lit2, 0);
        } else {
            let k: int = separator(f2).len() as int + 6;
            assert(after1[k] == key_sdp_m_line_index()[6]);
            lemma_differs_at(after1, lit2, k);
        }
    }
    if c.candidate is None {
        if c.sdp_mid is None && c.sdp_m_line_index is None {
            lemma_differs_at(after1, lit1, 0);
        } else if c.sdp_mid is None {
            assert(after1[1] == key_sdp_m_line_index()[1]);
            lemma_differs_at(after1, lit1, 1);
        } else {
            assert(after1[1] == key_sdp_mid()[1]);
            lemma_differs_at(after1, lit1, 1);
        }
    }
    lemma_text_slot(t, pos + 1, true, key_candidate(), c.candidate, after1);
    let p1 = pos + 1 + m1.len();
    lemma_text_slot(t, p1, f2, key_sdp_mid(), c.sdp_mid, after2);
    let p2 = p1 + m2.len();
    lemma_index_slot(t, p2, f3, key_sdp_m_line_index(), c.sdp_m_line_index, after3);
    let p3 = p2 + m3.len();
    lemma_lit_byte(t, p3, after3, 0);
}

/// The candidates behind the first are read back as they were written.
pub proof fn lemma_tail_written(t: Seq<u8>, pos: int, cs: Seq<CandidateFieldsView>)
    requires
        lit_at(t, pos, candidates_tail_text(cs)),
    ensures
        candidates_tail_at(t, pos) == Some((cs, pos + candidates_tail_text(cs).len())),
    decreases cs.len(),
{
    if cs.len() == 0 {
        lemma_lit_byte(t, pos, candidates_tail_text(cs), 0);
        assert(cs =~= Seq::<CandidateFieldsView>::empty());
    } else {
        let head = candidate_text(cs[0]);
        let rest = candidates_tail_text(cs.skip(1));
        assert(candidates_tail_text(cs) =~= seq![COMMA] + (head + rest));
        lemma_lit_split(t, pos, seq![COMMA], head + rest);
        lemma_lit_byte(t, pos, seq![COMMA], 0);
        lemma_lit_split(t, pos + 1, head, rest);
        lemma_candidate_written(t, pos + 1, cs[0]);
        lemma_tail_written(t, pos + 1 + head.len(), cs.skip(1));
        assert(seq![cs[0]] + cs.skip(1) =~= cs);
    }
}

/// An array of candidate objects is read back as it was written.
pub proof fn lemma_candidates_written(t: Seq<u8>, pos: int, cs: Seq<CandidateFieldsView>)
    requires
        lit_at(t, pos, candidates_text(cs)),
    ensures
        candidates_at(t, pos) == Some((cs, pos + candidates_text(cs).len())),
{
    lemma_lit_byte(t, pos, candidates_text(cs), 0);
    lemma_lit_byte(t, pos, candidates_text(cs), 1);
    if cs.len() == 0 {
        assert(cs =~= Seq::<CandidateFieldsView>::empty());
    } else {
        let head = candidate_text(cs[0]);
        let rest = candidates_tail_text(cs.skip(1));
        assert(candidates_text(cs) =~= seq![LBRACKET] + (head + rest));
        lemma_lit_split(t, pos, seq![LBRACKET], head + rest);
        lemma_lit_split(t, pos + 1, head, rest);
        lemma_candidate_written(t, pos + 1, cs[0]);
        lemma_lit_byte(t, pos + 1, head, 0);
        lemma_tail_written(t, pos + 1 + head.len(), cs.skip(1));
        assert(seq![cs[0]] + cs.skip(1) =~= cs);
    }
}

/// Every envelope is read back as it was written.
pub proof fn lemma_envelope_written(e: EnvelopeFieldsView)
    ensures
        envelope_of(envelope_text(e)) == Some(e),
{
    reveal_strlit("\"ice_candidates\":");
    reveal_strlit("\"offer\":");
    let t = envelope_text(e);
    let f2 = e.ice_candidates is None;
    let m1 = array_member(true, key_ice_candidates(), e.ice_candidates);
    let m2 = text_member(f2, key_offer(), e.offer);
    let close = seq![RBRACE];
    let after1 = m2 + close;
    assert(t =~= seq![LBRACE] + (m1 + after1));
    assert(t.subrange(0, t.len() as int) =~= t);
    assert(lit_at(t, 0, t));
    lemma_lit_split(t, 0, seq![LBRACE], m1 + after1);
    lemma_lit_byte(t, 0, seq![LBRACE], 0);
    lemma_lit_split(t, 1, m1, after1);
    let lit1 = separator(true) + key_ice_candidates();
    let lit2 = separator(f2) + key_offer();
    if e.offer is None {
        assert(after1 =~= close);
        lemma_differs_at(close, lit2, 0);
    }
    match e.ice_candidates {
        Some(cs) => {
            assert(m1 =~= lit1 + candidates_text(cs));
            lemma_lit_split(t, 1, lit1, candidates_text(cs));
            lemma_candidates_written(t, 1 + lit1.len() as int, cs);
        },
        None => {
            if e.offer is None {
                lemma_differs_at(after1, lit1, 0);
            } else {
                assert(after1[1] == key_offer()[1]);
                lemma_differs_at(after1, lit1, 1);
            }
            lemma_key_absent(t, 1, lit1, after1);
        },
    }
    let p1: int = 1 + m1.len() as int;
    lemma_text_slot(t, p1, f2, key_offer(), e.offer, close);
    let p2: int = p1 + m2.len();
    lemma_lit_byte(t, p2, close, 0);
}

} // verus!

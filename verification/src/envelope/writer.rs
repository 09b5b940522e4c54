//! Writing an envelope.

use crate::envelope::grammar::{
    array_member, candidate_text, candidates_tail_text, candidates_text, envelope_text, escape_byte,
    escaped, hex_digit, index_member, key_ice_candidates, quoted, separator, text_member,
    CandidateFieldsView, EnvelopeFieldsView, BACKSLASH, COMMA, LBRACE, LBRACKET, QUOTE, RBRACE,
    RBRACKET,
};
use crate::text::{ascii_bytes, push_ascii, push_decimal};
use vstd::utf8::is_ascii_chars;
use vstd::prelude::*;

verus! {

/// The members of one candidate object, each present or absent.
#[derive(Debug, PartialEq, Eq)]
pub struct CandidateFields {
    pub candidate: Option<Vec<u8>>,
    pub sdp_mid: Option<Vec<u8>>,
    pub sdp_m_line_index: Option<u16>,
}

/// The members of the envelope object, each present or absent.
#[derive(Debug, PartialEq, Eq)]
pub struct EnvelopeFields {
    pub ice_candidates: Option<Vec<CandidateFields>>,
    pub offer: Option<Vec<u8>>,
}

pub open spec fn bytes_view(o: Option<Vec<u8>>) -> Option<Seq<u8>> {
    match o {
        Some(v) => Some(v@),
        None => None,
    }
}

impl View for CandidateFields {
    type V = CandidateFieldsView;

    open spec fn view(&self) -> CandidateFieldsView {
        CandidateFieldsView {
            candidate: bytes_view(self.candidate),
            sdp_mid: bytes_view(self.sdp_mid),
            sdp_m_line_index: self.sdp_m_line_index,
        }
    }
}

pub open spec fn candidates_view(v: Seq<CandidateFields>) -> Seq<CandidateFieldsView> {
    v.map_values(|c: CandidateFields| c@)
}

impl View for EnvelopeFields {
    type V = EnvelopeFieldsView;

    open spec fn view(&self) -> EnvelopeFieldsView {
        EnvelopeFieldsView {
            ice_candidates: match self.ice_candidates {
                Some(v) => Some(candidates_view(v@)),
                None => None,
            },
            offer: bytes_view(self.offer),
        }
    }
}

fn hex_digit_of(v: u8) -> (d: u8)
    requires
        v < 16,
    ensures
        d == hex_digit(v as int),
{
    if v < 10 {
        48 + v
    } else {
        87 + v
    }
}

fn push_escaped_byte(out: &mut Vec<u8>, b: u8)
    ensures
        final(out)@ == old(out)@ + escape_byte(b),
{
    if b == QUOTE || b == BACKSLASH {
        out.push(BACKSLASH);
        out.push(b);
    } else if b == 0x08 {
        out.push(BACKSLASH);
        out.push(0x62);
    } else if b == 0x0c {
        out.push(BACKSLASH);
        out.push(0x66);
    } else if b == 0x0a {
        out.push(BACKSLASH);
        out.push(0x6e);
    } else if b == 0x0d {
        out.push(BACKSLASH);
        out.push(0x72);
    } else if b == 0x09 {
        out.push(BACKSLASH);
        out.push(0x74);
    } else if b < 0x20 {
        out.push(BACKSLASH);
        out.push(0x75);
        out.push(0x30);
        out.push(0x30);
        out.push(hex_digit_of(b / 16));
        out.push(hex_digit_of(b % 16));
    } else {
        out.push(b);
    }
    assert(out@ =~= old(out)@ + escape_byte(b));
}

/// Appends `s` as a JSON string.
pub fn push_quoted(out: &mut Vec<u8>, s: &[u8])
    ensures
        final(out)@ == old(out)@ + quoted(s@),
{
    out.push(QUOTE);
    let mut i: usize = 0;
    assert(s@.skip(0) =~= s@);
    assert(out@ + escaped(s@.skip(0)) + seq![QUOTE] =~= old(out)@ + quoted(s@));
    while i < s.len()
        invariant
            0 <= i <= s@.len(),
            out@ + escaped(s@.skip(i as int)) + seq![QUOTE] == old(out)@ + quoted(s@),
        decreases s@.len() - i,
    {
        let ghost before = out@;
        push_escaped_byte(out, s[i]);
        proof {
            let rest = s@.skip(i as int);
            assert(rest.skip(1) =~= s@.skip(i + 1));
            assert(escaped(rest) == escape_byte(rest[0]) + escaped(rest.skip(1)));
            assert(out@ + escaped(s@.skip(i + 1)) + seq![QUOTE] =~= before + escaped(rest) + seq![
                QUOTE,
            ]);
        }
        i = i + 1;
    }
    out.push(QUOTE);
    assert(out@ =~= old(out)@ + quoted(s@)) by {
        assert(escaped(s@.skip(i as int)) =~= Seq::<u8>::empty());
    }
}

fn push_separator(out: &mut Vec<u8>, first: bool)
    ensures
        final(out)@ == old(out)@ + separator(first),
{
    if !first {
        out.push(COMMA);
    }
    assert(out@ =~= old(out)@ + separator(first));
}

fn push_text_member(out: &mut Vec<u8>, first: bool, key: &str, value: &Option<Vec<u8>>)
    requires
        is_ascii_chars(key@),
    ensures
        final(out)@ == old(out)@ + text_member(first, ascii_bytes(key@), bytes_view(*value)),
{
    match value {
        Some(v) => {
            push_separator(out, first);
            push_ascii(out, key);
            push_quoted(out, v.as_slice());
            assert(out@ =~= old(out)@ + text_member(
                first,
                ascii_bytes(key@),
                bytes_view(*value),
            ));
        },
        None => {
            assert(out@ =~= old(out)@ + text_member(
                first,
                ascii_bytes(key@),
                bytes_view(*value),
            ));
        },
    }
}

fn push_index_member(out: &mut Vec<u8>, first: bool, key: &str, value: Option<u16>)
    requires
        is_ascii_chars(key@),
    ensures
        final(out)@ == old(out)@ + index_member(first, ascii_bytes(key@), value),
{
    match value {
        Some(n) => {
            push_separator(out, first);
            push_ascii(out, key);
            push_decimal(out, n as u64);
            assert(out@ =~= old(out)@ + index_member(first, ascii_bytes(key@), value));
        },
        None => {
            assert(out@ =~= old(out)@ + index_member(first, ascii_bytes(key@), value));
        },
    }
}

/// Appends one candidate object.
pub fn push_candidate(out: &mut Vec<u8>, c: &CandidateFields)
    ensures
        final(out)@ == old(out)@ + candidate_text(c@),
{
    proof {
        reveal_strlit("\"candidate\":");
        reveal_strlit("\"sdp_mid\":");
        reveal_strlit("\"sdp_m_line_index\":");
    }
    out.push(LBRACE);
    push_text_member(out, true, "\"candidate\":", &c.candidate);
    push_text_member(out, c.candidate.is_none(), "\"sdp_mid\":", &c.sdp_mid);
    push_index_member(
        out,
        c.candidate.is_none() && c.sdp_mid.is_none(),
        "\"sdp_m_line_index\":",
        c.sdp_m_line_index,
    );
    out.push(RBRACE);
    assert(out@ =~= old(out)@ + candidate_text(c@));
}

/// Appends the array of candidate objects.
pub fn push_candidates(out: &mut Vec<u8>, cs: &Vec<CandidateFields>)
    ensures
        final(out)@ == old(out)@ + candidates_text(candidates_view(cs@)),
{
    let ghost views = candidates_view(cs@);
    out.push(LBRACKET);
    if cs.len() == 0 {
        out.push(RBRACKET);
        assert(out@ =~= old(out)@ + candidates_text(views));
        return ;
    }
    push_candidate(out, &cs[0]);
    let mut i: usize = 1;
    assert(out@ + candidates_tail_text(views.skip(1)) =~= old(out)@ + candidates_text(views));
    while i < cs.len()
        invariant
            1 <= i <= cs@.len(),
            views == candidates_view(cs@),
            out@ + candidates_tail_text(views.skip(i as int)) == old(out)@ + candidates_text(views),
        decreases cs@.len() - i,
    {
        let ghost before = out@;
        out.push(COMMA);
        push_candidate(out, &cs[i]);
        proof {
            let rest = views.skip(i as int);
            assert(rest.skip(1) =~= views.skip(i + 1));
            assert(rest[0] == cs@[i as int]@);
            assert(out@ + candidates_tail_text(views.skip(i + 1)) =~= before + candidates_tail_text(
                rest,
            ));
        }
        i = i + 1;
    }
    out.push(RBRACKET);
    assert(out@ =~= old(out)@ + candidates_text(views)) by {
        assert(views.skip(i as int) =~= Seq::<CandidateFieldsView>::empty());
    }
}

/// Appends the whole envelope.
pub fn push_envelope(out: &mut Vec<u8>, e: &EnvelopeFields)
    ensures
        final(out)@ == old(out)@ + envelope_text(e@),
{
    proof {
        reveal_strlit("\"ice_candidates\":");
        reveal_strlit("\"offer\":");
    }
    out.push(LBRACE);
    match &e.ice_candidates {
        Some(cs) => {
            push_ascii(out, "\"ice_candidates\":");
            push_candidates(out, cs);
        },
        None => {},
    }
    assert(out@ =~= old(out)@ + seq![LBRACE] + array_member(
        true,
        key_ice_candidates(),
        e@.ice_candidates,
    ));
    push_text_member(out, e.ice_candidates.is_none(), "\"offer\":", &e.offer);
    out.push(RBRACE);
    assert(out@ =~= old(out)@ + envelope_text(e@));
}

/// The bytes of the envelope.
pub fn write_envelope(e: &EnvelopeFields) -> (out: Vec<u8>)
    ensures
        out@ == envelope_text(e@),
{
    let mut out: Vec<u8> = Vec::new();
    push_envelope(&mut out, e);
    assert(out@ =~= envelope_text(e@));
    out
}

} // verus!

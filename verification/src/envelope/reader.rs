//! Reading an envelope.

use crate::envelope::grammar::{
    body_at, candidate_at, candidates_at, candidates_tail_at, digit_at, digit_run,
    digits_value, envelope_of, hex_value, index_at, index_member_at, lit_at, separator,
    envelope_text, short_escape, string_at, text_member_at, unescape_letter, unit_at,
    CandidateFieldsView, EnvelopeFieldsView, BACKSLASH, COMMA, LBRACE, LBRACKET, QUOTE, RBRACE,
    RBRACKET,
};
use crate::envelope::exact::lemma_envelope_exact;
use crate::envelope::writer::{bytes_view, candidates_view, CandidateFields, EnvelopeFields};
use crate::text::ascii_bytes;
use vstd::prelude::*;
use vstd::string::*;
use vstd::utf8::is_ascii_chars;

verus! {

/// Where the text behind `separator(first)` and `key` starts, if the two
/// stand at `pos`.
fn skip_key(t: &[u8], pos: usize, first: bool, key: &str) -> (r: Option<usize>)
    requires
        is_ascii_chars(key@),
        pos <= t@.len(),
    ensures
        r is Some <==> lit_at(t@, pos as int, separator(first) + ascii_bytes(key@)),
        r matches Some(end) ==> end == pos + (separator(first) + ascii_bytes(key@)).len(),
{
    broadcast use is_ascii_spec_bytes;

    assert(is_ascii(key));
    let kb = key.as_bytes();
    assert(kb@ =~= ascii_bytes(key@));
    let ghost lit = separator(first) + kb@;
    let mut p = pos;
    if !first {
        if p >= t.len() || t[p] != COMMA {
            assert(!lit_at(t@, pos as int, lit)) by {
                if lit_at(t@, pos as int, lit) {
                    assert(t@.subrange(pos as int, pos + lit.len())[0] == lit[0]);
                }
            }
            return None;
        }
        p = p + 1;
    }
    if kb.len() > t.len() - p {
        return None;
    }
    let mut i: usize = 0;
    while i < kb.len()
        invariant
            0 <= i <= kb@.len(),
            p + kb@.len() <= t@.len() <= usize::MAX,
            p == pos + separator(first).len(),
            lit == separator(first) + kb@,
            kb@ == ascii_bytes(key@),
            !first ==> t@[pos as int] == COMMA,
            forall|j: int| 0 <= j < i ==> t@[p + j] == kb@[j],
        decreases kb@.len() - i,
    {
        if t[p + i] != kb[i] {
            assert(!lit_at(t@, pos as int, lit)) by {
                if lit_at(t@, pos as int, lit) {
                    let k = separator(first).len() + i;
                    assert(t@.subrange(pos as int, pos + lit.len())[k] == lit[k]);
                }
            }
            return None;
        }
        i = i + 1;
    }
    assert(t@.subrange(pos as int, pos + lit.len()) =~= lit);
    Some(p + kb.len())
}

fn hex_value_of(b: u8) -> (r: Option<u8>)
    ensures
        match r {
            Some(v) => hex_value(b) == Some(v as int) && v < 16,
            None => hex_value(b) is None,
        },
{
    if 48 <= b && b <= 57 {
        Some(b - 48)
    } else if 97 <= b && b <= 102 {
        Some(b - 87)
    } else {
        None
    }
}

fn unescape_letter_of(letter: u8) -> (r: Option<u8>)
    ensures
        r == unescape_letter(letter),
{
    if letter == QUOTE {
        Some(QUOTE)
    } else if letter == BACKSLASH {
        Some(BACKSLASH)
    } else if letter == 0x62 {
        Some(0x08)
    } else if letter == 0x66 {
        Some(0x0c)
    } else if letter == 0x6e {
        Some(0x0a)
    } else if letter == 0x72 {
        Some(0x0d)
    } else if letter == 0x74 {
        Some(0x09)
    } else {
        None
    }
}

fn has_short_escape(b: u8) -> (r: bool)
    ensures
        r == short_escape(b) is Some,
{
    b == QUOTE || b == BACKSLASH || b == 0x08 || b == 0x0c || b == 0x0a || b == 0x0d || b == 0x09
}

fn read_unit(t: &[u8], pos: usize) -> (r: Option<(u8, usize)>)
    ensures
        match r {
            Some((b, next)) => unit_at(t@, pos as int) == Some((b, next as int)) && pos < next
                <= t@.len(),
            None => unit_at(t@, pos as int) is None,
        },
{
    if pos >= t.len() {
        return None;
    }
    let b = t[pos];
    if b == BACKSLASH {
        if t.len() - pos < 2 {
            return None;
        }
        let letter = t[pos + 1];
        if letter == 0x75 {
            if t.len() - pos < 6 {
                return None;
            }
            if t[pos + 2] != 0x30 || t[pos + 3] != 0x30 {
                return None;
            }
            let high = t[pos + 4];
            if high != 0x30 && high != 0x31 {
                return None;
            }
            match hex_value_of(t[pos + 5]) {
                None => None,
                Some(low) => {
                    let v: u8 = (high - 0x30) * 16 + low;
                    if has_short_escape(v) {
                        None
                    } else {
                        Some((v, pos + 6))
                    }
                },
            }
        } else {
            match unescape_letter_of(letter) {
                Some(v) => Some((v, pos + 2)),
                None => None,
            }
        }
    } else if b < 0x20 || b == QUOTE {
        None
    } else {
        Some((b, pos + 1))
    }
}

/// The JSON string that starts at `pos`.
pub fn read_string(t: &[u8], pos: usize) -> (r: Option<(Vec<u8>, usize)>)
    ensures
        match r {
            Some((v, end)) => string_at(t@, pos as int) == Some((v@, end as int)) && pos < end
                <= t@.len(),
            None => string_at(t@, pos as int) is None,
        },
{
    if pos >= t.len() || t[pos] != QUOTE {
        return None;
    }
    let start = pos + 1;
    let mut cur = start;
    let mut out: Vec<u8> = Vec::new();
    assert(body_at(t@, start as int) == match body_at(t@, cur as int) {
        Some((rest, end)) => Some((out@ + rest, end)),
        None => None,
    }) by {
        match body_at(t@, cur as int) {
            Some((rest, end)) => {
                assert(out@ + rest =~= rest);
            },
            None => {},
        }
    }
    loop
        invariant
            start == pos + 1,
            start <= cur <= t@.len() <= usize::MAX,
            t@[pos as int] == QUOTE,
            body_at(t@, start as int) == match body_at(t@, cur as int) {
                Some((rest, end)) => Some((out@ + rest, end)),
                None => None,
            },
        decreases t@.len() - cur,
    {
        if cur >= t.len() {
            return None;
        }
        if t[cur] == QUOTE {
            assert(out@ + Seq::<u8>::empty() =~= out@);
            return Some((out, cur + 1));
        }
        match read_unit(t, cur) {
            None => {
                return None;
            },
            Some((b, next)) => {
                proof {
                    match body_at(t@, next as int) {
                        Some((rest, end)) => {
                            assert(out@.push(b) + rest =~= out@ + (seq![b] + rest));
                        },
                        None => {},
                    }
                }
                out.push(b);
                cur = next;
            },
        }
    }
}

/// The line index that starts at `pos`.
pub fn read_index(t: &[u8], pos: usize) -> (r: Option<(u16, usize)>)
    ensures
        match r {
            Some((v, end)) => index_at(t@, pos as int) == Some((v, end as int)) && pos < end
                <= t@.len(),
            None => index_at(t@, pos as int) is None,
        },
{
    if pos >= t.len() {
        return None;
    }
    let room = t.len() - pos;
    let mut k: usize = 0;
    let mut value: u32 = 0;
    while k < 6 && k < room && 48 <= t[pos + k] && t[pos + k] <= 57
        invariant
            0 <= k <= 6,
            pos < t@.len() <= usize::MAX,
            room == t@.len() - pos,
            k <= room,
            forall|j: int| pos <= j < pos + k ==> digit_at(t@, j),
            value == digits_value(t@, pos as int, k as int),
            value < 1_000_000,
            k <= 5 ==> value < 100_000,
            k <= 4 ==> value < 10_000,
            k <= 3 ==> value < 1_000,
            k <= 2 ==> value < 100,
            k <= 1 ==> value < 10,
            k == 0 ==> value == 0,
        decreases 6 - k,
    {
        value = value * 10 + (t[pos + k] - 48) as u32;
        k = k + 1;
    }
    assert(k < 6 ==> !digit_at(t@, pos + k));
    assert(digit_run(t@, pos as int) == k);
    if k == 0 || k > 5 {
        None
    } else if k > 1 && t[pos] == 48 {
        None
    } else if value > 65535 {
        None
    } else {
        Some((value as u16, pos + k))
    }
}

fn read_text_member(t: &[u8], pos: usize, first: bool, key: &str) -> (r: Option<
    (Option<Vec<u8>>, usize),
>)
    requires
        is_ascii_chars(key@),
        pos <= t@.len(),
    ensures
        match r {
            Some((v, end)) => text_member_at(t@, pos as int, first, ascii_bytes(key@)) == Some(
                (bytes_view(v), end as int),
            ) && pos <= end <= t@.len(),
            None => text_member_at(t@, pos as int, first, ascii_bytes(key@)) is None,
        },
{
    match skip_key(t, pos, first, key) {
        None => Some((None, pos)),
        Some(p) => match read_string(t, p) {
            None => None,
            Some((v, end)) => Some((Some(v), end)),
        },
    }
}

fn read_index_member(t: &[u8], pos: usize, first: bool, key: &str) -> (r: Option<
    (Option<u16>, usize),
>)
    requires
        is_ascii_chars(key@),
        pos <= t@.len(),
    ensures
        match r {
            Some((v, end)) => index_member_at(t@, pos as int, first, ascii_bytes(key@)) == Some(
                (v, end as int),
            ) && pos <= end <= t@.len(),
            None => index_member_at(t@, pos as int, first, ascii_bytes(key@)) is None,
        },
{
    match skip_key(t, pos, first, key) {
        None => Some((None, pos)),
        Some(p) => match read_index(t, p) {
            None => None,
            Some((v, end)) => Some((Some(v), end)),
        },
    }
}

/// The candidate object that starts at `pos`.
pub fn read_candidate(t: &[u8], pos: usize) -> (r: Option<(CandidateFields, usize)>)
    ensures
        match r {
            Some((c, end)) => candidate_at(t@, pos as int) == Some((c@, end as int)) && pos < end
                <= t@.len(),
            None => candidate_at(t@, pos as int) is None,
        },
{
    proof {
        reveal_strlit("\"candidate\":");
        reveal_strlit("\"sdp_mid\":");
        reveal_strlit("\"sdp_m_line_index\":");
    }
    if pos >= t.len() || t[pos] != LBRACE {
        return None;
    }
    let (candidate, p1) = match read_text_member(t, pos + 1, true, "\"candidate\":") {
        None => {
            return None;
        },
        Some(found) => found,
    };
    let (sdp_mid, p2) = match read_text_member(t, p1, candidate.is_none(), "\"sdp_mid\":") {
        None => {
            return None;
        },
        Some(found) => found,
    };
    let (sdp_m_line_index, p3) = match read_index_member(
        t,
        p2,
        candidate.is_none() && sdp_mid.is_none(),
        "\"sdp_m_line_index\":",
    ) {
        None => {
            return None;
        },
        Some(found) => found,
    };
    if p3 >= t.len() || t[p3] != RBRACE {
        return None;
    }
    Some((CandidateFields { candidate, sdp_mid, sdp_m_line_index }, p3 + 1))
}

/// The array of candidate objects that starts at `pos`.
pub fn read_candidates(t: &[u8], pos: usize) -> (r: Option<(Vec<CandidateFields>, usize)>)
    ensures
        match r {
            Some((cs, end)) => candidates_at(t@, pos as int) == Some(
                (candidates_view(cs@), end as int),
            ) && pos < end <= t@.len(),
            None => candidates_at(t@, pos as int) is None,
        },
{
    if pos >= t.len() || t[pos] != LBRACKET {
        return None;
    }
    let mut out: Vec<CandidateFields> = Vec::new();
    if t.len() - pos >= 2 && t[pos + 1] == RBRACKET {
        assert(candidates_view(out@) =~= Seq::<CandidateFieldsView>::empty());
        return Some((out, pos + 2));
    }
    let (head, after_head) = match read_candidate(t, pos + 1) {
        None => {
            return None;
        },
        Some(found) => found,
    };
    out.push(head);
    let mut cur = after_head;
    assert(candidates_at(t@, pos as int) == match candidates_tail_at(t@, cur as int) {
        Some((rest, end)) => Some((candidates_view(out@) + rest, end)),
        None => None,
    }) by {
        assert(candidates_view(out@) =~= seq![head@]);
    }
    loop
        invariant
            pos < cur <= t@.len() <= usize::MAX,
            t@[pos as int] == LBRACKET,
            candidates_at(t@, pos as int) == match candidates_tail_at(t@, cur as int) {
                Some((rest, end)) => Some((candidates_view(out@) + rest, end)),
                None => None,
            },
        decreases t@.len() - cur,
    {
        if cur >= t.len() {
            return None;
        }
        if t[cur] == RBRACKET {
            assert(candidates_view(out@) + Seq::<CandidateFieldsView>::empty() =~= candidates_view(
                out@,
            ));
            return Some((out, cur + 1));
        }
        if t[cur] != COMMA {
            return None;
        }
        match read_candidate(t, cur + 1) {
            None => {
                return None;
            },
            Some((c, next)) => {
                let ghost before = candidates_view(out@);
                out.push(c);
                proof {
                    assert(candidates_view(out@) =~= before.push(c@));
                    match candidates_tail_at(t@, next as int) {
                        Some((rest, end)) => {
                            assert(before.push(c@) + rest =~= before + (seq![c@] + rest));
                        },
                        None => {},
                    }
                }
                cur = next;
            },
        }
    }
}

/// The envelope that `t` is, if it is one from its first byte to its last:
/// the one envelope that is written as `t`, or nothing where no envelope is
/// written so.
pub fn read_envelope(t: &[u8]) -> (r: Option<EnvelopeFields>)
    ensures
        match r {
            Some(e) => envelope_of(t@) == Some(e@) && envelope_text(e@) == t@,
            None => envelope_of(t@) is None && forall|e: EnvelopeFieldsView|
                #[trigger] envelope_text(e) != t@,
        },
{
    proof {
        reveal_strlit("\"ice_candidates\":");
        reveal_strlit("\"offer\":");
        assert forall|e: EnvelopeFieldsView| envelope_of(t@) == Some(e) <==> t@
            == #[trigger] envelope_text(e) by {
            lemma_envelope_exact(t@, e);
        }
    }
    if t.len() == 0 || t[0] != LBRACE {
        return None;
    }
    let (ice_candidates, p1) = match skip_key(t, 1, true, "\"ice_candidates\":") {
        None => (None, 1),
        Some(p) => match read_candidates(t, p) {
            None => {
                return None;
            },
            Some((cs, end)) => (Some(cs), end),
        },
    };
    let (offer, p2) = match read_text_member(t, p1, ice_candidates.is_none(), "\"offer\":") {
        None => {
            return None;
        },
        Some(found) => found,
    };
    if p2 >= t.len() || p2 + 1 != t.len() || t[p2] != RBRACE {
        return None;
    }
    Some(EnvelopeFields { ice_candidates, offer })
}

} // verus!

//! What an envelope looks like as bytes, and what a byte string means as an
//! envelope.

use crate::text::{ascii_bytes, decimal};
use vstd::prelude::*;

verus! {

pub const QUOTE: u8 = 0x22;

pub const BACKSLASH: u8 = 0x5c;

pub const COMMA: u8 = 0x2c;

pub const LBRACE: u8 = 0x7b;

pub const RBRACE: u8 = 0x7d;

pub const LBRACKET: u8 = 0x5b;

pub const RBRACKET: u8 = 0x5d;

/// The members of one candidate object, each present or absent.
pub struct CandidateFieldsView {
    pub candidate: Option<Seq<u8>>,
    pub sdp_mid: Option<Seq<u8>>,
    pub sdp_m_line_index: Option<u16>,
}

/// The members of the envelope object, each present or absent.
pub struct EnvelopeFieldsView {
    pub ice_candidates: Option<Seq<CandidateFieldsView>>,
    pub offer: Option<Seq<u8>>,
}

pub open spec fn key_candidate() -> Seq<u8> {
    ascii_bytes("\"candidate\":"@)
}

pub open spec fn key_sdp_mid() -> Seq<u8> {
    ascii_bytes("\"sdp_mid\":"@)
}

pub open spec fn key_sdp_m_line_index() -> Seq<u8> {
    ascii_bytes("\"sdp_m_line_index\":"@)
}

pub open spec fn key_ice_candidates() -> Seq<u8> {
    ascii_bytes("\"ice_candidates\":"@)
}

pub open spec fn key_offer() -> Seq<u8> {
    ascii_bytes("\"offer\":"@)
}

// ---------------------------------------------------------------- writing

/// The lower-case hexadecimal digit of a value below 16.
pub open spec fn hex_digit(v: int) -> u8 {
    if v < 10 {
        (48 + v) as u8
    } else {
        (87 + v) as u8
    }
}

/// The letter that follows the backslash, for the bytes that have a
/// two-byte escape.
pub open spec fn short_escape(b: u8) -> Option<u8> {
    if b == QUOTE {
        Some(QUOTE)
    } else if b == BACKSLASH {
        Some(BACKSLASH)
    } else if b == 0x08 {
        Some(0x62u8)
    } else if b == 0x0c {
        Some(0x66u8)
    } else if b == 0x0a {
        Some(0x6eu8)
    } else if b == 0x0d {
        Some(0x72u8)
    } else if b == 0x09 {
        Some(0x74u8)
    } else {
        None
    }
}

/// One byte of a text as it stands between the quotes.
pub open spec fn escape_byte(b: u8) -> Seq<u8> {
    match short_escape(b) {
        Some(letter) => seq![BACKSLASH, letter],
        None => if b < 0x20 {
            seq![BACKSLASH, 0x75u8, 0x30u8, 0x30u8, hex_digit(b as int / 16), hex_digit(b as int % 16)]
        } else {
            seq![b]
        },
    }
}

/// A text as it stands between the quotes.
pub open spec fn escaped(s: Seq<u8>) -> Seq<u8>
    decreases s.len(),
{
    if s.len() == 0 {
        Seq::empty()
    } else {
        escape_byte(s[0]) + escaped(s.skip(1))
    }
}

/// A text as a JSON string.
pub open spec fn quoted(s: Seq<u8>) -> Seq<u8> {
    seq![QUOTE] + escaped(s) + seq![QUOTE]
}

/// What stands before a member's key: nothing before the first member of an
/// object, a comma before the others.
pub open spec fn separator(first: bool) -> Seq<u8> {
    if first {
        Seq::empty()
    } else {
        seq![COMMA]
    }
}

pub open spec fn text_member(first: bool, key: Seq<u8>, value: Option<Seq<u8>>) -> Seq<u8> {
    match value {
        Some(v) => separator(first) + key + quoted(v),
        None => Seq::empty(),
    }
}

pub open spec fn index_member(first: bool, key: Seq<u8>, value: Option<u16>) -> Seq<u8> {
    match value {
        Some(n) => separator(first) + key + decimal(n as nat),
        None => Seq::empty(),
    }
}

/// One candidate object.
pub open spec fn candidate_text(c: CandidateFieldsView) -> Seq<u8> {
    seq![LBRACE] + text_member(true, key_candidate(), c.candidate) + text_member(
        c.candidate is None,
        key_sdp_mid(),
        c.sdp_mid,
    ) + index_member(
        c.candidate is None && c.sdp_mid is None,
        key_sdp_m_line_index(),
        c.sdp_m_line_index,
    ) + seq![RBRACE]
}

/// The candidates after the first, each behind a comma, and the closing
/// bracket.
pub open spec fn candidates_tail_text(cs: Seq<CandidateFieldsView>) -> Seq<u8>
    decreases cs.len(),
{
    if cs.len() == 0 {
        seq![RBRACKET]
    } else {
        seq![COMMA] + candidate_text(cs[0]) + candidates_tail_text(cs.skip(1))
    }
}

/// The array of candidate objects.
pub open spec fn candidates_text(cs: Seq<CandidateFieldsView>) -> Seq<u8> {
    if cs.len() == 0 {
        seq![LBRACKET, RBRACKET]
    } else {
        seq![LBRACKET] + candidate_text(cs[0]) + candidates_tail_text(cs.skip(1))
    }
}

pub open spec fn array_member(first: bool, key: Seq<u8>, value: Option<Seq<CandidateFieldsView>>) -> Seq<
    u8,
> {
    match value {
        Some(cs) => separator(first) + key + candidates_text(cs),
        None => Seq::empty(),
    }
}

/// The whole envelope.
pub open spec fn envelope_text(e: EnvelopeFieldsView) -> Seq<u8> {
    seq![LBRACE] + array_member(true, key_ice_candidates(), e.ice_candidates) + text_member(
        e.ice_candidates is None,
        key_offer(),
        e.offer,
    ) + seq![RBRACE]
}

// ---------------------------------------------------------------- reading

/// `lit` stands in `t` at `pos`.
pub open spec fn lit_at(t: Seq<u8>, pos: int, lit: Seq<u8>) -> bool {
    0 <= pos && pos + lit.len() <= t.len() && t.subrange(pos, pos + lit.len()) == lit
}

/// The value of a lower-case hexadecimal digit.
pub open spec fn hex_value(b: u8) -> Option<int> {
    if 48 <= b <= 57 {
        Some(b as int - 48)
    } else if 97 <= b <= 102 {
        Some(b as int - 87)
    } else {
        None
    }
}

/// The byte that a letter behind a backslash stands for.
pub open spec fn unescape_letter(letter: u8) -> Option<u8> {
    if letter == QUOTE {
        Some(QUOTE)
    } else if letter == BACKSLASH {
        Some(BACKSLASH)
    } else if letter == 0x62 {
        Some(0x08u8)
    } else if letter == 0x66 {
        Some(0x0cu8)
    } else if letter == 0x6e {
        Some(0x0au8)
    } else if letter == 0x72 {
        Some(0x0du8)
    } else if letter == 0x74 {
        Some(0x09u8)
    } else {
        None
    }
}

/// The byte written at `pos` between the quotes, and where the next one
/// starts. Only the form that the writer chooses for a byte is accepted.
pub open spec fn unit_at(t: Seq<u8>, pos: int) -> Option<(u8, int)> {
    if !(0 <= pos < t.len()) {
        None
    } else if t[pos] == BACKSLASH {
        if pos + 1 >= t.len() {
            None
        } else if t[pos + 1] == 0x75 {
            if pos + 6 <= t.len() && t[pos + 2] == 0x30 && t[pos + 3] == 0x30 && (t[pos + 4] == 0x30
                || t[pos + 4] == 0x31) && hex_value(t[pos + 5]) is Some {
                let v = ((t[pos + 4] as int - 0x30) * 16 + hex_value(t[pos + 5])->0) as u8;
                if short_escape(v) is None {
                    Some((v, pos + 6))
                } else {
                    None
                }
            } else {
                None
            }
        } else {
            match unescape_letter(t[pos + 1]) {
                Some(b) => Some((b, pos + 2)),
                None => None,
            }
        }
    } else if t[pos] < 0x20 || t[pos] == QUOTE {
        None
    } else {
        Some((t[pos], pos + 1))
    }
}

/// The text from `pos` up to the closing quote, and the position behind
/// that quote.
pub open spec fn body_at(t: Seq<u8>, pos: int) -> Option<(Seq<u8>, int)>
    decreases t.len() - pos,
{
    if !(0 <= pos < t.len()) {
        None
    } else if t[pos] == QUOTE {
        Some((Seq::empty(), pos + 1))
    } else {
        match unit_at(t, pos) {
            None => None,
            Some((b, next)) => match body_at(t, next) {
                None => None,
                Some((rest, end)) => Some((seq![b] + rest, end)),
            },
        }
    }
}

/// The JSON string that starts at `pos`.
pub open spec fn string_at(t: Seq<u8>, pos: int) -> Option<(Seq<u8>, int)> {
    if 0 <= pos < t.len() && t[pos] == QUOTE {
        body_at(t, pos + 1)
    } else {
        None
    }
}

pub open spec fn is_digit(b: u8) -> bool {
    48 <= b <= 57
}

pub open spec fn digit_at(t: Seq<u8>, i: int) -> bool {
    0 <= i < t.len() && is_digit(t[i])
}

/// How many digits stand at `pos`, counted up to six.
pub open spec fn digit_run(t: Seq<u8>, pos: int) -> int {
    if !digit_at(t, pos) {
        0
    } else if !digit_at(t, pos + 1) {
        1
    } else if !digit_at(t, pos + 2) {
        2
    } else if !digit_at(t, pos + 3) {
        3
    } else if !digit_at(t, pos + 4) {
        4
    } else if !digit_at(t, pos + 5) {
        5
    } else {
        6
    }
}

/// The number that the `k` digits at `pos` spell.
pub open spec fn digits_value(t: Seq<u8>, pos: int, k: int) -> int
    decreases k,
{
    if k <= 0 {
        0
    } else {
        digits_value(t, pos, k - 1) * 10 + (t[pos + k - 1] as int - 48)
    }
}

/// The line index that starts at `pos`: one to five digits, no leading
/// zero, at most 65535.
pub open spec fn index_at(t: Seq<u8>, pos: int) -> Option<(u16, int)> {
    let k = digit_run(t, pos);
    if k == 0 || k > 5 {
        None
    } else if k > 1 && t[pos] == 48 {
        None
    } else if digits_value(t, pos, k) > 65535 {
        None
    } else {
        Some((digits_value(t, pos, k) as u16, pos + k))
    }
}

/// A member with a text value: absent where its key does not stand at `pos`.
pub open spec fn text_member_at(t: Seq<u8>, pos: int, first: bool, key: Seq<u8>) -> Option<
    (Option<Seq<u8>>, int),
> {
    let lit = separator(first) + key;
    if lit_at(t, pos, lit) {
        match string_at(t, pos + lit.len()) {
            Some((v, end)) => Some((Some(v), end)),
            None => None,
        }
    } else {
        Some((None, pos))
    }
}

/// A member with a number value: absent where its key does not stand at `pos`.
pub open spec fn index_member_at(t: Seq<u8>, pos: int, first: bool, key: Seq<u8>) -> Option<
    (Option<u16>, int),
> {
    let lit = separator(first) + key;
    if lit_at(t, pos, lit) {
        match index_at(t, pos + lit.len()) {
            Some((v, end)) => Some((Some(v), end)),
            None => None,
        }
    } else {
        Some((None, pos))
    }
}

/// The candidate object that starts at `pos`.
pub open spec fn candidate_at(t: Seq<u8>, pos: int) -> Option<(CandidateFieldsView, int)> {
    if !(0 <= pos < t.len() && t[pos] == LBRACE) {
        None
    } else {
        match text_member_at(t, pos + 1, true, key_candidate()) {
            None => None,
            Some((candidate, p1)) => match text_member_at(t, p1, candidate is None, key_sdp_mid()) {
                None => None,
                Some((sdp_mid, p2)) => match index_member_at(
                    t,
                    p2,
                    candidate is None && sdp_mid is None,
                    key_sdp_m_line_index(),
                ) {
                    None => None,
                    Some((sdp_m_line_index, p3)) => if 0 <= p3 < t.len() && t[p3] == RBRACE {
                        Some((CandidateFieldsView { candidate, sdp_mid, sdp_m_line_index }, p3 + 1))
                    } else {
                        None
                    },
                },
            },
        }
    }
}

/// The candidates after the first, up to the closing bracket.
pub open spec fn candidates_tail_at(t: Seq<u8>, pos: int) -> Option<(Seq<CandidateFieldsView>, int)>
    decreases t.len() - pos,
{
    if !(0 <= pos < t.len()) {
        None
    } else if t[pos] == RBRACKET {
        Some((Seq::empty(), pos + 1))
    } else if t[pos] == COMMA {
        match candidate_at(t, pos + 1) {
            None => None,
            Some((c, next)) => if next <= pos {
                None
            } else {
                match candidates_tail_at(t, next) {
                    None => None,
                    Some((rest, end)) => Some((seq![c] + rest, end)),
                }
            },
        }
    } else {
        None
    }
}

/// The array of candidate objects that starts at `pos`.
pub open spec fn candidates_at(t: Seq<u8>, pos: int) -> Option<(Seq<CandidateFieldsView>, int)> {
    if !(0 <= pos < t.len() && t[pos] == LBRACKET) {
        None
    } else if pos + 1 < t.len() && t[pos + 1] == RBRACKET {
        Some((Seq::empty(), pos + 2))
    } else {
        match candidate_at(t, pos + 1) {
            None => None,
            Some((c, next)) => match candidates_tail_at(t, next) {
                None => None,
                Some((rest, end)) => Some((seq![c] + rest, end)),
            },
        }
    }
}

/// A member with an array value: absent where its key does not stand at `pos`.
pub open spec fn array_member_at(t: Seq<u8>, pos: int, first: bool, key: Seq<u8>) -> Option<
    (Option<Seq<CandidateFieldsView>>, int),
> {
    let lit = separator(first) + key;
    if lit_at(t, pos, lit) {
        match candidates_at(t, pos + lit.len()) {
            Some((v, end)) => Some((Some(v), end)),
            None => None,
        }
    } else {
        Some((None, pos))
    }
}

/// The envelope that `t` is, if it is one from its first byte to its last.
pub open spec fn envelope_of(t: Seq<u8>) -> Option<EnvelopeFieldsView> {
    if !(t.len() > 0 && t[0] == LBRACE) {
        None
    } else {
        match array_member_at(t, 1, true, key_ice_candidates()) {
            None => None,
            Some((ice_candidates, p1)) => match text_member_at(
                t,
                p1,
                ice_candidates is None,
                key_offer(),
            ) {
                None => None,
                Some((offer, p2)) => if 0 <= p2 && p2 + 1 == t.len() && t[p2] == RBRACE {
                    Some(EnvelopeFieldsView { ice_candidates, offer })
                } else {
                    None
                },
            },
        }
    }
}

} // verus!

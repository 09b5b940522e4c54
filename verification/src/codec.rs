//! The connection code: one side's session description and candidates as a
//! single text that can be pasted or shown as a QR code.
//!
//! The text is the base64 form of the envelope of [`crate::envelope`].

use crate::b64::{
    all_standard, base64_standard, base64_standard_decoded, decode_standard, encode_standard,
    padded_length, MAX_BASE64_INPUT,
};
use crate::envelope::exact::lemma_envelope_read;
use crate::envelope::grammar::{
    envelope_of, envelope_text, CandidateFieldsView, EnvelopeFieldsView,
};
use crate::envelope::reader::read_envelope;
use crate::envelope::roundtrip::lemma_envelope_written;
use crate::envelope::writer::{
    candidates_view, write_envelope, CandidateFields, EnvelopeFields,
};
use crate::text::{string_from_utf8, utf8_bytes};
use vstd::prelude::*;
use vstd::utf8::{
    decode_utf8, decode_utf8_encode_utf8, encode_utf8, encode_utf8_decode_utf8,
    encode_utf8_valid_utf8, valid_utf8,
};

verus! {

/// A network address at which a peer may be reached, as the transport
/// describes it.
#[derive(Debug, PartialEq, Eq)]
pub struct IceCandidate {
    pub candidate: String,
    pub sdp_mid: String,
    pub sdp_m_line_index: u16,
}

pub struct CandidateView {
    pub candidate: Seq<char>,
    pub sdp_mid: Seq<char>,
    pub sdp_m_line_index: u16,
}

impl View for IceCandidate {
    type V = CandidateView;

    open spec fn view(&self) -> CandidateView {
        CandidateView {
            candidate: self.candidate@,
            sdp_mid: self.sdp_mid@,
            sdp_m_line_index: self.sdp_m_line_index,
        }
    }
}

impl Clone for IceCandidate {
    fn clone(&self) -> (c: IceCandidate)
        ensures
            c == *self,
    {
        IceCandidate {
            candidate: self.candidate.clone(),
            sdp_mid: self.sdp_mid.clone(),
            sdp_m_line_index: self.sdp_m_line_index,
        }
    }
}

impl IceCandidate {
    /// Whether the two describe the same address.
    pub fn same(&self, other: &IceCandidate) -> (b: bool)
        ensures
            b == (self@ == other@),
    {
        self.candidate == other.candidate && self.sdp_mid == other.sdp_mid
            && self.sdp_m_line_index == other.sdp_m_line_index
    }
}

/// The views of a list of candidates.
pub open spec fn candidate_views(v: Seq<IceCandidate>) -> Seq<CandidateView> {
    v.map_values(|c: IceCandidate| c@)
}

/// A copy of a list of candidates.
pub fn clone_candidates(v: &Vec<IceCandidate>) -> (r: Vec<IceCandidate>)
    ensures
        r@ == v@,
{
    let mut r: Vec<IceCandidate> = Vec::new();
    let mut i: usize = 0;
    while i < v.len()
        invariant
            0 <= i <= v@.len(),
            r@ == v@.take(i as int),
        decreases v@.len() - i,
    {
        r.push(v[i].clone());
        assert(r@ =~= v@.take(i + 1));
        i = i + 1;
    }
    assert(r@ =~= v@);
    r
}

/// What the two peers exchange: the session description of one side and the
/// candidates it has gathered.
#[derive(Debug, PartialEq, Eq)]
pub struct ConnectionString {
    pub ice_candidates: Vec<IceCandidate>,
    pub offer: String,
}

pub struct ArtifactView {
    pub ice_candidates: Seq<CandidateView>,
    pub offer: Seq<char>,
}

impl View for ConnectionString {
    type V = ArtifactView;

    open spec fn view(&self) -> ArtifactView {
        ArtifactView { ice_candidates: candidate_views(self.ice_candidates@), offer: self.offer@ }
    }
}

impl Clone for ConnectionString {
    fn clone(&self) -> (c: ConnectionString)
        ensures
            c.ice_candidates@ == self.ice_candidates@,
            c.offer == self.offer,
            c@ == self@,
    {
        ConnectionString {
            ice_candidates: clone_candidates(&self.ice_candidates),
            offer: self.offer.clone(),
        }
    }
}

/// Why a connection code was not accepted.
#[derive(Clone, Copy, Debug, PartialEq, Eq, Structural)]
pub enum DecodeError {
    /// The text is not a connection code.
    Malformed,
    /// The text is a connection code that lacks a required member.
    Incomplete,
}

/// Why a connection code was not produced.
#[derive(Clone, Copy, Debug, PartialEq, Eq, Structural)]
pub enum EncodeError {
    /// The envelope is longer than [`MAX_BASE64_INPUT`] bytes.
    TooLarge,
}

// ------------------------------------------------------------ the model

/// The members of a candidate object that holds `c`.
pub open spec fn candidate_fields(c: CandidateView) -> CandidateFieldsView {
    CandidateFieldsView {
        candidate: Some(encode_utf8(c.candidate)),
        sdp_mid: Some(encode_utf8(c.sdp_mid)),
        sdp_m_line_index: Some(c.sdp_m_line_index),
    }
}

/// The members of the envelope that holds `a`.
pub open spec fn artifact_fields(a: ArtifactView) -> EnvelopeFieldsView {
    EnvelopeFieldsView {
        ice_candidates: Some(a.ice_candidates.map_values(|c: CandidateView| candidate_fields(c))),
        offer: Some(encode_utf8(a.offer)),
    }
}

/// The envelope that holds `a`, as bytes.
pub open spec fn artifact_json(a: ArtifactView) -> Seq<u8> {
    envelope_text(artifact_fields(a))
}

/// Whether `a` has a connection code: its envelope is short enough.
pub open spec fn encodable(a: ArtifactView) -> bool {
    artifact_json(a).len() <= MAX_BASE64_INPUT
}

/// The connection code of `a`.
pub open spec fn encoding(a: ArtifactView) -> Seq<char> {
    base64_standard(artifact_json(a))
}

/// A candidate object has all its members.
pub open spec fn fields_complete(c: CandidateFieldsView) -> bool {
    c.candidate is Some && c.sdp_mid is Some && c.sdp_m_line_index is Some
}

/// An envelope has all its members, and so has each of its candidates.
pub open spec fn envelope_complete(e: EnvelopeFieldsView) -> bool {
    &&& e.ice_candidates is Some
    &&& e.offer is Some
    &&& forall|i: int|
        0 <= i < e.ice_candidates->0.len() ==> fields_complete(#[trigger] e.ice_candidates->0[i])
}

/// The texts of a candidate object are valid UTF-8.
pub open spec fn fields_readable(c: CandidateFieldsView) -> bool {
    valid_utf8(c.candidate->0) && valid_utf8(c.sdp_mid->0)
}

/// All texts of an envelope are valid UTF-8.
pub open spec fn envelope_readable(e: EnvelopeFieldsView) -> bool {
    &&& valid_utf8(e.offer->0)
    &&& forall|i: int|
        0 <= i < e.ice_candidates->0.len() ==> fields_readable(#[trigger] e.ice_candidates->0[i])
}

/// The candidate that a complete, readable candidate object holds.
pub open spec fn candidate_of_fields(c: CandidateFieldsView) -> CandidateView {
    CandidateView {
        candidate: decode_utf8(c.candidate->0),
        sdp_mid: decode_utf8(c.sdp_mid->0),
        sdp_m_line_index: c.sdp_m_line_index->0,
    }
}

/// What an envelope holds: an artifact where nothing is missing and every
/// text is valid UTF-8.
pub open spec fn artifact_of_fields(e: EnvelopeFieldsView) -> Result<ArtifactView, DecodeError> {
    if !envelope_complete(e) {
        Err(DecodeError::Incomplete)
    } else if !envelope_readable(e) {
        Err(DecodeError::Malformed)
    } else {
        Ok(
            ArtifactView {
                ice_candidates: e.ice_candidates->0.map_values(
                    |c: CandidateFieldsView| candidate_of_fields(c),
                ),
                offer: decode_utf8(e.offer->0),
            },
        )
    }
}

/// What a text means as a connection code.
pub open spec fn decoding(text: Seq<char>) -> Result<ArtifactView, DecodeError> {
    match base64_standard_decoded(text) {
        None => Err(DecodeError::Malformed),
        Some(bytes) => match envelope_of(bytes) {
            None => Err(DecodeError::Malformed),
            Some(e) => artifact_of_fields(e),
        },
    }
}

// ------------------------------------------------------------ the laws

/// The envelope of an artifact holds that artifact.
pub proof fn lemma_fields_hold_artifact(a: ArtifactView)
    ensures
        artifact_of_fields(artifact_fields(a)) == Ok::<ArtifactView, DecodeError>(a),
{
    broadcast use encode_utf8_valid_utf8, encode_utf8_decode_utf8;

    let e = artifact_fields(a);
    assert(envelope_complete(e));
    assert(envelope_readable(e));
    let back = e.ice_candidates->0.map_values(|c: CandidateFieldsView| candidate_of_fields(c));
    assert(back =~= a.ice_candidates) by {
        assert forall|i: int| 0 <= i < back.len() implies back[i] == a.ice_candidates[i] by {
            let c = a.ice_candidates[i];
            encode_utf8_decode_utf8(c.candidate);
            encode_utf8_decode_utf8(c.sdp_mid);
        }
    }
    encode_utf8_decode_utf8(a.offer);
}

/// An envelope that holds an artifact is the envelope of that artifact.
pub proof fn lemma_artifact_fixes_fields(e: EnvelopeFieldsView, a: ArtifactView)
    requires
        artifact_of_fields(e) == Ok::<ArtifactView, DecodeError>(a),
    ensures
        e == artifact_fields(a),
{
    broadcast use decode_utf8_encode_utf8;

    let f = artifact_fields(a);
    decode_utf8_encode_utf8(e.offer->0);
    assert(f.ice_candidates->0 =~= e.ice_candidates->0) by {
        assert forall|i: int| 0 <= i < e.ice_candidates->0.len() implies f.ice_candidates->0[i]
            == e.ice_candidates->0[i] by {
            let c = e.ice_candidates->0[i];
            assert(fields_complete(c));
            assert(fields_readable(c));
            decode_utf8_encode_utf8(c.candidate->0);
            decode_utf8_encode_utf8(c.sdp_mid->0);
        }
    }
}

/// Round trip: a text whose base64 content is the envelope of `a` means `a`.
pub proof fn lemma_decoding_of_encoded(a: ArtifactView, text: Seq<char>)
    requires
        base64_standard_decoded(text) == Some(artifact_json(a)),
    ensures
        decoding(text) == Ok::<ArtifactView, DecodeError>(a),
{
    lemma_envelope_written(artifact_fields(a));
    lemma_fields_hold_artifact(a);
}

/// Nothing but an artifact's own envelope means that artifact: where a text
/// means `a`, its base64 content is the envelope of `a`.
pub proof fn lemma_decoded_is_encoded(text: Seq<char>, a: ArtifactView)
    requires
        decoding(text) == Ok::<ArtifactView, DecodeError>(a),
    ensures
        base64_standard_decoded(text) == Some(artifact_json(a)),
{
    let bytes = base64_standard_decoded(text)->0;
    let e = envelope_of(bytes)->0;
    lemma_envelope_read(bytes, e);
    lemma_artifact_fixes_fields(e, a);
}

// ------------------------------------------------------------ the code

fn fields_of_candidates(v: &Vec<IceCandidate>) -> (r: Vec<CandidateFields>)
    ensures
        candidates_view(r@) == candidate_views(v@).map_values(
            |c: CandidateView| candidate_fields(c),
        ),
{
    let ghost target = candidate_views(v@).map_values(|c: CandidateView| candidate_fields(c));
    let mut r: Vec<CandidateFields> = Vec::new();
    let mut i: usize = 0;
    assert(candidates_view(r@) =~= target.take(0));
    while i < v.len()
        invariant
            0 <= i <= v@.len(),
            target == candidate_views(v@).map_values(|c: CandidateView| candidate_fields(c)),
            r@.len() == i,
            target.len() == v@.len(),
            candidates_view(r@) == target.take(i as int),
        decreases v@.len() - i,
    {
        let c = &v[i];
        let fields = CandidateFields {
            candidate: Some(utf8_bytes(c.candidate.as_str())),
            sdp_mid: Some(utf8_bytes(c.sdp_mid.as_str())),
            sdp_m_line_index: Some(c.sdp_m_line_index),
        };
        assert(fields@ == target[i as int]);
        let ghost before = r@;
        r.push(fields);
        assert(candidates_view(r@) =~= target.take(i + 1)) by {
            assert forall|j: int| 0 <= j < i + 1 implies candidates_view(r@)[j] == target.take(
                i + 1,
            )[j] by {
                if j < i {
                    assert(candidates_view(before)[j] == target.take(i as int)[j]);
                }
            }
        }
        i = i + 1;
    }
    assert(target.take(i as int) =~= target);
    r
}

/// The connection code of an artifact.
///
/// The code means the artifact again, and fails to exist only for an
/// artifact whose envelope is over [`MAX_BASE64_INPUT`] bytes long. It is
/// one run of letters, digits, `+`, `/` and `=`, so that it can be pasted
/// or shown as a QR code as it is.
pub fn encode(artifact: &ConnectionString) -> (r: Result<String, EncodeError>)
    ensures
        match r {
            Ok(text) => {
                &&& encodable(artifact@)
                &&& text@ == encoding(artifact@)
                &&& decoding(text@) == Ok::<ArtifactView, DecodeError>(artifact@)
                &&& all_standard(text@)
                &&& text@.len() == padded_length(artifact_json(artifact@).len())
            },
            Err(e) => !encodable(artifact@) && e == EncodeError::TooLarge,
        },
{
    let fields = EnvelopeFields {
        ice_candidates: Some(fields_of_candidates(&artifact.ice_candidates)),
        offer: Some(utf8_bytes(artifact.offer.as_str())),
    };
    assert(fields@ == artifact_fields(artifact@));
    let bytes = write_envelope(&fields);
    if bytes.len() > MAX_BASE64_INPUT {
        return Err(EncodeError::TooLarge);
    }
    let text = encode_standard(bytes.as_slice());
    proof {
        lemma_decoding_of_encoded(artifact@, text@);
    }
    Ok(text)
}

fn is_complete(e: &EnvelopeFields) -> (b: bool)
    ensures
        b == envelope_complete(e@),
{
    if e.offer.is_none() {
        return false;
    }
    match &e.ice_candidates {
        None => false,
        Some(cs) => {
            let mut i: usize = 0;
            while i < cs.len()
                invariant
                    0 <= i <= cs@.len(),
                    e@.ice_candidates == Some(candidates_view(cs@)),
                    forall|j: int|
                        0 <= j < i ==> fields_complete(#[trigger] candidates_view(cs@)[j]),
                decreases cs@.len() - i,
            {
                let c = &cs[i];
                if c.candidate.is_none() || c.sdp_mid.is_none() || c.sdp_m_line_index.is_none() {
                    assert(!fields_complete(e@.ice_candidates->0[i as int]));
                    return false;
                }
                i = i + 1;
            }
            true
        },
    }
}

fn text_of(bytes: &Vec<u8>) -> (r: Option<String>)
    ensures
        r is Some <==> valid_utf8(bytes@),
        r matches Some(s) ==> s@ == decode_utf8(bytes@),
{
    string_from_utf8(bytes.clone())
}

/// What an envelope holds.
pub fn assemble(e: &EnvelopeFields) -> (r: Result<ConnectionString, DecodeError>)
    ensures
        match r {
            Ok(a) => artifact_of_fields(e@) == Ok::<ArtifactView, DecodeError>(a@),
            Err(err) => artifact_of_fields(e@) == Err::<ArtifactView, DecodeError>(err),
        },
{
    if !is_complete(e) {
        return Err(DecodeError::Incomplete);
    }
    let offer = match &e.offer {
        Some(bytes) => match text_of(bytes) {
            Some(s) => s,
            None => {
                return Err(DecodeError::Malformed);
            },
        },
        None => {
            return Err(DecodeError::Incomplete);
        },
    };
    let cs = match &e.ice_candidates {
        Some(cs) => cs,
        None => {
            return Err(DecodeError::Incomplete);
        },
    };
    let ghost fields = candidates_view(cs@);
    let ghost target = fields.map_values(|c: CandidateFieldsView| candidate_of_fields(c));
    let mut out: Vec<IceCandidate> = Vec::new();
    let mut i: usize = 0;
    assert(candidate_views(out@) =~= target.take(0));
    while i < cs.len()
        invariant
            0 <= i <= cs@.len(),
            fields == candidates_view(cs@),
            e@.ice_candidates == Some(fields),
            envelope_complete(e@),
            target == fields.map_values(|c: CandidateFieldsView| candidate_of_fields(c)),
            out@.len() == i,
            target.len() == cs@.len(),
            candidate_views(out@) == target.take(i as int),
            forall|j: int| 0 <= j < i ==> fields_readable(#[trigger] fields[j]),
        decreases cs@.len() - i,
    {
        let c = &cs[i];
        assert(fields_complete(e@.ice_candidates->0[i as int]));
        let candidate = match &c.candidate {
            Some(bytes) => match text_of(bytes) {
                Some(s) => s,
                None => {
                    assert(!fields_readable(fields[i as int]));
                    return Err(DecodeError::Malformed);
                },
            },
            None => {
                return Err(DecodeError::Incomplete);
            },
        };
        let sdp_mid = match &c.sdp_mid {
            Some(bytes) => match text_of(bytes) {
                Some(s) => s,
                None => {
                    assert(!fields_readable(fields[i as int]));
                    return Err(DecodeError::Malformed);
                },
            },
            None => {
                return Err(DecodeError::Incomplete);
            },
        };
        let sdp_m_line_index = match c.sdp_m_line_index {
            Some(n) => n,
            None => {
                return Err(DecodeError::Incomplete);
            },
        };
        let item = IceCandidate { candidate, sdp_mid, sdp_m_line_index };
        assert(item@ == target[i as int]);
        let ghost before = out@;
        out.push(item);
        assert(candidate_views(out@) =~= target.take(i + 1)) by {
            assert forall|j: int| 0 <= j < i + 1 implies candidate_views(out@)[j] == target.take(
                i + 1,
            )[j] by {
                if j < i {
                    assert(candidate_views(before)[j] == target.take(i as int)[j]);
                }
            }
        }
        i = i + 1;
    }
    assert(target.take(i as int) =~= target);
    Ok(ConnectionString { ice_candidates: out, offer })
}

/// The artifact that a text means as a connection code.
///
/// Any text may be handed in. Only the code that [`encode`] gives for an
/// artifact means that artifact; a code that lacks a member is
/// `Incomplete`, every other text is `Malformed`.
pub fn decode(text: &str) -> (r: Result<ConnectionString, DecodeError>)
    ensures
        match r {
            Ok(a) => decoding(text@) == Ok::<ArtifactView, DecodeError>(a@) && text@ == encoding(
                a@,
            ),
            Err(err) => decoding(text@) == Err::<ArtifactView, DecodeError>(err),
        },
{
    let bytes = match decode_standard(text) {
        Some(bytes) => bytes,
        None => {
            return Err(DecodeError::Malformed);
        },
    };
    let fields = match read_envelope(bytes.as_slice()) {
        Some(fields) => fields,
        None => {
            return Err(DecodeError::Malformed);
        },
    };
    match assemble(&fields) {
        Ok(a) => {
            proof {
                lemma_decoded_is_encoded(text@, a@);
            }
            Ok(a)
        },
        Err(err) => Err(err),
    }
}

} // verus!

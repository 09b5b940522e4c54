use base64::Engine;
use webrtc_chat::codec::{
    assemble, decode, encode, ConnectionString, DecodeError, IceCandidate,
};
use webrtc_chat::envelope::reader::read_envelope;
use webrtc_chat::envelope::writer::{write_envelope, CandidateFields, EnvelopeFields};

fn candidate(text: &str, mid: &str, index: u16) -> IceCandidate {
    IceCandidate { candidate: text.to_string(), sdp_mid: mid.to_string(), sdp_m_line_index: index }
}

fn sample() -> ConnectionString {
    ConnectionString {
        ice_candidates: vec![
            candidate("candidate:1 1 UDP 2122252543 192.168.1.2 50000 typ host", "0", 0),
            candidate("candidate:2 1 UDP 1686052863 203.0.113.7 50001 typ srflx", "0", 0),
        ],
        offer: "v=0\r\no=- 46117 2 IN IP4 127.0.0.1\r\ns=-\r\n".to_string(),
    }
}

fn b64(text: &str) -> String {
    base64::engine::general_purpose::STANDARD.encode(text.as_bytes())
}

#[test]
fn encode_writes_compact_json_in_base64() {
    let artifact = ConnectionString {
        ice_candidates: vec![candidate("a", "0", 7)],
        offer: "x\"y\\z\r\n".to_string(),
    };
    let json = "{\"ice_candidates\":[{\"candidate\":\"a\",\"sdp_mid\":\"0\",\"sdp_m_line_index\":7}],\"offer\":\"x\\\"y\\\\z\\r\\n\"}";
    assert_eq!(encode(&artifact).unwrap(), b64(json));
}

#[test]
fn encode_of_no_candidates_writes_an_empty_array() {
    let artifact = ConnectionString { ice_candidates: vec![], offer: "o".to_string() };
    assert_eq!(encode(&artifact).unwrap(), b64("{\"ice_candidates\":[],\"offer\":\"o\"}"));
}

#[test]
fn encode_is_what_serde_json_reads() {
    let artifact = sample();
    let text = encode(&artifact).unwrap();
    let bytes = base64::engine::general_purpose::STANDARD.decode(text).unwrap();
    let value: serde_json::Value = serde_json::from_slice(&bytes).unwrap();
    assert_eq!(value["offer"].as_str().unwrap(), artifact.offer);
    let list = value["ice_candidates"].as_array().unwrap();
    assert_eq!(list.len(), 2);
    assert_eq!(list[1]["candidate"].as_str().unwrap(), artifact.ice_candidates[1].candidate);
    assert_eq!(list[1]["sdp_mid"].as_str().unwrap(), "0");
    assert_eq!(list[1]["sdp_m_line_index"].as_u64().unwrap(), 0);
}

#[test]
fn decode_gives_back_what_was_encoded() {
    let artifact = sample();
    let text = encode(&artifact).unwrap();
    assert_eq!(decode(&text), Ok(artifact));
}

#[test]
fn round_trip_keeps_control_characters_and_unicode() {
    let artifact = ConnectionString {
        ice_candidates: vec![candidate("\u{0}\u{1}\u{8}\u{9}\u{a}\u{c}\u{d}\u{1f} \u{7f}", "caf\u{e9} \u{1f600}", 65535)],
        offer: "\"\\/\u{2588}".to_string(),
    };
    let text = encode(&artifact).unwrap();
    assert_eq!(decode(&text), Ok(artifact));
}

#[test]
fn control_characters_are_written_as_serde_json_writes_them() {
    let artifact = ConnectionString {
        ice_candidates: vec![],
        offer: "\u{0}\u{8}\u{9}\u{a}\u{b}\u{c}\u{d}\u{1f}".to_string(),
    };
    let text = encode(&artifact).unwrap();
    let bytes = base64::engine::general_purpose::STANDARD.decode(text).unwrap();
    let expected = "{\"ice_candidates\":[],\"offer\":\"\\u0000\\b\\t\\n\\u000b\\f\\r\\u001f\"}";
    assert_eq!(String::from_utf8(bytes).unwrap(), expected);
    let by_serde = serde_json::to_string(&serde_json::Value::String(artifact.offer.clone())).unwrap();
    assert!(expected.ends_with(&format!("{}}}", by_serde)));
}

#[test]
fn decode_rejects_what_is_not_base64() {
    assert_eq!(decode("not base64 at all!"), Err(DecodeError::Malformed));
    assert_eq!(decode("%%%"), Err(DecodeError::Malformed));
}

#[test]
fn decode_rejects_the_empty_text() {
    assert_eq!(decode(""), Err(DecodeError::Malformed));
}

#[test]
fn decode_rejects_base64_of_something_else() {
    assert_eq!(decode(&b64("hello")), Err(DecodeError::Malformed));
    assert_eq!(decode(&b64("[]")), Err(DecodeError::Malformed));
    assert_eq!(decode(&b64("{\"offer\":1}")), Err(DecodeError::Malformed));
    assert_eq!(decode(&b64("{\"ice_candidates\":[],\"offer\":\"o\"} ")), Err(DecodeError::Malformed));
}

#[test]
fn decode_rejects_every_truncation() {
    let text = encode(&sample()).unwrap();
    for cut in 0..text.len() {
        assert!(decode(&text[..cut]).is_err(), "a prefix of {} characters was accepted", cut);
    }
}

#[test]
fn decode_rejects_a_truncated_envelope() {
    let json = "{\"ice_candidates\":[],\"offer\":\"o\"}";
    for cut in 0..json.len() {
        let r = decode(&b64(&json[..cut]));
        assert_eq!(r, Err(DecodeError::Malformed), "a prefix of {} bytes", cut);
    }
}

#[test]
fn decode_reports_missing_members_as_incomplete() {
    assert_eq!(decode(&b64("{}")), Err(DecodeError::Incomplete));
    assert_eq!(decode(&b64("{\"offer\":\"o\"}")), Err(DecodeError::Incomplete));
    assert_eq!(decode(&b64("{\"ice_candidates\":[]}")), Err(DecodeError::Incomplete));
    assert_eq!(
        decode(&b64("{\"ice_candidates\":[{\"candidate\":\"a\",\"sdp_m_line_index\":0}],\"offer\":\"o\"}")),
        Err(DecodeError::Incomplete)
    );
    assert_eq!(
        decode(&b64("{\"ice_candidates\":[{}],\"offer\":\"o\"}")),
        Err(DecodeError::Incomplete)
    );
}

#[test]
fn decode_rejects_members_out_of_order() {
    assert_eq!(decode(&b64("{\"offer\":\"o\",\"ice_candidates\":[]}")), Err(DecodeError::Malformed));
}

#[test]
fn decode_rejects_numbers_that_are_no_line_index() {
    let with = |n: &str| {
        b64(&format!(
            "{{\"ice_candidates\":[{{\"candidate\":\"a\",\"sdp_mid\":\"0\",\"sdp_m_line_index\":{}}}],\"offer\":\"o\"}}",
            n
        ))
    };
    assert!(decode(&with("65535")).is_ok());
    assert_eq!(decode(&with("65536")), Err(DecodeError::Malformed));
    assert_eq!(decode(&with("007")), Err(DecodeError::Malformed));
    assert_eq!(decode(&with("-1")), Err(DecodeError::Malformed));
    assert_eq!(decode(&with("")), Err(DecodeError::Malformed));
    assert_eq!(decode(&with("1.5")), Err(DecodeError::Malformed));
}

#[test]
fn decode_rejects_text_that_is_not_utf8() {
    let mut bytes = b"{\"ice_candidates\":[],\"offer\":\"".to_vec();
    bytes.push(0xff);
    bytes.extend_from_slice(b"\"}");
    let text = base64::engine::general_purpose::STANDARD.encode(&bytes);
    assert_eq!(decode(&text), Err(DecodeError::Malformed));
}

#[test]
fn decode_accepts_only_the_text_that_encode_gives() {
    let artifact = sample();
    let text = encode(&artifact).unwrap();
    let decoded = decode(&text).unwrap();
    assert_eq!(encode(&decoded).unwrap(), text);
    let spaced = b64("{ \"ice_candidates\":[],\"offer\":\"o\"}");
    assert_eq!(decode(&spaced), Err(DecodeError::Malformed));
    let other_escape = b64("{\"ice_candidates\":[],\"offer\":\"\\u0041\"}");
    assert_eq!(decode(&other_escape), Err(DecodeError::Malformed));
}

#[test]
fn envelope_is_read_as_it_was_written() {
    let fields = EnvelopeFields {
        ice_candidates: Some(vec![
            CandidateFields { candidate: Some(b"a".to_vec()), sdp_mid: None, sdp_m_line_index: Some(12) },
            CandidateFields { candidate: None, sdp_mid: Some(b"m".to_vec()), sdp_m_line_index: None },
            CandidateFields { candidate: None, sdp_mid: None, sdp_m_line_index: None },
        ]),
        offer: None,
    };
    let bytes = write_envelope(&fields);
    assert_eq!(
        String::from_utf8(bytes.clone()).unwrap(),
        "{\"ice_candidates\":[{\"candidate\":\"a\",\"sdp_m_line_index\":12},{\"sdp_mid\":\"m\"},{}]}"
    );
    assert_eq!(read_envelope(&bytes), Some(fields));
}

#[test]
fn assemble_tells_incomplete_from_malformed() {
    let incomplete = EnvelopeFields { ice_candidates: None, offer: Some(vec![0xff]) };
    assert_eq!(assemble(&incomplete), Err(DecodeError::Incomplete));
    let unreadable = EnvelopeFields { ice_candidates: Some(vec![]), offer: Some(vec![0xff]) };
    assert_eq!(assemble(&unreadable), Err(DecodeError::Malformed));
    let good = EnvelopeFields { ice_candidates: Some(vec![]), offer: Some(b"o".to_vec()) };
    assert_eq!(
        assemble(&good),
        Ok(ConnectionString { ice_candidates: vec![], offer: "o".to_string() })
    );
}

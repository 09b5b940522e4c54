use base64::Engine;
use webrtc_chat::config::GitHubAuth;
use webrtc_chat::pkce::{
    code_verifier_from, generate_code_challenge, generate_code_verifier, generate_pkce_pair,
    pkce_pair_from,
};
use webrtc_chat::qr_code::{read_lines, QrCodeGenerator, QrFailure};
use webrtc_chat::text::{ascii_string, chars_of, push_ascii, push_decimal, utf8_bytes};

fn is_url_safe(text: &str) -> bool {
    text.bytes().all(|b| b.is_ascii_alphanumeric() || b == b'-' || b == b'_')
}

#[test]
fn the_challenge_is_the_hash_of_the_verifier() {
    assert_eq!(
        generate_code_challenge("dBjftJeZ4CVP-mB92K27uhbUJU1p1r_wW1gFWFOEjXk"),
        "E9Melhoa2OwvFrEMTJguCHaoeK1t8URWbuGJSstw-cM"
    );
}

#[test]
fn the_verifier_is_the_url_safe_base64_of_its_bytes() {
    let bytes: Vec<u8> = (0..32).collect();
    assert_eq!(code_verifier_from(&bytes), "AAECAwQFBgcICQoLDA0ODxAREhMUFRYXGBkaGxwdHh8");
    let all_set = [0xffu8; 32];
    assert_eq!(code_verifier_from(&all_set), "__________________________________________8");
    let (verifier, challenge) = pkce_pair_from(&bytes);
    assert_eq!(verifier, "AAECAwQFBgcICQoLDA0ODxAREhMUFRYXGBkaGxwdHh8");
    assert_eq!(challenge, generate_code_challenge(&verifier));
}

#[test]
fn a_pair_belongs_together() {
    let (verifier, challenge) = generate_pkce_pair();
    assert_eq!(verifier.len(), 43);
    assert_eq!(challenge.len(), 43);
    assert!(is_url_safe(&verifier));
    assert!(is_url_safe(&challenge));
    assert_eq!(challenge, generate_code_challenge(&verifier));
    let decoded = base64::engine::general_purpose::URL_SAFE_NO_PAD.decode(&verifier).unwrap();
    assert_eq!(decoded.len(), 32);
}

#[test]
fn verifiers_differ() {
    assert_ne!(generate_code_verifier(), generate_code_verifier());
}

#[test]
fn the_login_starts_at_the_authorize_address() {
    let auth = GitHubAuth {
        client_id: "abc".to_string(),
        redirect_uri: "https://example.org/callback".to_string(),
        token_url: String::new(),
        client_secret: String::new(),
        user_api_url: String::new(),
    };
    assert_eq!(
        auth.authorize_url("xyz"),
        "https://github.com/login/oauth/authorize?client_id=abc&redirect_uri=https://example.org/callback&scope=user&state=STATE&code_challenge=xyz&code_challenge_method=S256"
    );
}

#[test]
fn lines_are_read_as_std_reads_them() {
    for text in ["", "a", "a\n", "a\nb", "a\r\nb\r\n", "\n", "\n\n", "a\r", "\r\n", "a\n\nb", "a\r\r\n", "\u{2588} \n \u{2588}"] {
        let chars: Vec<char> = text.chars().collect();
        let lines: Vec<String> = read_lines(&chars).iter().map(|l| l.iter().collect()).collect();
        let expected: Vec<String> = text.lines().map(|l| l.to_string()).collect();
        assert_eq!(lines, expected, "for {:?}", text);
    }
}

#[test]
fn modules_are_the_dark_characters() {
    let rows = QrCodeGenerator::modules_of_text("\u{2588} \u{2580}\n \u{2584}x");
    assert_eq!(rows, vec![vec![true, false, true], vec![false, true, false]]);
    assert_eq!(QrCodeGenerator::modules_of_text(""), Vec::<Vec<bool>>::new());
}

#[test]
fn the_picture_has_eight_pixels_a_module() {
    let rows = vec![vec![true, false], vec![false]];
    let (pixels, width, height) = QrCodeGenerator::draw(&rows).unwrap();
    assert_eq!((width, height), (16, 16));
    assert_eq!(pixels.len(), 256);
    for y in 0..16usize {
        for x in 0..16usize {
            let expected = match (y / 8, x / 8) {
                (0, 0) => 0,
                (0, 1) => 255,
                (1, 0) => 255,
                _ => 0,
            };
            assert_eq!(pixels[y * 16 + x], expected, "at {} {}", x, y);
        }
    }
    assert_eq!(QrCodeGenerator::draw(&vec![]), Some((vec![], 0, 0)));
}

#[test]
fn the_picture_of_a_code_is_as_wide_as_the_code() {
    let by_crate = qrcode::QrCode::new("hello").unwrap();
    let rows = QrCodeGenerator::dark_modules("hello").unwrap();
    assert_eq!(rows.len(), by_crate.width());
    for (y, row) in rows.iter().enumerate() {
        assert_eq!(row.len(), by_crate.width());
        for (x, dark) in row.iter().enumerate() {
            assert_eq!(*dark, by_crate[(x, y)] == qrcode::Color::Dark);
        }
    }
    let (pixels, width, height) = QrCodeGenerator::draw(&rows).unwrap();
    assert_eq!(width as usize, by_crate.width() * 8);
    assert_eq!(height as usize, by_crate.width() * 8);
    assert_eq!(pixels.len(), (width * height) as usize);
}

#[test]
fn the_data_url_holds_a_png_of_the_picture() {
    let url = QrCodeGenerator::generate_qr_code_data_url("hello").unwrap();
    let encoded = url.strip_prefix("data:image/png;base64,").unwrap();
    let png = base64::engine::general_purpose::STANDARD.decode(encoded).unwrap();
    let picture = image::load_from_memory(&png).unwrap().to_luma8();
    let rows = QrCodeGenerator::dark_modules("hello").unwrap();
    let (pixels, width, height) = QrCodeGenerator::draw(&rows).unwrap();
    assert_eq!(picture.dimensions(), (width, height));
    assert_eq!(picture.into_raw(), pixels);
    assert!(encoded.bytes().all(|b| b.is_ascii_alphanumeric() || b == b'+' || b == b'/' || b == b'='));
    assert_eq!(QrCodeGenerator::picture_data_url(&rows), Ok(url));
}

#[test]
fn data_that_is_too_long_makes_no_code() {
    let long = "x".repeat(8000);
    assert_eq!(QrCodeGenerator::generate_qr_code_data_url(&long), Err(QrFailure::DataTooLong));
    assert_eq!(QrCodeGenerator::dark_modules(&long), Err(QrFailure::DataTooLong));
    assert_eq!(QrFailure::DataTooLong.message(), "Failed to create QR code: DataTooLong");
    assert_eq!(
        QrFailure::PngEncoding.message(),
        "Failed to encode PNG: the encoder refused the picture"
    );
    assert_eq!(QrFailure::ImageTooLarge.message(), "Failed to encode PNG: image too large");
    for failure in [
        QrFailure::DataTooLong,
        QrFailure::InvalidVersion,
        QrFailure::UnsupportedCharacterSet,
        QrFailure::InvalidEciDesignator,
        QrFailure::InvalidCharacter,
    ] {
        assert!(failure.message().starts_with("Failed to create QR code: "));
    }
}

#[test]
fn an_empty_picture_is_not_packed() {
    assert_eq!(QrCodeGenerator::picture_data_url(&vec![]), Err(QrFailure::PngEncoding));
}

#[test]
fn text_helpers() {
    let mut out = vec![b'>'];
    push_ascii(&mut out, "ab");
    push_decimal(&mut out, 0);
    push_decimal(&mut out, 9);
    push_decimal(&mut out, 10);
    push_decimal(&mut out, 65535);
    push_decimal(&mut out, u64::MAX);
    assert_eq!(out, b">ab09106553518446744073709551615".to_vec());
    assert_eq!(ascii_string(b"msg".to_vec()), "msg");
    assert_eq!(utf8_bytes("\u{e9}"), vec![0xc3, 0xa9]);
    assert_eq!(chars_of("a\u{e9}\u{1f600}"), vec!['a', '\u{e9}', '\u{1f600}']);
}

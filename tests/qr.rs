use nostr_arena::qr::base64_encode;
use nostr_arena::{generate_qr_data_url, generate_qr_svg, QrOptions};

#[test]
fn test_generate_qr_svg() {
    let svg = generate_qr_svg("https://example.com", &QrOptions::default()).unwrap();
    assert!(svg.contains("<svg"));
    assert!(svg.contains("</svg>"));
    assert!(svg.contains("<path"));
}

#[test]
fn test_generate_qr_data_url() {
    let url = generate_qr_data_url("test", &QrOptions::default()).unwrap();
    assert!(url.starts_with("data:image/svg+xml;base64,"));
}

#[test]
fn test_qr_with_options() {
    let options = QrOptions {
        size: Some(8),
        margin: Some(4),
        fg_color: Some("#333333".to_string()),
        bg_color: Some("#ffffff".to_string()),
    };
    let svg = generate_qr_svg("https://example.com/room/abc123", &options).unwrap();
    assert!(svg.contains("#333333"));
}

#[test]
fn base64_of_known_inputs() {
    assert_eq!(base64_encode(""), "");
    assert_eq!(base64_encode("f"), "Zg==");
    assert_eq!(base64_encode("fo"), "Zm8=");
    assert_eq!(base64_encode("foo"), "Zm9v");
    assert_eq!(base64_encode("test"), "dGVzdA==");
    assert_eq!(base64_encode("foobar"), "Zm9vYmFy");
    assert_eq!(base64_encode("\u{e9}"), "w6k=");
}

#[test]
fn data_url_holds_the_svg_in_base64() {
    let options = QrOptions::default();
    let svg = generate_qr_svg("room", &options).unwrap();
    let url = generate_qr_data_url("room", &options).unwrap();
    assert_eq!(url, format!("data:image/svg+xml;base64,{}", base64_encode(&svg)));
}

#[test]
fn default_colours_are_black_on_white() {
    let svg = generate_qr_svg("colours", &QrOptions::default()).unwrap();
    assert!(svg.contains("#000000"));
    assert!(svg.contains("#ffffff"));
}

#[test]
fn data_too_long_for_a_qr_code_is_refused() {
    let data = "x".repeat(5000);
    assert!(generate_qr_svg(&data, &QrOptions::default()).is_err());
    assert!(generate_qr_data_url(&data, &QrOptions::default()).is_err());
}

use base64::Engine;
use cerebro::vision::{
    caption_from_reply, choose_prompt, detect_media_type, fallback_transport, first_transport,
    prepare_from_b64, prepare_from_bytes, Transport, VisionBackend, VisionConfig, VisionError,
    DEFAULT_PROMPT,
};

#[test]
fn parses_backend_aliases() {
    assert_eq!(VisionBackend::parse("ollama"), VisionBackend::Ollama);
    assert_eq!(VisionBackend::parse("LAN"), VisionBackend::Ollama);
    assert_eq!(VisionBackend::parse("anthropic"), VisionBackend::Anthropic);
    assert_eq!(VisionBackend::parse("api"), VisionBackend::Anthropic);
    assert_eq!(VisionBackend::parse("off"), VisionBackend::Off);
    assert_eq!(VisionBackend::parse("disabled"), VisionBackend::Off);
    assert_eq!(VisionBackend::parse("whatever"), VisionBackend::Auto);
    assert_eq!(VisionBackend::parse(""), VisionBackend::Auto);
}

#[test]
fn backend_setting_is_trimmed() {
    assert_eq!(VisionBackend::parse("  Local \n"), VisionBackend::Ollama);
    assert_eq!(VisionBackend::parse("0"), VisionBackend::Off);
}

#[test]
fn detects_media_type_from_magic_bytes() {
    assert_eq!(detect_media_type(&[0xFF, 0xD8, 0xFF, 0x00], "x"), "image/jpeg");
    assert_eq!(detect_media_type(&[0x89, b'P', b'N', b'G'], "x"), "image/png");
    assert_eq!(detect_media_type(b"GIF89a", "x"), "image/gif");
    let webp = b"RIFF\x00\x00\x00\x00WEBPVP8 ";
    assert_eq!(detect_media_type(webp, "x"), "image/webp");
}

#[test]
fn falls_back_to_extension_then_png() {
    // Unknown magic, known extension.
    assert_eq!(detect_media_type(&[0, 1, 2, 3], "a.jpeg"), "image/jpeg");
    assert_eq!(detect_media_type(&[0, 1, 2, 3], "a.WEBP"), "image/webp");
    // Unknown everything → safe default.
    assert_eq!(detect_media_type(&[0, 1, 2, 3], "a.bin"), "image/png");
}

#[test]
fn prepare_from_b64_roundtrips_and_sniffs() {
    // 1x1 PNG (magic bytes intact) → png sniffed from the decoded payload.
    let png = [0x89u8, b'P', b'N', b'G', 0x0D, 0x0A, 0x1A, 0x0A];
    let b64 = base64::engine::general_purpose::STANDARD.encode(png);
    let img = prepare_from_b64(&b64, None).unwrap();
    assert_eq!(img.media_type, "image/png");
    assert_eq!(img.b64, b64);
    // Explicit media-type hint wins.
    let img = prepare_from_b64(&b64, Some("image/jpeg")).unwrap();
    assert_eq!(img.media_type, "image/jpeg");
}

#[test]
fn prepare_from_b64_rejects_garbage() {
    assert!(prepare_from_b64("not valid base64!!!", None).is_err());
}

#[test]
fn prepare_errors_are_distinguished() {
    assert_eq!(prepare_from_b64("@@@@", None).unwrap_err(), VisionError::InvalidBase64);
    assert_eq!(prepare_from_b64("  ", None).unwrap_err(), VisionError::EmptyImage);
    assert_eq!(prepare_from_bytes(&[], "a.png").unwrap_err(), VisionError::EmptyImage);
    // An empty hint does not count as a hint.
    let img = prepare_from_b64(" R0lGODlh ", Some("")).unwrap();
    assert_eq!(img.b64, "R0lGODlh");
    assert_eq!(img.media_type, "image/gif");
}

#[test]
fn prepared_image_roundtrips_through_base64() {
    let bytes = [0xFFu8, 0xD8, 0xFF, 0xE0, 1, 2, 3];
    let img = prepare_from_bytes(&bytes, "photo.bin").unwrap();
    assert_eq!(img.media_type, "image/jpeg");
    assert_eq!(img.decoded().unwrap(), bytes.to_vec());
    let again = prepare_from_b64(&img.b64, None).unwrap();
    assert_eq!(again.b64, img.b64);
    assert_eq!(again.media_type, img.media_type);
}

#[test]
fn config_from_settings() {
    let cfg = VisionConfig::from_settings(None, Some("http://lan:11434//"), None, Some("  "), None);
    assert_eq!(cfg.backend, VisionBackend::Auto);
    assert_eq!(cfg.ollama_url, "http://lan:11434");
    assert_eq!(cfg.ollama_model, "moondream");
    assert_eq!(cfg.anthropic_key, None);
    assert_eq!(cfg.anthropic_model, None);
    let cfg = VisionConfig::from_settings(Some("api"), None, Some("llava"), Some("sk"), Some("m1"));
    assert_eq!(cfg.backend, VisionBackend::Anthropic);
    assert_eq!(cfg.ollama_url, "http://localhost:11434");
    assert_eq!(cfg.ollama_model, "llava");
    assert_eq!(cfg.anthropic_key.as_deref(), Some("sk"));
    assert_eq!(cfg.anthropic_model.as_deref(), Some("m1"));
}

#[test]
fn prompt_and_caption_rules() {
    assert_eq!(choose_prompt(Some("  what is here? ")), "what is here?");
    assert_eq!(choose_prompt(Some("   ")), DEFAULT_PROMPT);
    assert_eq!(choose_prompt(None), DEFAULT_PROMPT);
    let c = caption_from_reply("  a cat on a mat \n", "ollama", "moondream").unwrap();
    assert_eq!(c.text, "a cat on a mat");
    assert_eq!(c.backend, "ollama");
    assert_eq!(c.model, "moondream");
    assert_eq!(caption_from_reply(" \n", "ollama", "m").unwrap_err(), VisionError::EmptyCaption);
}

#[test]
fn transport_plan() {
    assert_eq!(first_transport(VisionBackend::Off), None);
    assert_eq!(first_transport(VisionBackend::Auto), Some(Transport::Ollama));
    assert_eq!(first_transport(VisionBackend::Anthropic), Some(Transport::Anthropic));
    assert_eq!(fallback_transport(VisionBackend::Auto, Transport::Ollama, true), Some(Transport::Anthropic));
    assert_eq!(fallback_transport(VisionBackend::Auto, Transport::Ollama, false), None);
    assert_eq!(fallback_transport(VisionBackend::Ollama, Transport::Ollama, true), None);
}

#[test]
fn prepared_bytes_are_standard_base64() {
    // A PNG signature followed by "Man": the text is the padded standard encoding.
    let mut bytes = vec![0x89, b'P', b'N', b'G', 0x0D, 0x0A, 0x1A, 0x0A];
    bytes.extend_from_slice(b"Man");
    let img = prepare_from_bytes(&bytes, "x.png").unwrap();
    assert_eq!(img.b64, "iVBORw0KGgpNYW4=");
}

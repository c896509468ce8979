//! Vision support: backend selection, image preparation (media type
//! detection and base64 payloads) and the acceptance of captions.
use vstd::prelude::*;
use base64::Engine;
use crate::ingest::{extension, extension_of};
use crate::text::{
    ascii_lower_seq, ascii_lowercase, chars_of, eq_lit, string_of, trim, trim_set_end,
    trim_set_end_vec, trim_vec,
};

verus! {

/// Default Ollama endpoint (local or a LAN vision node).
pub const DEFAULT_OLLAMA_URL: &'static str = "http://localhost:11434";

/// Default Ollama vision model.
pub const DEFAULT_OLLAMA_MODEL: &'static str = "moondream";

/// Captioning instruction used when the caller passes none.
pub const DEFAULT_PROMPT: &'static str = "Describe this image in detail for a searchable memory. Note any visible text, objects, people, and the overall scene.";

/// `base64::DecodeError`.
#[verifier::external_type_specification]
#[verifier::external_body]
pub struct ExDecodeError(base64::DecodeError);


/// The character of a 6-bit value in the standard base64 alphabet
/// (`A`–`Z`, `a`–`z`, `0`–`9`, `+`, `/`).
pub open spec fn b64_symbol(v: int) -> char {
    if v < 26 {
        ('A' as int + v) as char
    } else if v < 52 {
        ('a' as int + (v - 26)) as char
    } else if v < 62 {
        ('0' as int + (v - 52)) as char
    } else if v == 62 {
        '+'
    } else {
        '/'
    }
}

/// The standard, padded base64 text of some bytes (`STANDARD` engine): each
/// group of three bytes becomes four symbols of six bits each, most
/// significant first; a last group of one or two bytes is padded with zero
/// bits and then with `=` to four characters.
pub open spec fn b64_encode(b: Seq<u8>) -> Seq<char>
    decreases b.len(),
{
    if b.len() == 0 {
        seq![]
    } else {
        let x0 = b[0] as int;
        let x1 = if b.len() > 1 {
            b[1] as int
        } else {
            0
        };
        let x2 = if b.len() > 2 {
            b[2] as int
        } else {
            0
        };
        let c0 = b64_symbol(x0 / 4);
        let c1 = b64_symbol((x0 % 4) * 16 + x1 / 16);
        let c2 = b64_symbol((x1 % 16) * 4 + x2 / 64);
        let c3 = b64_symbol(x2 % 64);
        if b.len() == 1 {
            seq![c0, c1, '=', '=']
        } else if b.len() == 2 {
            seq![c0, c1, c2, '=']
        } else {
            seq![c0, c1, c2, c3] + b64_encode(b.subrange(3, b.len() as int))
        }
    }
}

/// A character of the standard base64 alphabet, or the padding `=`.
pub open spec fn is_b64_symbol(c: char) -> bool {
    ('A' <= c && c <= 'Z') || ('a' <= c && c <= 'z') || ('0' <= c && c <= '9') || c == '+' || c
        == '/' || c == '='
}

/// Standard, padded base64 decoding (`base64`'s `STANDARD` engine, which
/// requires canonical padding and no trailing bits): the bytes whose
/// encoding the text is; none when the text is no such encoding.
pub open spec fn b64_decode(s: Seq<char>) -> Option<Seq<u8>> {
    if exists|b: Seq<u8>| b64_encode(b) == s {
        Some(choose|b: Seq<u8>| b64_encode(b) == s)
    } else {
        None
    }
}

/// `base64::engine::general_purpose::STANDARD.decode`: the bytes whose
/// padded standard encoding the text is (encoding is one-to-one, so they
/// are the ones `b64_decode` names), or the crate's error when the text is
/// no such encoding.
#[verifier::external_body]
fn decode_b64(s: &str) -> (r: Result<Vec<u8>, base64::DecodeError>)
    ensures
        match r {
            Ok(b) => b64_encode(b@) == s@ && b64_decode(s@) == Some(b@),
            Err(_) => b64_decode(s@) is None,
        },
{
    base64::engine::general_purpose::STANDARD.decode(s)
}

/// `base64::engine::general_purpose::STANDARD.encode`: the padded base64
/// text of the bytes, as `b64_encode` spells out (three bytes to four
/// symbols of the standard alphabet, `=` padding); decoding it gives the
/// bytes back. (The crate panics when the encoded length overflows `usize`,
/// which the bound on the input rules out.)
#[verifier::external_body]
fn encode_b64(bytes: &[u8]) -> (r: String)
    requires
        bytes@.len() <= isize::MAX,
    ensures
        r@ == b64_encode(bytes@),
        b64_decode(r@) == Some(bytes@),
        forall|i: int| 0 <= i < r@.len() ==> is_b64_symbol(#[trigger] r@[i]),
{
    base64::engine::general_purpose::STANDARD.encode(bytes)
}

/// Which transport captioning uses.
#[derive(Debug, Clone, Copy, PartialEq, Eq, Structural)]
pub enum VisionBackend {
    /// Prefer a reachable Ollama, fall back to Anthropic.
    Auto,
    /// Local or LAN Ollama only.
    Ollama,
    /// External Anthropic VLM only.
    Anthropic,
    /// Vision disabled.
    Off,
}

/// The backend a setting names: trimmed and ASCII case ignored; anything
/// unrecognised means `Auto`.
pub open spec fn backend_spec(s: Seq<char>) -> VisionBackend {
    let t = ascii_lower_seq(trim(s));
    if t == "ollama"@ || t == "lan"@ || t == "local"@ {
        VisionBackend::Ollama
    } else if t == "anthropic"@ || t == "api"@ || t == "external"@ {
        VisionBackend::Anthropic
    } else if t == "off"@ || t == "none"@ || t == "0"@ || t == "false"@ || t == "disabled"@ {
        VisionBackend::Off
    } else {
        VisionBackend::Auto
    }
}

impl VisionBackend {
    /// Parse a backend setting.
    pub fn parse(s: &str) -> (r: Self)
        ensures
            r == backend_spec(s@),
    {
        let c = chars_of(s);
        let t = trim_vec(c.as_slice());
        let l = ascii_lowercase(t.as_slice());
        let v = l.as_slice();
        if eq_lit(v, "ollama") || eq_lit(v, "lan") || eq_lit(v, "local") {
            VisionBackend::Ollama
        } else if eq_lit(v, "anthropic") || eq_lit(v, "api") || eq_lit(v, "external") {
            VisionBackend::Anthropic
        } else if eq_lit(v, "off") || eq_lit(v, "none") || eq_lit(v, "0") || eq_lit(v, "false")
            || eq_lit(v, "disabled") {
            VisionBackend::Off
        } else {
            VisionBackend::Auto
        }
    }
}

/// Resolved vision configuration.
#[derive(Debug, Clone)]
pub struct VisionConfig {
    pub backend: VisionBackend,
    /// Ollama base URL, without trailing slashes.
    pub ollama_url: String,
    pub ollama_model: String,
    pub anthropic_key: Option<String>,
    /// The Anthropic model to caption with, when one is configured.
    pub anthropic_model: Option<String>,
}

/// A setting's text, or a default.
pub open spec fn or_default(v: Option<Seq<char>>, d: Seq<char>) -> Seq<char> {
    match v {
        Some(s) => s,
        None => d,
    }
}

/// The characters of an optional string.
pub open spec fn opt_view(v: Option<String>) -> Option<Seq<char>> {
    match v {
        Some(s) => Some(s@),
        None => None,
    }
}

/// The characters of an optional string slice.
pub open spec fn opt_str_view(v: Option<&str>) -> Option<Seq<char>> {
    match v {
        Some(s) => Some(s@),
        None => None,
    }
}

impl VisionConfig {
    /// The configuration given the settings `CEREBRO_VISION_BACKEND`,
    /// `CEREBRO_VISION_URL`, `CEREBRO_VISION_MODEL`, `ANTHROPIC_API_KEY`
    /// and `CEREBRO_VISION_ANTHROPIC_MODEL` (each `None` when unset): the
    /// backend parsed (`Auto` when unset); the URL (default local Ollama)
    /// without trailing slashes; the model (default `moondream`); the key
    /// only when it is not blank; the Anthropic model as given.
    pub fn from_settings(
        backend: Option<&str>,
        url: Option<&str>,
        model: Option<&str>,
        key: Option<&str>,
        anthropic_model: Option<&str>,
    ) -> (r: Self)
        ensures
            r.backend == (match backend {
                Some(b) => backend_spec(b@),
                None => VisionBackend::Auto,
            }),
            r.ollama_url@ == trim_set_end(or_default(opt_str_view(url), DEFAULT_OLLAMA_URL@), seq!['/']),
            r.ollama_model@ == or_default(opt_str_view(model), DEFAULT_OLLAMA_MODEL@),
            opt_view(r.anthropic_key) == (match key {
                Some(k) => if trim(k@).len() > 0 {
                    Some(k@)
                } else {
                    None
                },
                None => None,
            }),
            opt_view(r.anthropic_model) == opt_str_view(anthropic_model),
    {
        let b = match backend {
            Some(s) => VisionBackend::parse(s),
            None => VisionBackend::Auto,
        };
        let u = match url {
            Some(s) => chars_of(s),
            None => chars_of(DEFAULT_OLLAMA_URL),
        };
        let slash = ['/'];
        assert(slash@ =~= seq!['/']);
        let u = trim_set_end_vec(u.as_slice(), &slash);
        let m = match model {
            Some(s) => s.to_string(),
            None => DEFAULT_OLLAMA_MODEL.to_string(),
        };
        let k = match key {
            Some(s) => {
                let c = chars_of(s);
                let t = trim_vec(c.as_slice());
                if t.len() > 0 {
                    Some(s.to_string())
                } else {
                    None
                }
            },
            None => None,
        };
        VisionConfig {
            backend: b,
            ollama_url: string_of(u.as_slice()),
            ollama_model: m,
            anthropic_key: k,
            anthropic_model: match anthropic_model {
                Some(m) => Some(m.to_string()),
                None => None,
            },
        }
    }
}


/// `b` begins with `p`.
pub open spec fn bytes_start_with(b: Seq<u8>, p: Seq<u8>) -> bool {
    p.len() <= b.len() && b.subrange(0, p.len() as int) == p
}

/// The media type of image bytes: by magic bytes (JPEG, PNG, GIF, WebP),
/// else by the path's extension (ASCII case ignored), else `image/png`.
pub open spec fn media_type_spec(b: Seq<u8>, path: Seq<char>) -> Seq<char> {
    if bytes_start_with(b, seq![0xFFu8, 0xD8u8, 0xFFu8]) {
        "image/jpeg"@
    } else if bytes_start_with(b, seq![0x89u8, 0x50u8, 0x4Eu8, 0x47u8]) {
        "image/png"@
    } else if bytes_start_with(b, seq![0x47u8, 0x49u8, 0x46u8, 0x38u8]) {
        "image/gif"@
    } else if b.len() >= 12 && b.subrange(0, 4) == seq![0x52u8, 0x49u8, 0x46u8, 0x46u8]
        && b.subrange(8, 12) == seq![0x57u8, 0x45u8, 0x42u8, 0x50u8] {
        "image/webp"@
    } else {
        match extension(path) {
            Some(e) => {
                let l = ascii_lower_seq(e);
                if l == "jpg"@ || l == "jpeg"@ {
                    "image/jpeg"@
                } else if l == "gif"@ {
                    "image/gif"@
                } else if l == "webp"@ {
                    "image/webp"@
                } else {
                    "image/png"@
                }
            },
            None => "image/png"@,
        }
    }
}

/// Whether `b` holds `p` at `at`.
fn bytes_at(b: &[u8], p: &[u8], at: usize) -> (r: bool)
    requires
        at + p.len() <= b.len(),
    ensures
        r == (b@.subrange(at as int, at + p.len()) == p@),
{
    let mut k: usize = 0;
    while k < p.len()
        invariant
            at + p.len() <= b.len(),
            k <= p.len(),
            forall|j: int| 0 <= j < k ==> b@[at + j] == p@[j],
        decreases p.len() - k,
    {
        if b[at + k] != p[k] {
            assert(b@.subrange(at as int, at + p.len())[k as int] != p@[k as int]);
            return false;
        }
        k = k + 1;
    }
    assert(b@.subrange(at as int, at + p.len()) =~= p@);
    true
}

/// Whether `b` begins with `p`.
fn bytes_prefix(b: &[u8], p: &[u8]) -> (r: bool)
    ensures
        r == bytes_start_with(b@, p@),
{
    if p.len() > b.len() {
        return false;
    }
    bytes_at(b, p, 0)
}

/// Detect an image media type from magic bytes, falling back to the file
/// extension of `path`, then to `image/png`.
pub fn detect_media_type(bytes: &[u8], path: &str) -> (r: String)
    ensures
        r@ == media_type_spec(bytes@, path@),
{
    let jpeg: [u8; 3] = [0xFF, 0xD8, 0xFF];
    let png: [u8; 4] = [0x89, 0x50, 0x4E, 0x47];
    let gif: [u8; 4] = [0x47, 0x49, 0x46, 0x38];
    let riff: [u8; 4] = [0x52, 0x49, 0x46, 0x46];
    let webp: [u8; 4] = [0x57, 0x45, 0x42, 0x50];
    assert(jpeg@ =~= seq![0xFFu8, 0xD8u8, 0xFFu8]);
    assert(png@ =~= seq![0x89u8, 0x50u8, 0x4Eu8, 0x47u8]);
    assert(gif@ =~= seq![0x47u8, 0x49u8, 0x46u8, 0x38u8]);
    assert(riff@ =~= seq![0x52u8, 0x49u8, 0x46u8, 0x46u8]);
    assert(webp@ =~= seq![0x57u8, 0x45u8, 0x42u8, 0x50u8]);
    if bytes_prefix(bytes, &jpeg) {
        return "image/jpeg".to_string();
    }
    if bytes_prefix(bytes, &png) {
        return "image/png".to_string();
    }
    if bytes_prefix(bytes, &gif) {
        return "image/gif".to_string();
    }
    if bytes.len() >= 12 && bytes_at(bytes, &riff, 0) && bytes_at(bytes, &webp, 8) {
        return "image/webp".to_string();
    }
    let p = chars_of(path);
    match extension_of(p.as_slice()) {
        Some(e) => {
            let l = ascii_lowercase(e.as_slice());
            let v = l.as_slice();
            if eq_lit(v, "jpg") || eq_lit(v, "jpeg") {
                "image/jpeg".to_string()
            } else if eq_lit(v, "gif") {
                "image/gif".to_string()
            } else if eq_lit(v, "webp") {
                "image/webp".to_string()
            } else {
                "image/png".to_string()
            }
        },
        None => "image/png".to_string(),
    }
}

/// Why an image could not be prepared or captioned.
#[derive(Debug, Clone, Copy, PartialEq, Eq, Structural)]
pub enum VisionError {
    /// The image payload is not valid base64.
    InvalidBase64,
    /// The image holds no bytes.
    EmptyImage,
    /// The vision backend is switched off.
    Disabled,
    /// The Anthropic transport was chosen but no API key is configured.
    MissingApiKey,
    /// The Anthropic transport was chosen but no model is configured.
    MissingModel,
    /// The backend answered with an empty caption.
    EmptyCaption,
}

impl VisionError {
    /// A human-readable description.
    pub fn message(&self) -> (r: String)
        ensures
            r@ == self.message_spec(),
    {
        match self {
            VisionError::InvalidBase64 => "invalid base64 image data".to_string(),
            VisionError::EmptyImage => "image is empty".to_string(),
            VisionError::Disabled => "vision backend disabled (CEREBRO_VISION_BACKEND=off)".to_string(),
            VisionError::MissingApiKey => "anthropic vision: ANTHROPIC_API_KEY not set".to_string(),
            VisionError::MissingModel => "anthropic vision: CEREBRO_VISION_ANTHROPIC_MODEL not set".to_string(),
            VisionError::EmptyCaption => "the backend returned an empty caption".to_string(),
        }
    }

    pub open spec fn message_spec(&self) -> Seq<char> {
        match self {
            VisionError::InvalidBase64 => "invalid base64 image data"@,
            VisionError::EmptyImage => "image is empty"@,
            VisionError::Disabled => "vision backend disabled (CEREBRO_VISION_BACKEND=off)"@,
            VisionError::MissingApiKey => "anthropic vision: ANTHROPIC_API_KEY not set"@,
            VisionError::MissingModel => "anthropic vision: CEREBRO_VISION_ANTHROPIC_MODEL not set"@,
            VisionError::EmptyCaption => "the backend returned an empty caption"@,
        }
    }
}

/// An image ready to send to a vision model: base64 payload and media type.
#[derive(Debug, Clone)]
pub struct PreparedImage {
    pub b64: String,
    pub media_type: String,
}

impl PreparedImage {
    /// Decode the base64 payload (trimmed) back to the image bytes.
    pub fn decoded(&self) -> (r: Result<Vec<u8>, VisionError>)
        ensures
            match b64_decode(trim(self.b64@)) {
                Some(b) => r is Ok && r->Ok_0@ == b,
                None => r matches Err(VisionError::InvalidBase64),
            },
    {
        let c = chars_of(self.b64.as_str());
        let t = string_of(trim_vec(c.as_slice()).as_slice());
        match decode_b64(t.as_str()) {
            Ok(b) => Ok(b),
            Err(_) => Err(VisionError::InvalidBase64),
        }
    }
}

/// Prepare image bytes read from `path`: refused when empty; otherwise the
/// media type detected from the bytes and path, and the bytes base64-encoded.
pub fn prepare_from_bytes(bytes: &[u8], path: &str) -> (r: Result<PreparedImage, VisionError>)
    requires
        bytes@.len() <= isize::MAX,
    ensures
        bytes@.len() == 0 ==> r matches Err(VisionError::EmptyImage),
        bytes@.len() > 0 ==> r is Ok && r->Ok_0.b64@ == b64_encode(bytes@) && r->Ok_0.media_type@
            == media_type_spec(bytes@, path@) && b64_decode(r->Ok_0.b64@) == Some(bytes@),
{
    if bytes.len() == 0 {
        return Err(VisionError::EmptyImage);
    }
    let media_type = detect_media_type(bytes, path);
    let b64 = encode_b64(bytes);
    Ok(PreparedImage { b64, media_type })
}

/// The media type to use: the hint when it is given and not empty, else the
/// one detected from the bytes (with no path).
pub open spec fn chosen_media_type(hint: Option<Seq<char>>, b: Seq<u8>) -> Seq<char> {
    match hint {
        Some(h) => if h.len() > 0 {
            h
        } else {
            media_type_spec(b, seq![])
        },
        None => media_type_spec(b, seq![]),
    }
}

/// Accept base64 text (already trimmed) given what decoding it gave:
/// refused when it did not decode or decoded to nothing; otherwise the text
/// kept as the payload, with the media type hint or the detected type.
pub fn prepare_decoded(trimmed: &str, bytes_opt: Option<Vec<u8>>, media_type: Option<&str>) -> (r:
    Result<PreparedImage, VisionError>)
    ensures
        bytes_opt is None ==> r matches Err(VisionError::InvalidBase64),
        bytes_opt matches Some(b) ==> (b@.len() == 0 ==> r matches Err(VisionError::EmptyImage)),
        bytes_opt matches Some(b) ==> (b@.len() > 0 ==> r is Ok && r->Ok_0.b64@ == trimmed@
            && r->Ok_0.media_type@ == chosen_media_type(opt_str_view(media_type), b@)),
{
    match bytes_opt {
        None => Err(VisionError::InvalidBase64),
        Some(bytes) => {
            if bytes.len() == 0 {
                return Err(VisionError::EmptyImage);
            }
            proof {
                reveal_strlit("");
            }
            let mt = match media_type {
                Some(m) => {
                    if !m.is_empty() {
                        m.to_string()
                    } else {
                        detect_media_type(bytes.as_slice(), "")
                    }
                },
                None => detect_media_type(bytes.as_slice(), ""),
            };
            Ok(PreparedImage { b64: trimmed.to_string(), media_type: mt })
        },
    }
}

/// Accept caller-supplied base64 (validating that it decodes), with an
/// optional media-type hint; the type is detected from the bytes when no
/// hint is given.
pub fn prepare_from_b64(b64: &str, media_type: Option<&str>) -> (r: Result<
    PreparedImage,
    VisionError,
>)
    ensures
        match b64_decode(trim(b64@)) {
            None => r matches Err(VisionError::InvalidBase64),
            Some(b) => if b.len() == 0 {
                r matches Err(VisionError::EmptyImage)
            } else {
                r is Ok && r->Ok_0.b64@ == trim(b64@) && r->Ok_0.media_type@ == chosen_media_type(
                    opt_str_view(media_type),
                    b,
                )
            },
        },
{
    let c = chars_of(b64);
    let t = string_of(trim_vec(c.as_slice()).as_slice());
    let decoded = match decode_b64(t.as_str()) {
        Ok(b) => Some(b),
        Err(_) => None,
    };
    prepare_decoded(t.as_str(), decoded, media_type)
}

/// Preparing an image from its bytes and re-preparing it from the base64
/// payload so made (with no hint) gives the same payload and media type,
/// provided no path extension decided the type.
pub proof fn law_prepared_image_roundtrip(bytes: Seq<u8>, b64: Seq<char>)
    requires
        bytes.len() > 0,
        b64_decode(b64) == Some(bytes),
        forall|i: int| 0 <= i < b64.len() ==> is_b64_symbol(#[trigger] b64[i]),
    ensures
        trim(b64) == b64,
        b64_decode(trim(b64)) == Some(bytes),
        chosen_media_type(None, bytes) == media_type_spec(bytes, seq![]),
{
    lemma_trim_no_ws(b64);
}

/// Text without whitespace characters is its own trim.
proof fn lemma_trim_no_ws(s: Seq<char>)
    requires
        forall|i: int| 0 <= i < s.len() ==> is_b64_symbol(#[trigger] s[i]),
    ensures
        trim(s) == s,
{
    if s.len() > 0 {
        assert(is_b64_symbol(s[0]));
        assert(is_b64_symbol(s.last()));
    }
    assert(crate::text::trim_start(s) == s);
    assert(crate::text::trim_end(s) == s);
}


/// A produced caption and its provenance (which backend and model answered).
#[derive(Debug, Clone)]
pub struct Caption {
    pub text: String,
    pub backend: &'static str,
    pub model: String,
}

/// The captioning instruction: the caller's prompt, trimmed, unless it is
/// missing or blank; then the default instruction.
pub fn choose_prompt(prompt: Option<&str>) -> (r: String)
    ensures
        r@ == (match prompt {
            Some(p) => if trim(p@).len() > 0 {
                trim(p@)
            } else {
                DEFAULT_PROMPT@
            },
            None => DEFAULT_PROMPT@,
        }),
{
    match prompt {
        Some(p) => {
            let c = chars_of(p);
            let t = trim_vec(c.as_slice());
            if t.len() > 0 {
                string_of(t.as_slice())
            } else {
                DEFAULT_PROMPT.to_string()
            }
        },
        None => DEFAULT_PROMPT.to_string(),
    }
}

/// Accept the text a backend answered as a caption: trimmed, and refused
/// when nothing is left.
pub fn caption_from_reply(text: &str, backend: &'static str, model: &str) -> (r: Result<
    Caption,
    VisionError,
>)
    ensures
        trim(text@).len() == 0 ==> r matches Err(VisionError::EmptyCaption),
        trim(text@).len() > 0 ==> r is Ok && r->Ok_0.text@ == trim(text@) && r->Ok_0.backend
            == backend && r->Ok_0.model@ == model@,
{
    let c = chars_of(text);
    let t = trim_vec(c.as_slice());
    if t.len() == 0 {
        return Err(VisionError::EmptyCaption);
    }
    Ok(Caption { text: string_of(t.as_slice()), backend, model: model.to_string() })
}

/// A transport a caption can be asked of.
#[derive(Debug, Clone, Copy, PartialEq, Eq, Structural)]
pub enum Transport {
    Ollama,
    Anthropic,
}

/// The first transport to ask under a backend setting; `None` when vision
/// is off.
pub fn first_transport(backend: VisionBackend) -> (r: Option<Transport>)
    ensures
        r == (match backend {
            VisionBackend::Off => None,
            VisionBackend::Anthropic => Some(Transport::Anthropic),
            _ => Some(Transport::Ollama),
        }),
{
    match backend {
        VisionBackend::Off => None,
        VisionBackend::Anthropic => Some(Transport::Anthropic),
        _ => Some(Transport::Ollama),
    }
}

/// The transport to ask after `failed` failed: only `Auto` falls back, from
/// Ollama to Anthropic, and only when an API key is configured.
pub fn fallback_transport(backend: VisionBackend, failed: Transport, has_key: bool) -> (r: Option<
    Transport,
>)
    ensures
        r == (if backend == VisionBackend::Auto && failed == Transport::Ollama && has_key {
            Some(Transport::Anthropic)
        } else {
            None
        }),
{
    if backend == VisionBackend::Auto && failed == Transport::Ollama && has_key {
        Some(Transport::Anthropic)
    } else {
        None
    }
}

/// Whether a transport can be asked under a configuration: Anthropic needs
/// an API key, then a model.
pub fn transport_ready(cfg: &VisionConfig, t: Transport) -> (r: Result<(), VisionError>)
    ensures
        r == (if t == Transport::Anthropic && cfg.anthropic_key is None {
            Err::<(), VisionError>(VisionError::MissingApiKey)
        } else if t == Transport::Anthropic && cfg.anthropic_model is None {
            Err::<(), VisionError>(VisionError::MissingModel)
        } else {
            Ok(())
        }),
{
    if t == Transport::Anthropic && cfg.anthropic_key.is_none() {
        Err(VisionError::MissingApiKey)
    } else if t == Transport::Anthropic && cfg.anthropic_model.is_none() {
        Err(VisionError::MissingModel)
    } else {
        Ok(())
    }
}

} // verus!

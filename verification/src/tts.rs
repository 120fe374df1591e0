//! Text-to-speech engines: choosing one, checking what a cloud engine needs
//! before a request, and the messages for failed requests.

use vstd::prelude::*;
use vstd::utf8::{decode_utf8, encode_utf8, is_char_boundary};
use crate::http::{is_success, status_line, status_text};
use crate::settings::{Provider, usable_key};
use crate::text::{concat_str, is_blank, lemma_trimmed_empty, push_char, to_string, trim, trimmed};

verus! {

/// A short probe used by the "Test voice" button.
pub const SAMPLE_TEXT: &'static str =
    "This is a test of Read Selected Text. Selected text will be read to you like this.";

/// OpenAI text-to-speech endpoint.
pub const OPENAI_ENDPOINT: &'static str = "https://api.openai.com/v1/audio/speech";

/// How much of an error response body goes into a message, in bytes.
pub const ERROR_BODY_LIMIT: usize = 300;

/// The engine that speaks for a provider.
#[derive(Debug, Clone, Copy, PartialEq, Eq, Structural)]
pub enum Engine {
    /// Cloud synthesis, returns encoded audio.
    OpenAi,
    /// Cloud synthesis, returns encoded audio.
    ElevenLabs,
    /// Local neural synthesis, returns WAV audio.
    Piper,
    /// The operating system's own voice, speaking in a child process.
    SystemVoice,
}

/// The engine for each provider that the app itself drives.
pub open spec fn engine_of(p: Provider) -> Option<Engine> {
    match p {
        Provider::Openai => Some(Engine::OpenAi),
        Provider::Elevenlabs => Some(Engine::ElevenLabs),
        Provider::Piper => Some(Engine::Piper),
        Provider::Local => Some(Engine::SystemVoice),
        Provider::Kokoro => None,
    }
}

/// Message for the provider that speaks in the settings window only.
pub open spec fn kokoro_message() -> Seq<char> {
    "The Kokoro voice plays in the settings window only."@
}

/// Choose the engine that synthesises speech for `provider`. Kokoro runs in
/// the settings window, so the app cannot speak with it.
pub fn engine_for(provider: Provider) -> (r: Result<Engine, String>)
    ensures
        match engine_of(provider) {
            Some(e) => r == Ok::<Engine, String>(e),
            None => r matches Err(m) && m@ == kokoro_message(),
        },
{
    match provider {
        Provider::Openai => Ok(Engine::OpenAi),
        Provider::Elevenlabs => Ok(Engine::ElevenLabs),
        Provider::Piper => Ok(Engine::Piper),
        Provider::Local => Ok(Engine::SystemVoice),
        Provider::Kokoro => Err(to_string("The Kokoro voice plays in the settings window only.")),
    }
}

/// The first `max` bytes of `s`, followed by `…`, when `s` is longer than
/// `max` bytes; otherwise `s`.
pub open spec fn truncated(s: Seq<char>, max: int) -> Seq<char> {
    let b = encode_utf8(s);
    if b.len() <= max {
        s
    } else {
        decode_utf8(b.subrange(0, max)) + seq!['…']
    }
}

/// Whether `truncate(s, max)` can cut `s` there: `s` is short enough, or byte
/// `max` starts a character.
pub open spec fn can_truncate(s: Seq<char>, max: int) -> bool {
    encode_utf8(s).len() <= max || is_char_boundary(encode_utf8(s), max)
}

/// Shorten `s` to its first `max` bytes, marking the cut with `…`.
pub fn truncate(s: &str, max: usize) -> (r: String)
    requires
        can_truncate(s@, max as int),
    ensures
        r@ == truncated(s@, max as int),
        // The message part is at most `max` bytes and the three-byte mark.
        encode_utf8(r@).len() <= max + 3,
{
    if s.as_bytes().len() <= max {
        to_string(s)
    } else {
        let (head, _tail) = s.split_at(max);
        proof {
            vstd::utf8::encode_utf8_decode_utf8(head@);
            assert(encode_utf8(head@) == encode_utf8(s@).subrange(0, max as int));
            assert(head@ == decode_utf8(encode_utf8(s@).subrange(0, max as int)));
        }
        let mut r = to_string(head);
        push_char(&mut r, '…');
        proof {
            lemma_encode_concat(head@, seq!['…']);
            assert(r@ =~= head@ + seq!['…']);
            let e = seq!['…'];
            assert(e.drop_first() =~= Seq::<char>::empty());
            assert(e[0] as u32 == 0x2026u32);
            assert(vstd::utf8::has_width_3_encoding(e[0] as u32));
            assert(encode_utf8(e) == vstd::utf8::encode_scalar(e[0] as u32) + encode_utf8(e.drop_first()));
            assert(encode_utf8(e).len() == 3);
        }
        r
    }
}

/// Encoding a concatenation encodes each part in turn.
pub proof fn lemma_encode_concat(a: Seq<char>, b: Seq<char>)
    ensures
        encode_utf8(a + b) == encode_utf8(a) + encode_utf8(b),
    decreases a.len(),
{
    if a.len() > 0 {
        lemma_encode_concat(a.drop_first(), b);
        assert((a + b).drop_first() =~= a.drop_first() + b);
        assert((a + b)[0] == a[0]);
        assert(encode_utf8(a + b) =~= encode_utf8(a) + encode_utf8(b));
    } else {
        assert(a + b =~= b);
        assert(encode_utf8(a) + encode_utf8(b) =~= encode_utf8(b));
    }
}

/// Message for a cloud request that came back with a failure status:
/// `<service> error <status>: <body, shortened>`.
pub open spec fn api_error_message(service: Seq<char>, code: u16, body: Seq<char>) -> Seq<char> {
    service + " error "@ + status_line(code) + ": "@ + truncated(body, ERROR_BODY_LIMIT as int)
}

/// Whether a cloud response status means the audio follows.
pub fn response_ok(code: u16) -> (r: bool)
    ensures
        r == (200 <= code < 300),
{
    is_success(code)
}

/// The error for a cloud request that failed with status `code` and response
/// text `body`.
pub fn api_error(service: &str, code: u16, body: &str) -> (r: String)
    requires
        100 <= code <= 999,
        can_truncate(body@, ERROR_BODY_LIMIT as int),
    ensures
        r@ == api_error_message(service@, code, body@),
{
    let mut r = concat_str(service, " error ");
    let status = status_text(code);
    r.append(status.as_str());
    r.append(": ");
    let short = truncate(body, ERROR_BODY_LIMIT);
    r.append(short.as_str());
    r
}

/// The key to send, from what the keychain gave back: a stored key that is
/// not blank, used as stored.
fn key_or(stored: Option<String>, missing: &str) -> (r: Result<String, String>)
    ensures
        usable_key(stored) ==> r == Ok::<String, String>(stored->0),
        !usable_key(stored) ==> (r matches Err(e) && e@ == missing@),
{
    match stored {
        Some(k) => {
            let t = trim(k.as_str());
            proof {
                lemma_trimmed_empty(k@);
            }
            if t.is_empty() {
                Err(to_string(missing))
            } else {
                Ok(k)
            }
        },
        None => Err(to_string(missing)),
    }
}

/// The OpenAI key to send, from the stored key: a stored key that is not
/// blank; otherwise the request is refused before it is made.
pub fn openai_key(stored: Option<String>) -> (r: Result<String, String>)
    ensures
        usable_key(stored) ==> r == Ok::<String, String>(stored->0),
        !usable_key(stored) ==> (r matches Err(e) && e@
            == "No OpenAI API key set. Add one in settings."@),
{
    key_or(stored, "No OpenAI API key set. Add one in settings.")
}

/// The ElevenLabs endpoint for a voice.
pub open spec fn elevenlabs_url(voice_id: Seq<char>) -> Seq<char> {
    "https://api.elevenlabs.io/v1/text-to-speech/"@ + voice_id + "?output_format=mp3_44100_128"@
}

/// The key and URL of an ElevenLabs request, from the stored key and the
/// voice id in the settings. A missing key is reported first, then a blank
/// voice id; the voice id goes into the URL without surrounding white space.
pub fn elevenlabs_request(stored: Option<String>, voice_id: &str) -> (r: Result<(String, String), String>)
    ensures
        !usable_key(stored) ==> (r matches Err(e) && e@
            == "No ElevenLabs API key set. Add one in settings."@),
        usable_key(stored) && is_blank(voice_id@) ==> (r matches Err(e) && e@
            == "No ElevenLabs voice ID set. Add one in settings."@),
        usable_key(stored) && !is_blank(voice_id@) ==> (r matches Ok((k, url)) && k == stored->0
            && url@ == elevenlabs_url(trimmed(voice_id@))),
{
    let key = key_or(stored, "No ElevenLabs API key set. Add one in settings.")?;
    let id = trim(voice_id);
    proof {
        lemma_trimmed_empty(voice_id@);
    }
    if id.is_empty() {
        return Err(to_string("No ElevenLabs voice ID set. Add one in settings."));
    }
    let mut url = concat_str("https://api.elevenlabs.io/v1/text-to-speech/", id);
    url.append("?output_format=mp3_44100_128");
    Ok((key, url))
}

} // verus!

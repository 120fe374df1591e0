//! User settings and the rules for API-key storage.
//!
//! Keys are kept in the operating system's keychain. The library decides which
//! keychain account belongs to which provider, what a stored key means, and
//! what saving a key does; the keychain access itself is handed in by the
//! caller as closures.

use vstd::prelude::*;
use crate::text::{
    concat_str, is_blank, trim, trimmed, lemma_trimmed_empty, lemma_trimmed_not_blank, to_string,
};

verus! {

/// Which text-to-speech engine to use.
#[derive(Debug, Clone, Copy, PartialEq, Eq, Structural)]
pub enum Provider {
    Openai,
    Elevenlabs,
    /// Free, offline, neural local voice (downloaded on first use).
    Piper,
    /// Free neural voice that runs in the webview (beta).
    Kokoro,
    /// Built-in operating-system voice.
    Local,
}

/// Keychain account name that holds a provider's key, if the provider takes one.
pub open spec fn key_account_of(p: Provider) -> Option<&'static str> {
    match p {
        Provider::Openai => Some("openai_api_key"),
        Provider::Elevenlabs => Some("elevenlabs_api_key"),
        _ => None,
    }
}

impl Provider {
    /// Keychain account name used to store this provider's key.
    pub fn key_account(self) -> (r: Option<&'static str>)
        ensures
            r == key_account_of(self),
    {
        match self {
            Provider::Openai => Some("openai_api_key"),
            Provider::Elevenlabs => Some("elevenlabs_api_key"),
            Provider::Piper | Provider::Kokoro | Provider::Local => None,
        }
    }
}

impl Default for Provider {
    fn default() -> (r: Self)
        ensures
            r == Provider::Openai,
    {
        Provider::Openai
    }
}

/// The bit pattern of the default playback speed, `1.0_f32`.
pub const DEFAULT_SPEED_BITS: u32 = 0x3f80_0000u32;

/// Persistent user settings.
pub struct Settings {
    /// Active TTS engine.
    pub provider: Provider,
    /// Global hotkey that reads the current selection, as a Tauri accelerator.
    pub read_hotkey: String,
    /// Global hotkey that stops playback.
    pub stop_hotkey: String,
    /// Restore the user's previous clipboard contents after capturing selection.
    pub restore_clipboard: bool,
    /// Playback speed multiplier, held as the bit pattern of an `f32`
    /// (`f32::to_bits`). The library carries it unchanged; the engines that
    /// scale by it read it back with `f32::from_bits`.
    pub speed_bits: u32,
    /// Launch the app automatically at login.
    pub launch_at_startup: bool,
    pub openai_model: String,
    pub openai_voice: String,
    pub elevenlabs_model: String,
    pub elevenlabs_voice_id: String,
    /// Piper voice key, e.g. `en_US-amy-medium`.
    pub piper_voice: String,
    /// Kokoro voice id, e.g. `af_heart`.
    pub kokoro_voice: String,
    /// Model precision: fp32 | fp16 | q8 | q4 | q4f16.
    pub kokoro_dtype: String,
    /// Platform-specific voice identifier/name (empty = system default).
    pub local_voice: String,
    /// Words-per-minute-ish rate for the local voice (platform dependent).
    pub local_rate: i32,
}

impl Clone for Settings {
    fn clone(&self) -> (r: Self)
        ensures
            r == *self,
    {
        Settings {
            provider: self.provider,
            read_hotkey: self.read_hotkey.clone(),
            stop_hotkey: self.stop_hotkey.clone(),
            restore_clipboard: self.restore_clipboard,
            speed_bits: self.speed_bits,
            launch_at_startup: self.launch_at_startup,
            openai_model: self.openai_model.clone(),
            openai_voice: self.openai_voice.clone(),
            elevenlabs_model: self.elevenlabs_model.clone(),
            elevenlabs_voice_id: self.elevenlabs_voice_id.clone(),
            piper_voice: self.piper_voice.clone(),
            kokoro_voice: self.kokoro_voice.clone(),
            kokoro_dtype: self.kokoro_dtype.clone(),
            local_voice: self.local_voice.clone(),
            local_rate: self.local_rate,
        }
    }
}

/// What the default settings hold.
pub open spec fn is_default_settings(s: Settings) -> bool {
    &&& s.provider == Provider::Openai
    &&& s.read_hotkey@ == "CmdOrControl+Alt+R"@
    &&& s.stop_hotkey@ == "CmdOrControl+Alt+S"@
    &&& s.restore_clipboard
    &&& s.speed_bits == DEFAULT_SPEED_BITS
    &&& !s.launch_at_startup
    &&& s.openai_model@ == "gpt-4o-mini-tts"@
    &&& s.openai_voice@ == "alloy"@
    &&& s.elevenlabs_model@ == "eleven_multilingual_v2"@
    &&& s.elevenlabs_voice_id@ == "21m00Tcm4TlvDq8ikWAM"@
    &&& s.piper_voice@ == "en_US-amy-medium"@
    &&& s.kokoro_voice@ == "af_heart"@
    &&& s.kokoro_dtype@ == "q8"@
    &&& s.local_voice@ == Seq::<char>::empty()
    &&& s.local_rate == 0
}

impl Default for Settings {
    fn default() -> (r: Self)
        ensures
            is_default_settings(r),
    {
        Settings {
            provider: Provider::Openai,
            read_hotkey: to_string("CmdOrControl+Alt+R"),
            stop_hotkey: to_string("CmdOrControl+Alt+S"),
            restore_clipboard: true,
            speed_bits: DEFAULT_SPEED_BITS,
            launch_at_startup: false,
            openai_model: to_string("gpt-4o-mini-tts"),
            openai_voice: to_string("alloy"),
            elevenlabs_model: to_string("eleven_multilingual_v2"),
            // "Rachel"
            elevenlabs_voice_id: to_string("21m00Tcm4TlvDq8ikWAM"),
            piper_voice: to_string("en_US-amy-medium"),
            kokoro_voice: to_string("af_heart"),
            kokoro_dtype: to_string("q8"),
            local_voice: String::new(),
            local_rate: 0,
        }
    }
}

/// Whether a stored key counts as present: it exists and is not blank.
pub open spec fn usable_key(k: Option<String>) -> bool {
    match k {
        Some(s) => !is_blank(s@),
        None => false,
    }
}

/// `r` is what `get_api_key` gives back: nothing for a provider without a
/// key account, otherwise the answer of `read` for that account.
pub open spec fn got_api_key<F: Fn(&'static str) -> Option<String>>(
    provider: Provider,
    read: F,
    r: Option<String>,
) -> bool {
    match key_account_of(provider) {
        None => r is None,
        Some(a) => call_ensures(read, (a,), r),
    }
}

/// Retrieve a provider's API key from the keychain, if present.
///
/// `read` looks up a keychain account and gives back the password stored
/// there, or `None` where the lookup fails. It is called only for providers
/// that take a key, with that provider's account, and its answer is returned.
pub fn get_api_key<F: Fn(&'static str) -> Option<String>>(provider: Provider, read: F) -> (r:
    Option<String>)
    requires
        key_account_of(provider) matches Some(a) ==> call_requires(read, (a,)),
    ensures
        got_api_key(provider, read, r),
{
    match provider.key_account() {
        None => None,
        Some(account) => read(account),
    }
}

/// Whether a key is stored for the provider (always true for providers that
/// need none).
///
/// For a provider with a key account, `read` is called once with that account
/// and the answer counts when it holds a key that is not blank.
pub fn has_api_key<F: Fn(&'static str) -> Option<String>>(provider: Provider, read: F) -> (r: bool)
    requires
        key_account_of(provider) matches Some(a) ==> call_requires(read, (a,)),
    ensures
        match key_account_of(provider) {
            None => r,
            Some(a) => exists|k: Option<String>| call_ensures(read, (a,), k) && r == usable_key(k),
        },
{
    match provider {
        Provider::Piper | Provider::Kokoro | Provider::Local => true,
        _ => {
            let k = get_api_key(provider, read);
            let r = match &k {
                Some(s) => {
                    let t = trim(s.as_str());
                    proof {
                        lemma_trimmed_empty(s@);
                    }
                    !t.is_empty()
                },
                None => false,
            };
            assert(r == usable_key(k));
            r
        },
    }
}

/// What a keychain operation gave back: `Err` when the account's entry could
/// not be opened, otherwise the outcome of the operation on it.
pub type KeychainOutcome = Result<Result<(), String>, String>;

/// `r` is what `set_api_key` gives back for `key`: success for a provider
/// without a key account; otherwise what clearing (for a blank key) or
/// storing the trimmed key gave, with the failure messages of the keychain.
pub open spec fn set_api_key_done<
    C: FnOnce(&'static str) -> KeychainOutcome,
    S: FnOnce(&'static str, String) -> KeychainOutcome,
>(provider: Provider, key: Seq<char>, clear: C, store: S, r: Result<(), String>) -> bool {
    match key_account_of(provider) {
        None => r == Ok::<(), String>(()),
        Some(a) => if is_blank(key) {
            exists|o: KeychainOutcome|
                call_ensures(clear, (a,), o) && match o {
                    Err(e) => r matches Err(m) && m@ == "keychain: "@ + e@,
                    Ok(_) => r == Ok::<(), String>(()),
                }
        } else {
            exists|t: String, o: KeychainOutcome|
                t@ == trimmed(key) && call_ensures(store, (a, t), o) && match o {
                    Err(e) => r matches Err(m) && m@ == "keychain: "@ + e@,
                    Ok(Err(e)) => r matches Err(m) && m@ == "save key: "@ + e@,
                    Ok(Ok(())) => r == Ok::<(), String>(()),
                }
        },
    }
}

/// Store (or clear, if `key` is blank) a provider's API key in the keychain.
///
/// Providers without a key account leave the keychain alone and succeed. For
/// the others, a blank `key` calls `clear` with the account and a non-blank
/// one calls `store` with the account and the key with surrounding white
/// space removed. An entry that cannot be opened fails with
/// `keychain: <reason>`; a failed store with `save key: <reason>`; a failed
/// deletion (for example of a key that was never stored) is ignored.
pub fn set_api_key<
    C: FnOnce(&'static str) -> KeychainOutcome,
    S: FnOnce(&'static str, String) -> KeychainOutcome,
>(provider: Provider, key: &str, clear: C, store: S) -> (r: Result<(), String>)
    requires
        key_account_of(provider) matches Some(a) ==> {
            &&& call_requires(clear, (a,))
            &&& forall|t: String| call_requires(store, (a, t))
        },
    ensures
        set_api_key_done(provider, key@, clear, store, r),
{
    let account = match provider.key_account() {
        Some(a) => a,
        None => return Ok(()),
    };
    let t = trim(key);
    proof {
        lemma_trimmed_empty(key@);
    }
    if t.is_empty() {
        match clear(account) {
            Err(e) => Err(concat_str("keychain: ", e.as_str())),
            Ok(_) => Ok(()),
        }
    } else {
        match store(account, to_string(t)) {
            Err(e) => Err(concat_str("keychain: ", e.as_str())),
            Ok(Err(e)) => Err(concat_str("save key: ", e.as_str())),
            Ok(Ok(())) => Ok(()),
        }
    }
}

/// A key saved with `set_api_key` counts as present when the keychain gives
/// it back: a key that is not blank is stored trimmed, and the trimmed key is
/// still not blank.
pub proof fn law_saved_key_is_present(key: Seq<char>, stored: String)
    requires
        !is_blank(key),
        stored@ == trimmed(key),
    ensures
        usable_key(Some(stored)),
{
    lemma_trimmed_not_blank(key);
}


/// The keychain gives back what was last written to an account: after a
/// store that succeeded, reading finds the stored text; after a clear whose
/// entry opened (the deletion succeeded, or there was nothing to delete),
/// reading finds nothing.
pub open spec fn keychain_reads_back<
    C: FnOnce(&'static str) -> KeychainOutcome,
    S: FnOnce(&'static str, String) -> KeychainOutcome,
    F: Fn(&'static str) -> Option<String>,
>(account: &'static str, clear: C, store: S, read: F) -> bool {
    &&& forall|t: String, o: KeychainOutcome, k: Option<String>|
        #![trigger call_ensures(store, (account, t), o), call_ensures(read, (account,), k)]
        call_ensures(store, (account, t), o) && o == Ok::<Result<(), String>, String>(Ok(()))
            && call_ensures(read, (account,), k) ==> (k matches Some(s) && s@ == t@)
    &&& forall|o: KeychainOutcome, k: Option<String>|
        #![trigger call_ensures(clear, (account,), o), call_ensures(read, (account,), k)]
        call_ensures(clear, (account,), o) && o is Ok && call_ensures(read, (account,), k)
            ==> k is None
}

/// A key saved with `set_api_key` is what `get_api_key` gives back: the key
/// without surrounding white space, or nothing when it was blank, provided
/// the keychain gives back what was last written to the account.
pub proof fn law_saved_key_reads_back<
    C: FnOnce(&'static str) -> KeychainOutcome,
    S: FnOnce(&'static str, String) -> KeychainOutcome,
    F: Fn(&'static str) -> Option<String>,
>(
    provider: Provider,
    key: Seq<char>,
    clear: C,
    store: S,
    read: F,
    r: Result<(), String>,
    got: Option<String>,
)
    requires
        key_account_of(provider) is Some,
        set_api_key_done(provider, key, clear, store, r),
        r is Ok,
        got_api_key(provider, read, got),
        keychain_reads_back(key_account_of(provider)->0, clear, store, read),
    ensures
        is_blank(key) ==> got is None,
        !is_blank(key) ==> (got matches Some(s) && s@ == trimmed(key)),
{
    let a = key_account_of(provider)->0;
    if is_blank(key) {
        let o = choose|o: KeychainOutcome|
            call_ensures(clear, (a,), o) && match o {
                Err(e) => r matches Err(m) && m@ == "keychain: "@ + e@,
                Ok(_) => r == Ok::<(), String>(()),
            };
        assert(o is Ok);
        assert(call_ensures(clear, (a,), o) && call_ensures(read, (a,), got));
    } else {
        let (t, o) = choose|t: String, o: KeychainOutcome|
            t@ == trimmed(key) && call_ensures(store, (a, t), o) && match o {
                Err(e) => r matches Err(m) && m@ == "keychain: "@ + e@,
                Ok(Err(e)) => r matches Err(m) && m@ == "save key: "@ + e@,
                Ok(Ok(())) => r == Ok::<(), String>(()),
            };
        match o {
            Ok(Ok(u)) => {
                assert(o == Ok::<Result<(), String>, String>(Ok(())));
            },
            Ok(Err(e)) => {
                assert(false);
            },
            Err(e) => {
                assert(false);
            },
        }
        assert(call_ensures(store, (a, t), o) && call_ensures(read, (a,), got));
    }
}

} // verus!

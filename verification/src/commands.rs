//! What the settings window's commands compute.

use vstd::prelude::*;
use crate::settings::{Provider, has_api_key, usable_key};
use crate::text::{concat_str, str_eq};

verus! {

/// The provider a settings-window name stands for.
pub open spec fn provider_named(s: Seq<char>) -> Option<Provider> {
    if s == "openai"@ {
        Some(Provider::Openai)
    } else if s == "elevenlabs"@ {
        Some(Provider::Elevenlabs)
    } else if s == "local"@ {
        Some(Provider::Local)
    } else {
        None
    }
}

/// Read a provider name sent by the settings window. Only the providers
/// whose keys the window manages are named this way.
pub fn parse_provider(s: &str) -> (r: Result<Provider, String>)
    ensures
        match provider_named(s@) {
            Some(p) => r == Ok::<Provider, String>(p),
            None => r matches Err(e) && e@ == "unknown provider: "@ + s@,
        },
{
    if str_eq(s, "openai") {
        Ok(Provider::Openai)
    } else if str_eq(s, "elevenlabs") {
        Ok(Provider::Elevenlabs)
    } else if str_eq(s, "local") {
        Ok(Provider::Local)
    } else {
        Err(concat_str("unknown provider: ", s))
    }
}

/// Which cloud providers have a key stored.
pub struct ProviderStatus {
    pub has_openai: bool,
    pub has_elevenlabs: bool,
}

/// Whether each cloud provider has a key stored, reading the keychain with
/// `read` once per provider.
pub fn provider_status<F: Fn(&'static str) -> Option<String>>(read: F) -> (r: ProviderStatus)
    requires
        forall|a: &'static str| call_requires(read, (a,)),
    ensures
        exists|k: Option<String>|
            call_ensures(read, ("openai_api_key",), k) && r.has_openai == usable_key(k),
        exists|k: Option<String>|
            call_ensures(read, ("elevenlabs_api_key",), k) && r.has_elevenlabs == usable_key(k),
{
    let has_openai = has_api_key(Provider::Openai, &read);
    let has_elevenlabs = has_api_key(Provider::Elevenlabs, &read);
    ProviderStatus { has_openai, has_elevenlabs }
}

} // verus!

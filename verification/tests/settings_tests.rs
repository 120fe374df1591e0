use std::cell::RefCell;

use read_selected_text::commands::{parse_provider, provider_status};
use read_selected_text::paths::{base_dir, data_dirs, voice_location, DirKind};
use read_selected_text::platform::Os;
use read_selected_text::settings::{get_api_key, has_api_key, set_api_key, Provider, Settings};

#[test]
fn key_accounts_belong_to_cloud_providers() {
    assert_eq!(Provider::Openai.key_account(), Some("openai_api_key"));
    assert_eq!(Provider::Elevenlabs.key_account(), Some("elevenlabs_api_key"));
    assert_eq!(Provider::Piper.key_account(), None);
    assert_eq!(Provider::Kokoro.key_account(), None);
    assert_eq!(Provider::Local.key_account(), None);
}

#[test]
fn default_settings() {
    let s = Settings::default();
    assert_eq!(s.provider, Provider::Openai);
    assert_eq!(Provider::default(), Provider::Openai);
    assert_eq!(s.read_hotkey, "CmdOrControl+Alt+R");
    assert_eq!(s.stop_hotkey, "CmdOrControl+Alt+S");
    assert!(s.restore_clipboard);
    assert_eq!(f32::from_bits(s.speed_bits), 1.0f32);
    assert!(!s.launch_at_startup);
    assert_eq!(s.openai_model, "gpt-4o-mini-tts");
    assert_eq!(s.openai_voice, "alloy");
    assert_eq!(s.elevenlabs_model, "eleven_multilingual_v2");
    assert_eq!(s.elevenlabs_voice_id, "21m00Tcm4TlvDq8ikWAM");
    assert_eq!(s.piper_voice, "en_US-amy-medium");
    assert_eq!(s.kokoro_voice, "af_heart");
    assert_eq!(s.kokoro_dtype, "q8");
    assert_eq!(s.local_voice, "");
    assert_eq!(s.local_rate, 0);
}

#[test]
fn get_api_key_reads_the_provider_account() {
    let asked = RefCell::new(Vec::new());
    let read = |a: &'static str| {
        asked.borrow_mut().push(a);
        Some(format!("key-for-{a}"))
    };
    assert_eq!(get_api_key(Provider::Elevenlabs, &read), Some("key-for-elevenlabs_api_key".to_string()));
    assert_eq!(get_api_key(Provider::Local, &read), None);
    assert_eq!(*asked.borrow(), vec!["elevenlabs_api_key"]);
}

#[test]
fn has_api_key_needs_a_non_blank_key() {
    assert!(has_api_key(Provider::Openai, |_| Some("sk-123".to_string())));
    assert!(!has_api_key(Provider::Openai, |_| Some(" \t\n".to_string())));
    assert!(!has_api_key(Provider::Openai, |_| Some(String::new())));
    assert!(!has_api_key(Provider::Elevenlabs, |_| None));
}

#[test]
fn providers_without_keys_always_have_one() {
    let read = |_: &'static str| -> Option<String> { panic!("keychain must not be read") };
    assert!(has_api_key(Provider::Local, read));
    assert!(has_api_key(Provider::Piper, read));
    assert!(has_api_key(Provider::Kokoro, read));
}

#[test]
fn set_api_key_stores_the_trimmed_key() {
    let stored = RefCell::new(None);
    let r = set_api_key(
        Provider::Openai,
        "  sk-abc \n",
        |_| panic!("must not clear"),
        |a, k| {
            *stored.borrow_mut() = Some((a, k));
            Ok(Ok(()))
        },
    );
    assert_eq!(r, Ok(()));
    assert_eq!(*stored.borrow(), Some(("openai_api_key", "sk-abc".to_string())));
}

#[test]
fn set_api_key_clears_on_blank_key() {
    let cleared = RefCell::new(None);
    let r = set_api_key(
        Provider::Elevenlabs,
        "   ",
        |a| {
            *cleared.borrow_mut() = Some(a);
            Ok(Ok(()))
        },
        |_, _| panic!("must not store"),
    );
    assert_eq!(r, Ok(()));
    assert_eq!(*cleared.borrow(), Some("elevenlabs_api_key"));
}

#[test]
fn set_api_key_passes_on_keychain_errors() {
    let r = set_api_key(Provider::Openai, "k", |_| Ok(Ok(())), |_, _| Ok(Err("denied".to_string())));
    assert_eq!(r, Err("save key: denied".to_string()));
    let r = set_api_key(Provider::Openai, "k", |_| Ok(Ok(())), |_, _| Err("no service".to_string()));
    assert_eq!(r, Err("keychain: no service".to_string()));
    let r = set_api_key(Provider::Openai, "", |_| Err("locked".to_string()), |_, _| Ok(Ok(())));
    assert_eq!(r, Err("keychain: locked".to_string()));
}

#[test]
fn clearing_succeeds_when_nothing_was_stored() {
    let r = set_api_key(
        Provider::Elevenlabs,
        " \t",
        |_| Ok(Err("no entry found".to_string())),
        |_, _| panic!("must not store"),
    );
    assert_eq!(r, Ok(()));
}

#[test]
fn set_api_key_ignores_keyless_providers() {
    let r = set_api_key(Provider::Local, "whatever", |_| panic!("no"), |_, _| panic!("no"));
    assert_eq!(r, Ok(()));
}

#[test]
fn parse_provider_names() {
    assert_eq!(parse_provider("openai"), Ok(Provider::Openai));
    assert_eq!(parse_provider("elevenlabs"), Ok(Provider::Elevenlabs));
    assert_eq!(parse_provider("local"), Ok(Provider::Local));
    assert_eq!(parse_provider("piper"), Err("unknown provider: piper".to_string()));
    assert_eq!(parse_provider("OpenAI"), Err("unknown provider: OpenAI".to_string()));
}

#[test]
fn provider_status_reports_each_key() {
    let st = provider_status(|a| if a == "openai_api_key" { Some("k".to_string()) } else { Some("  ".to_string()) });
    assert!(st.has_openai);
    assert!(!st.has_elevenlabs);
}

#[test]
fn base_dirs_per_platform() {
    let env = |vars: &'static [(&'static str, &'static str)]| {
        move |name: &'static str| vars.iter().find(|(k, _)| *k == name).map(|(_, v)| v.to_string())
    };
    let join = |p: String, rel: &'static str| format!("{p}/{rel}");
    assert_eq!(
        base_dir(Os::Linux, DirKind::Config, env(&[("HOME", "/home/u")]), join),
        Some("/home/u/.config".to_string())
    );
    assert_eq!(
        base_dir(Os::Linux, DirKind::Data, env(&[("HOME", "/home/u"), ("XDG_DATA_HOME", "/x")]), join),
        Some("/x".to_string())
    );
    assert_eq!(
        base_dir(Os::Macos, DirKind::Data, env(&[("HOME", "/Users/u"), ("XDG_DATA_HOME", "/x")]), join),
        Some("/Users/u/Library/Application Support".to_string())
    );
    assert_eq!(
        base_dir(Os::Windows, DirKind::Data, env(&[("LOCALAPPDATA", "C:\\L"), ("HOME", "C:\\H")]), join),
        Some("C:\\L".to_string())
    );
    assert_eq!(base_dir(Os::Windows, DirKind::Config, env(&[("HOME", "C:\\H")]), join), None);
    assert_eq!(base_dir(Os::Linux, DirKind::Data, env(&[]), join), None);
}

#[test]
fn piper_directories_inside_data_root() {
    let join = |p: &String, rel: String| format!("{p}/{rel}");
    let base = "/data".to_string();
    let d = data_dirs(Some(&base), join).unwrap();
    assert_eq!(d.root, "/data/com.readselectedtext.app");
    assert_eq!(d.engine, "/data/com.readselectedtext.app/piper/engine");
    assert_eq!(d.voices, "/data/com.readselectedtext.app/piper/voices");
    assert_eq!(data_dirs(None, join).err(), Some("could not resolve a data directory".to_string()));
}

#[test]
fn voice_file_paths() {
    let join = |p: &String, rel: String| format!("{p}/{rel}");
    let base = "/data".to_string();
    let v = voice_location(Some(&base), "en_US-amy-medium", join).unwrap();
    assert_eq!(v.onnx, "/data/com.readselectedtext.app/piper/voices/en_US-amy-medium.onnx");
    assert_eq!(v.json, "/data/com.readselectedtext.app/piper/voices/en_US-amy-medium.onnx.json");
    assert_eq!(
        voice_location(None, "en_US-amy-medium", join).err(),
        Some("could not resolve a data directory".to_string())
    );
}

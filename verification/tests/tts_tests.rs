use read_selected_text::http::{is_success, status_text};
use read_selected_text::piper::{library_path_variable, piper_args, piper_audio, piper_exit};
use read_selected_text::platform::Os;
use read_selected_text::settings::Provider;
use read_selected_text::tts::{
    api_error, elevenlabs_request, engine_for, openai_key, response_ok, truncate, Engine, OPENAI_ENDPOINT,
    SAMPLE_TEXT,
};

#[test]
fn engines_for_providers() {
    assert_eq!(engine_for(Provider::Openai), Ok(Engine::OpenAi));
    assert_eq!(engine_for(Provider::Elevenlabs), Ok(Engine::ElevenLabs));
    assert_eq!(engine_for(Provider::Piper), Ok(Engine::Piper));
    assert_eq!(engine_for(Provider::Local), Ok(Engine::SystemVoice));
    assert_eq!(
        engine_for(Provider::Kokoro),
        Err("The Kokoro voice plays in the settings window only.".to_string())
    );
}

#[test]
fn constants() {
    assert_eq!(OPENAI_ENDPOINT, "https://api.openai.com/v1/audio/speech");
    assert!(SAMPLE_TEXT.starts_with("This is a test of Read Selected Text."));
}

#[test]
fn truncate_short_and_long() {
    assert_eq!(truncate("hello", 5), "hello");
    assert_eq!(truncate("hello", 10), "hello");
    assert_eq!(truncate("hello world", 5), "hello…");
    assert_eq!(truncate("", 0), "");
    // "é" is two bytes; cutting after it is on a boundary.
    assert_eq!(truncate("éé", 2), "é…");
}

#[test]
fn status_codes() {
    assert!(is_success(200));
    assert!(is_success(204));
    assert!(!is_success(199));
    assert!(!is_success(300));
    assert!(!is_success(99));
    assert!(!is_success(1000));
    assert!(response_ok(201));
    assert!(!response_ok(500));
    assert_eq!(status_text(401), "401 Unauthorized");
    assert_eq!(status_text(599), "599 <unknown status code>");
}

#[test]
fn api_error_message() {
    assert_eq!(
        api_error("OpenAI", 401, "{\"error\":\"bad key\"}"),
        "OpenAI error 401 Unauthorized: {\"error\":\"bad key\"}"
    );
    let long = "x".repeat(400);
    let msg = api_error("ElevenLabs", 500, &long);
    assert_eq!(msg, format!("ElevenLabs error 500 Internal Server Error: {}…", "x".repeat(300)));
}

#[test]
fn openai_key_must_be_set() {
    assert_eq!(openai_key(Some("sk-1".to_string())), Ok("sk-1".to_string()));
    assert_eq!(openai_key(Some(" sk-1 ".to_string())), Ok(" sk-1 ".to_string()));
    let missing = Err("No OpenAI API key set. Add one in settings.".to_string());
    assert_eq!(openai_key(Some("   ".to_string())), missing);
    assert_eq!(openai_key(None), missing);
}

#[test]
fn elevenlabs_request_checks_key_then_voice() {
    assert_eq!(
        elevenlabs_request(Some("k".to_string()), " 21m00Tcm4TlvDq8ikWAM "),
        Ok((
            "k".to_string(),
            "https://api.elevenlabs.io/v1/text-to-speech/21m00Tcm4TlvDq8ikWAM?output_format=mp3_44100_128"
                .to_string()
        ))
    );
    assert_eq!(
        elevenlabs_request(None, ""),
        Err("No ElevenLabs API key set. Add one in settings.".to_string())
    );
    assert_eq!(
        elevenlabs_request(Some("k".to_string()), "  "),
        Err("No ElevenLabs voice ID set. Add one in settings.".to_string())
    );
}

#[test]
fn piper_helpers() {
    assert_eq!(
        piper_args("/v/m.onnx", "/tmp/o.wav", "0.8"),
        vec!["--model", "/v/m.onnx", "--output_file", "/tmp/o.wav", "--length_scale", "0.8"]
    );
    assert_eq!(library_path_variable(Os::Linux), Some("LD_LIBRARY_PATH"));
    assert_eq!(library_path_variable(Os::Macos), Some("DYLD_LIBRARY_PATH"));
    assert_eq!(library_path_variable(Os::Windows), None);
    assert_eq!(piper_exit(true, b"noise"), Ok(()));
    assert_eq!(piper_exit(false, b"  model not found\n"), Err("Piper error: model not found".to_string()));
    assert_eq!(piper_audio(vec![1, 2]), Ok(vec![1, 2]));
    assert_eq!(piper_audio(Vec::new()), Err("Piper produced no audio.".to_string()));
}

use std::cell::RefCell;

use read_selected_text::local::{
    build_windows_script, espeak_invocation, from_utf8_lossy, list_voices, parse_espeak_voices,
    parse_macos_voices, parse_windows_voices, powershell_invocation, say_invocation, speak, Invocation,
    WINDOWS_LIST_SCRIPT,
};
use read_selected_text::platform::Os;
use read_selected_text::settings::Settings;

fn line(inv: &Invocation) -> Vec<String> {
    let mut v = vec![inv.program.to_string()];
    v.extend(inv.args.iter().cloned());
    v
}

#[test]
fn windows_script_with_voice_and_quotes() {
    let s = build_windows_script("C:\\Temp\\it's.txt", "Microsoft David's", 3);
    assert_eq!(
        s,
        "Add-Type -AssemblyName System.Speech; $s = New-Object System.Speech.Synthesis.SpeechSynthesizer; \
         $s.Rate = 3; try { $s.SelectVoice('Microsoft David''s') } catch {}; \
         $t = [IO.File]::ReadAllText('C:\\Temp\\it''s.txt', [Text.Encoding]::UTF8); $s.Speak($t); \
         Remove-Item -LiteralPath 'C:\\Temp\\it''s.txt' -ErrorAction SilentlyContinue"
    );
}

#[test]
fn windows_script_clamps_rate_and_skips_empty_voice() {
    let s = build_windows_script("p", "", -25);
    assert_eq!(
        s,
        "Add-Type -AssemblyName System.Speech; $s = New-Object System.Speech.Synthesis.SpeechSynthesizer; \
         $s.Rate = -10;  $t = [IO.File]::ReadAllText('p', [Text.Encoding]::UTF8); $s.Speak($t); \
         Remove-Item -LiteralPath 'p' -ErrorAction SilentlyContinue"
    );
    assert!(build_windows_script("p", "", 99).contains("$s.Rate = 10;"));
}

#[test]
fn say_command_lines() {
    assert_eq!(line(&say_invocation("", 0)), vec!["say", "-f", "-"]);
    assert_eq!(line(&say_invocation("Alex", 5)), vec!["say", "-v", "Alex", "-r", "240", "-f", "-"]);
    assert_eq!(line(&say_invocation("", -20)), vec!["say", "-r", "80", "-f", "-"]);
    assert_eq!(line(&say_invocation("", 100)), vec!["say", "-r", "400", "-f", "-"]);
    assert!(say_invocation("", 0).feeds_text);
}

#[test]
fn espeak_command_lines() {
    assert_eq!(line(&espeak_invocation("espeak-ng", "", 0)), vec!["espeak-ng", "--stdin"]);
    assert_eq!(
        line(&espeak_invocation("espeak", "en-us", 2)),
        vec!["espeak", "-v", "en-us", "-s", "205", "--stdin"]
    );
    assert_eq!(line(&espeak_invocation("espeak", "", 30)), vec!["espeak", "-s", "450", "--stdin"]);
}

#[test]
fn powershell_command_line() {
    let inv = powershell_invocation("Write-Host hi".to_string());
    assert_eq!(line(&inv), vec!["powershell", "-NoProfile", "-NonInteractive", "-Command", "Write-Host hi"]);
    assert!(!inv.feeds_text);
}

fn settings_with(voice: &str, rate: i32) -> Settings {
    let mut s = Settings::default();
    s.local_voice = voice.to_string();
    s.local_rate = rate;
    s
}

#[test]
fn speak_on_linux_falls_back_to_espeak() {
    let tried = RefCell::new(Vec::new());
    let r = speak(Os::Linux, &settings_with("  en  ", 0), "", |inv: &Invocation| {
        tried.borrow_mut().push(line(inv));
        if inv.program == "espeak" { Ok(7u32) } else { Err("not found".to_string()) }
    });
    assert_eq!(r, Ok(7));
    assert_eq!(
        *tried.borrow(),
        vec![vec!["espeak-ng", "-v", "en", "--stdin"], vec!["espeak", "-v", "en", "--stdin"]]
    );
}

#[test]
fn speak_on_linux_without_engine() {
    let r: Result<u32, String> = speak(Os::Linux, &settings_with("", 0), "", |_| Err("no".to_string()));
    assert_eq!(
        r,
        Err("No local speech engine found. Install `espeak-ng` (e.g. `sudo apt install espeak-ng`).".to_string())
    );
}

#[test]
fn speak_on_linux_prefers_espeak_ng() {
    let count = RefCell::new(0);
    let r = speak(Os::OtherUnix, &settings_with("", 0), "", |_| {
        *count.borrow_mut() += 1;
        Ok(1u8)
    });
    assert_eq!(r, Ok(1));
    assert_eq!(*count.borrow(), 1);
}

#[test]
fn speak_on_macos_and_windows_prefix_errors() {
    let r: Result<u8, String> = speak(Os::Macos, &settings_with("", 0), "", |_| Err("boom".to_string()));
    assert_eq!(r, Err("`say` failed: boom".to_string()));
    let r: Result<u8, String> = speak(Os::Windows, &settings_with("", 0), "f.txt", |inv| {
        assert_eq!(inv.program, "powershell");
        assert!(inv.args[3].contains("ReadAllText('f.txt'"));
        Err("denied".to_string())
    });
    assert_eq!(r, Err("PowerShell speech failed: denied".to_string()));
}

#[test]
fn parse_voice_lists() {
    assert_eq!(
        parse_windows_voices("Microsoft David Desktop\r\n\r\n  Microsoft Zira Desktop  \r\n"),
        vec!["Microsoft David Desktop", "Microsoft Zira Desktop"]
    );
    assert_eq!(
        parse_macos_voices("Alex                en_US    # Most people recognize me by my voice.\nBad News            en_US    # The light you see\n\n"),
        vec!["Alex", "Bad News"]
    );
    assert_eq!(
        parse_espeak_voices(
            "Pty Language       Age/Gender VoiceName          File                 Other Languages\n \
             5  af              --/M      Afrikaans          gmw/af\n \
             5  en-us           --/M      English_(America)  gmw/en-US            (en 3)\n \
             5  x\n"
        ),
        vec!["Afrikaans", "English_(America)"]
    );
    assert!(parse_espeak_voices("").is_empty());
    assert!(parse_espeak_voices("header only").is_empty());
}

#[test]
fn list_voices_on_each_platform() {
    let w = list_voices(Os::Windows, |inv: &Invocation| {
        assert_eq!(inv.args[3], WINDOWS_LIST_SCRIPT);
        Some(b"Zira\r\n".to_vec())
    });
    assert_eq!(w, vec!["Zira"]);
    let m = list_voices(Os::Macos, |inv: &Invocation| {
        assert_eq!(line(inv), vec!["say", "-v", "?"]);
        Some(b"Alex  en_US # hi\n".to_vec())
    });
    assert_eq!(m, vec!["Alex"]);
    let l = list_voices(Os::Linux, |inv: &Invocation| {
        if inv.program == "espeak-ng" {
            Some(b"header\n".to_vec())
        } else {
            Some(b"header\n 1 en --/M English_(Great_Britain) gmw/en\n".to_vec())
        }
    });
    assert_eq!(l, vec!["English_(Great_Britain)"]);
    assert!(list_voices(Os::Linux, |_| None).is_empty());
}

#[test]
fn lossy_text() {
    assert_eq!(from_utf8_lossy(b"hi"), "hi");
    assert_eq!(from_utf8_lossy(&[b'a', 0xff]), "a\u{fffd}");
}

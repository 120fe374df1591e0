use std::cell::RefCell;
use std::collections::HashMap;

use read_selected_text::download::{find_exe, DirEntry, DownloadProgress};
use read_selected_text::local::build_windows_script;
use read_selected_text::settings::{get_api_key, has_api_key, set_api_key, Provider};
use read_selected_text::tts::truncate;

/// Reads a single-quoted PowerShell string starting just after its opening
/// quote: `''` is a quote, a lone `'` ends it.
fn read_quoted(t: &str) -> String {
    let mut out = String::new();
    let mut chars = t.chars().peekable();
    while let Some(c) = chars.next() {
        if c == '\'' {
            if chars.peek() == Some(&'\'') {
                chars.next();
                out.push('\'');
            } else {
                break;
            }
        } else {
            out.push(c);
        }
    }
    out
}

#[test]
fn saved_key_reads_back_as_present() {
    let keychain: RefCell<HashMap<&'static str, String>> = RefCell::new(HashMap::new());
    let r = set_api_key(
        Provider::Elevenlabs,
        "\t el-key-42 \n",
        |a| {
            keychain.borrow_mut().remove(a);
            Ok(Ok(()))
        },
        |a, k| {
            keychain.borrow_mut().insert(a, k);
            Ok(Ok(()))
        },
    );
    assert_eq!(r, Ok(()));
    assert!(has_api_key(Provider::Elevenlabs, |a| keychain.borrow().get(a).cloned()));
    assert_eq!(keychain.borrow().get("elevenlabs_api_key"), Some(&"el-key-42".to_string()));
    let r = set_api_key(Provider::Elevenlabs, "  ", |a| {
        keychain.borrow_mut().remove(a);
        Ok(Ok(()))
    }, |_, _| Ok(Ok(())));
    assert_eq!(r, Ok(()));
    assert!(!has_api_key(Provider::Elevenlabs, |a| keychain.borrow().get(a).cloned()));
}

#[test]
fn quoted_path_and_voice_read_back() {
    let path = "C:\\Users\\o'brien\\AppData\\Local\\Temp\\rst-speak-1-2.txt";
    let voice = "Voice ' ); Remove-Item C:\\ ; '";
    let script = build_windows_script(path, voice, 0);
    let voice_at = script.find("SelectVoice('").unwrap() + "SelectVoice('".len();
    assert_eq!(read_quoted(&script[voice_at..]), voice);
    let path_at = script.find("ReadAllText('").unwrap() + "ReadAllText('".len();
    assert_eq!(read_quoted(&script[path_at..]), path);
    let path_at = script.find("-LiteralPath '").unwrap() + "-LiteralPath '".len();
    assert_eq!(read_quoted(&script[path_at..]), path);
}

#[test]
fn truncated_text_stays_within_the_limit() {
    let long = "ab€".repeat(200);
    for max in [0usize, 2, 5, 8, 300] {
        if long.is_char_boundary(max) {
            let t = truncate(&long, max);
            assert!(t.len() <= max + 3);
            assert!(t.ends_with('…'));
            assert_eq!(&t[..t.len() - 3], &long[..max]);
        }
    }
}

#[test]
fn found_executable_is_a_file_with_that_name() {
    let entry = |name: &str, is_dir: bool, path: u32, children| DirEntry {
        name: Some(name.to_string()),
        is_dir,
        path,
        children,
    };
    let tree = vec![
        entry("lib", true, 1, vec![entry("piper", true, 2, vec![])]),
        entry("piper", true, 3, vec![entry("piper", false, 4, vec![])]),
        entry("piper", false, 5, vec![]),
    ];
    assert_eq!(find_exe(&tree, "piper"), Some(&4));
    assert_eq!(find_exe(&tree, "lib"), None);
}

#[test]
fn reported_percentages_increase() {
    let mut p = DownloadProgress::new(Some(1000));
    let mut last = 0;
    for chunk in [3u64, 7, 90, 0, 400, 1, 499] {
        if let Some(pct) = p.advance(chunk) {
            assert!(pct > last);
            last = pct;
        }
    }
    assert_eq!(last, 100);
}

#[test]
fn saved_key_reads_back_trimmed_or_nothing() {
    let keychain: RefCell<HashMap<&'static str, String>> = RefCell::new(HashMap::new());
    let clear = |a: &'static str| {
        keychain.borrow_mut().remove(a);
        Ok(Ok(()))
    };
    let store = |a: &'static str, k: String| {
        keychain.borrow_mut().insert(a, k);
        Ok(Ok(()))
    };
    assert_eq!(set_api_key(Provider::Openai, "  sk-9 ", clear, store), Ok(()));
    assert_eq!(get_api_key(Provider::Openai, |a| keychain.borrow().get(a).cloned()), Some("sk-9".to_string()));
    assert_eq!(set_api_key(Provider::Openai, "\n", clear, store), Ok(()));
    assert_eq!(get_api_key(Provider::Openai, |a| keychain.borrow().get(a).cloned()), None);
}

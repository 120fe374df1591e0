use read_selected_text::settings::Settings;
use read_selected_text::shell::{
    clipboard_to_restore, copy_modifier, hotkey_error, hotkey_plan, menu_action, text_to_read,
    tray_click_shows_settings, CopyModifier, MenuAction,
};
use read_selected_text::platform::Os;
use read_selected_text::text::{
    before_double_space, chars_of, concat_str, ends_with, is_whitespace_char, push_decimal, split_lines,
    split_words, str_eq, trim,
};

#[test]
fn trim_and_compare() {
    assert_eq!(trim("  a b \u{3000}\n"), "a b");
    assert_eq!(trim("\u{85}x\u{a0}"), "x");
    assert!(str_eq("abc", "abc"));
    assert!(!str_eq("abc", "abd"));
    assert!(!str_eq("é", "e"));
    assert_eq!(concat_str("a", "bc"), "abc");
    assert!(ends_with("abc.zip", ".zip"));
    assert!(!ends_with("zip", ".zip"));
    assert_eq!(chars_of("añ"), vec!['a', 'ñ']);
    assert!(is_whitespace_char('\u{2009}'));
    assert!(!is_whitespace_char('\u{200b}'));
}

#[test]
fn decimal_numbers() {
    for n in [0, 7, 10, 255, -1, -40, i32::MAX, i32::MIN] {
        let mut s = String::from("x");
        push_decimal(&mut s, n);
        assert_eq!(s, format!("x{n}"));
    }
}

#[test]
fn lines_like_str_lines() {
    for text in ["", "a", "a\n", "a\nb", "a\r\nb\r\n", "\n", "a\n\nb", "a\r", "\r\n", "x\ry\n"] {
        let expected: Vec<String> = text.lines().map(|l| l.to_string()).collect();
        assert_eq!(split_lines(text), expected, "for {text:?}");
    }
}

#[test]
fn words_like_split_whitespace() {
    for text in ["", "  ", "a", " a  b\tc\n", "x\u{3000}y", "a b "] {
        let expected: Vec<String> = text.split_whitespace().map(|w| w.to_string()).collect();
        assert_eq!(split_words(text), expected, "for {text:?}");
    }
}

#[test]
fn first_field_like_split() {
    for text in ["", " ", "Alex   en_US", "Bad News  x", "nospaces", "a b", "  lead"] {
        assert_eq!(before_double_space(text), text.split("  ").next().unwrap(), "for {text:?}");
    }
}

#[test]
fn hotkeys_from_settings() {
    let mut s = Settings::default();
    let p = hotkey_plan(&s);
    assert_eq!(p.read, Some("CmdOrControl+Alt+R".to_string()));
    assert_eq!(p.stop, Some("CmdOrControl+Alt+S".to_string()));
    s.read_hotkey = " Ctrl+R ".to_string();
    s.stop_hotkey = "Ctrl+R".to_string();
    let p = hotkey_plan(&s);
    assert_eq!(p.read, Some("Ctrl+R".to_string()));
    assert_eq!(p.stop, None);
    s.read_hotkey = "  ".to_string();
    s.stop_hotkey = "Ctrl+S".to_string();
    let p = hotkey_plan(&s);
    assert_eq!(p.read, None);
    assert_eq!(p.stop, Some("Ctrl+S".to_string()));
    s.stop_hotkey = String::new();
    assert_eq!(hotkey_plan(&s).stop, None);
    assert_eq!(hotkey_error("read", "Ctrl+R", "taken"), "read hotkey 'Ctrl+R': taken");
}

#[test]
fn tray_menu() {
    assert_eq!(menu_action("read"), Some(MenuAction::Read));
    assert_eq!(menu_action("stop"), Some(MenuAction::Stop));
    assert_eq!(menu_action("settings"), Some(MenuAction::ShowSettings));
    assert_eq!(menu_action("quit"), Some(MenuAction::Quit));
    assert_eq!(menu_action("other"), None);
    assert!(tray_click_shows_settings(true, true));
    assert!(!tray_click_shows_settings(true, false));
    assert!(!tray_click_shows_settings(false, true));
}

#[test]
fn capture_rules() {
    assert_eq!(copy_modifier(Os::Macos), CopyModifier::Meta);
    assert_eq!(copy_modifier(Os::Windows), CopyModifier::Control);
    assert_eq!(copy_modifier(Os::Linux), CopyModifier::Control);
    assert_eq!(clipboard_to_restore(true, Some("old".to_string())), Some("old".to_string()));
    assert_eq!(clipboard_to_restore(false, Some("old".to_string())), None);
    assert_eq!(clipboard_to_restore(true, None), None);
    assert_eq!(text_to_read("  Hello there \n"), Some("Hello there"));
    assert_eq!(text_to_read(" \n\t"), None);
    assert_eq!(text_to_read(""), None);
}

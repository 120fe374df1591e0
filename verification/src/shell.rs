//! Decisions of the desktop shell: which global shortcuts to register, what
//! the tray menu items do, and how a selection is captured and read.

use vstd::prelude::*;
use crate::platform::Os;
use crate::settings::Settings;
use crate::text::{concat_str, is_blank, lemma_trimmed_empty, str_eq, to_string, trim, trimmed};

verus! {

/// The global shortcuts to register: each accelerator without surrounding
/// white space, or `None` when that shortcut is left unregistered.
pub struct HotkeyPlan {
    pub read: Option<String>,
    pub stop: Option<String>,
}

/// Which shortcuts the settings ask for. A blank accelerator registers
/// nothing, and a stop shortcut equal to the read shortcut is left out so
/// that the key reads.
pub fn hotkey_plan(settings: &Settings) -> (r: HotkeyPlan)
    ensures
        ({
            let read = trimmed(settings.read_hotkey@);
            let stop = trimmed(settings.stop_hotkey@);
            &&& match r.read {
                Some(k) => k@ == read && read.len() > 0,
                None => read.len() == 0,
            }
            &&& match r.stop {
                Some(k) => k@ == stop && stop.len() > 0 && stop != read,
                None => stop.len() == 0 || stop == read,
            }
        }),
{
    let read = trim(settings.read_hotkey.as_str());
    let stop = trim(settings.stop_hotkey.as_str());
    let read_key = if read.is_empty() {
        None
    } else {
        Some(to_string(read))
    };
    let stop_key = if !stop.is_empty() && !str_eq(stop, read) {
        Some(to_string(stop))
    } else {
        None
    };
    HotkeyPlan { read: read_key, stop: stop_key }
}

/// The message for a shortcut that could not be registered, e.g.
/// `read hotkey 'Ctrl+R': <reason>`.
pub fn hotkey_error(which: &str, accelerator: &str, reason: &str) -> (r: String)
    ensures
        r@ == which@ + " hotkey '"@ + accelerator@ + "': "@ + reason@,
{
    let mut r = concat_str(which, " hotkey '");
    r.append(accelerator);
    r.append("': ");
    r.append(reason);
    r
}

/// What a tray menu item does.
#[derive(Debug, Clone, Copy, PartialEq, Eq, Structural)]
pub enum MenuAction {
    Read,
    Stop,
    ShowSettings,
    Quit,
}

/// The action of the tray menu item with a given id.
pub open spec fn menu_action_of(id: Seq<char>) -> Option<MenuAction> {
    if id == "read"@ {
        Some(MenuAction::Read)
    } else if id == "stop"@ {
        Some(MenuAction::Stop)
    } else if id == "settings"@ {
        Some(MenuAction::ShowSettings)
    } else if id == "quit"@ {
        Some(MenuAction::Quit)
    } else {
        None
    }
}

/// The action of a tray menu item; other ids do nothing.
pub fn menu_action(id: &str) -> (r: Option<MenuAction>)
    ensures
        r == menu_action_of(id@),
{
    if str_eq(id, "read") {
        Some(MenuAction::Read)
    } else if str_eq(id, "stop") {
        Some(MenuAction::Stop)
    } else if str_eq(id, "settings") {
        Some(MenuAction::ShowSettings)
    } else if str_eq(id, "quit") {
        Some(MenuAction::Quit)
    } else {
        None
    }
}

/// Whether a click on the tray icon opens the settings window: only the
/// release of the left button does.
pub fn tray_click_shows_settings(left_button: bool, released: bool) -> (r: bool)
    ensures
        r == (left_button && released),
{
    left_button && released
}

/// The modifier key of the platform's copy shortcut.
#[derive(Debug, Clone, Copy, PartialEq, Eq, Structural)]
pub enum CopyModifier {
    /// Cmd on macOS.
    Meta,
    Control,
}

/// The modifier of the copy shortcut: Cmd on macOS, Control elsewhere.
pub fn copy_modifier(os: Os) -> (r: CopyModifier)
    ensures
        r == (if os == Os::Macos {
            CopyModifier::Meta
        } else {
            CopyModifier::Control
        }),
{
    if os == Os::Macos {
        CopyModifier::Meta
    } else {
        CopyModifier::Control
    }
}

/// What goes back on the clipboard after a capture: the previous text when
/// restoring is on and there was one; otherwise nothing is written back.
pub fn clipboard_to_restore(restore: bool, previous: Option<String>) -> (r: Option<String>)
    ensures
        r == (if restore {
            previous
        } else {
            None
        }),
{
    if restore {
        previous
    } else {
        None
    }
}

/// The text to read from a captured selection: the selection without
/// surrounding white space, or `None` when nothing but white space was
/// selected.
pub fn text_to_read(selection: &str) -> (r: Option<&str>)
    ensures
        is_blank(selection@) ==> r is None,
        !is_blank(selection@) ==> (r matches Some(t) && t@ == trimmed(selection@) && t@.len() > 0),
{
    let t = trim(selection);
    proof {
        lemma_trimmed_empty(selection@);
    }
    if t.is_empty() {
        None
    } else {
        Some(t)
    }
}

/// Title of the notification shown when nothing was selected.
pub const NOTHING_SELECTED_TITLE: &'static str = "Read Selected Text";

/// Body of the notification shown when nothing was selected.
pub const NOTHING_SELECTED_BODY: &'static str = "No text was selected.";

/// Title of the notification shown when speaking failed.
pub const SPEAK_FAILED_TITLE: &'static str = "Could not read text";

/// Title of the notification shown when the selection could not be captured.
pub const CAPTURE_FAILED_TITLE: &'static str = "Could not capture selection";

} // verus!

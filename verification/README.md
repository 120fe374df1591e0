# read_selected_text

The verified core of **Read Selected Text**, a tray app that reads the text
selected in any application aloud with OpenAI, ElevenLabs, a downloaded Piper
voice, or the operating system's own voice.

`src/` is the library, written in Verus. Every function in it carries a
contract; Verus proves all of them except four thin wrappers around outside
code, whose contracts are trusted: `text::push_char` (`String::push`),
`local::from_utf8_lossy` (`String::from_utf8_lossy`), and the two status-code
wrappers in `http` (reqwest's `StatusCode::is_success` and its `Display`).

- `settings` — providers, default settings, and the API-key rules (which
  keychain account holds which key, when a stored key counts, what saving one
  does). Keychain access is handed in as closures.
- `commands` — provider names from the settings window, key status.
- `download` — the Piper voice catalog, file names and download locations,
  the engine archive per platform, the search for the installed executable,
  download progress and status checks.
- `http` — response status codes, through reqwest's `StatusCode`.
- `tts` — choosing the engine, what a cloud request needs, error messages.
- `local` — command lines for the system voice, the PowerShell script, the
  order in which speech tools are tried, and reading their voice lists.
- `piper` — arguments and results of a Piper run.
- `paths` — the per-user config and data directories.
- `shell` — shortcuts to register, tray menu actions, selection capture rules.
- `text` — string helpers (trimming, lines, words, decimal numbers).

`tests/` exercises the library on concrete values. `app/` is the Tauri shell:
windows, tray, global shortcuts, clipboard, audio, processes, files and
network, calling into the library for every decision.

//! Where the app keeps its files, per platform.

use vstd::prelude::*;
use crate::download::voice_files;
use crate::platform::Os;
use crate::text::to_string;

verus! {

/// Name of the app's own directory inside the platform config and data
/// directories; also the keychain service name.
pub const APP_ID: &'static str = "com.readselectedtext.app";

/// Settings file name inside the app's config directory.
pub const SETTINGS_FILE: &'static str = "settings.json";

/// Which per-user base directory.
#[derive(Debug, Clone, Copy, PartialEq, Eq, Structural)]
pub enum DirKind {
    Config,
    Data,
}

/// The environment variable that names the base directory outright, if the
/// platform has one.
pub open spec fn dir_variable(os: Os, kind: DirKind) -> Option<&'static str> {
    match (os, kind) {
        (Os::Windows, DirKind::Config) => Some("APPDATA"),
        (Os::Windows, DirKind::Data) => Some("LOCALAPPDATA"),
        (Os::Macos, _) => None,
        (_, DirKind::Config) => Some("XDG_CONFIG_HOME"),
        (_, DirKind::Data) => Some("XDG_DATA_HOME"),
    }
}

/// Where the base directory lies under the home directory when no variable
/// names it, if the platform falls back to the home directory.
pub open spec fn home_fallback(os: Os, kind: DirKind) -> Option<&'static str> {
    match (os, kind) {
        (Os::Windows, _) => None,
        (Os::Macos, _) => Some("Library/Application Support"),
        (_, DirKind::Config) => Some(".config"),
        (_, DirKind::Data) => Some(".local/share"),
    }
}

fn variable_for(os: Os, kind: DirKind) -> (r: Option<&'static str>)
    ensures
        r == dir_variable(os, kind),
{
    match (os, kind) {
        (Os::Windows, DirKind::Config) => Some("APPDATA"),
        (Os::Windows, DirKind::Data) => Some("LOCALAPPDATA"),
        (Os::Macos, _) => None,
        (_, DirKind::Config) => Some("XDG_CONFIG_HOME"),
        (_, DirKind::Data) => Some("XDG_DATA_HOME"),
    }
}

fn fallback_for(os: Os, kind: DirKind) -> (r: Option<&'static str>)
    ensures
        r == home_fallback(os, kind),
{
    match (os, kind) {
        (Os::Windows, _) => None,
        (Os::Macos, _) => Some("Library/Application Support"),
        (_, DirKind::Config) => Some(".config"),
        (_, DirKind::Data) => Some(".local/share"),
    }
}

/// What `base_dir` gives: what the platform's own variable holds when it is
/// set; otherwise, where the platform has a fallback, `HOME` joined with it
/// (nothing when `HOME` is unset); otherwise nothing.
pub open spec fn base_dir_result<P, V: Fn(&'static str) -> Option<P>, J: Fn(P, &'static str) -> P>(
    os: Os,
    kind: DirKind,
    var: V,
    join: J,
    r: Option<P>,
) -> bool {
    let named = match dir_variable(os, kind) {
        Some(name) => exists|v: Option<P>| call_ensures(var, (name,), v) && v is Some && r == v,
        None => false,
    };
    let from_home = match home_fallback(os, kind) {
        Some(rel) => exists|h: Option<P>|
            call_ensures(var, ("HOME",), h) && match h {
                Some(home) => exists|p: P| call_ensures(join, (home, rel), p) && r == Some(p),
                None => r is None,
            },
        None => r is None,
    };
    let var_unset = match dir_variable(os, kind) {
        Some(name) => exists|v: Option<P>| call_ensures(var, (name,), v) && v is None,
        None => true,
    };
    named || (var_unset && from_home)
}

/// Resolve the per-user config or data directory.
///
/// `var` reads an environment variable as a path, `join` appends a relative
/// path. The platform's own variable is used when it is set; otherwise, where
/// the platform has a fallback, `HOME` joined with it.
pub fn base_dir<P, V: Fn(&'static str) -> Option<P>, J: Fn(P, &'static str) -> P>(
    os: Os,
    kind: DirKind,
    var: V,
    join: J,
) -> (r: Option<P>)
    requires
        forall|name: &'static str| call_requires(var, (name,)),
        forall|p: P, rel: &'static str| call_requires(join, (p, rel)),
    ensures
        base_dir_result(os, kind, var, join, r),
{
    if let Some(name) = variable_for(os, kind) {
        let v = var(name);
        if v.is_some() {
            return v;
        }
    }
    match fallback_for(os, kind) {
        Some(rel) => {
            let h = var("HOME");
            match h {
                Some(home) => Some(join(home, rel)),
                None => None,
            }
        },
        None => None,
    }
}

/// On Linux and the other Unixes, with `XDG_DATA_HOME` unset and `HOME` set
/// to `home`, the data directory is `home` joined with `.local/share`; with
/// `XDG_CONFIG_HOME` unset, the config directory is `home` joined with
/// `.config`. When the variable is set, its value is the directory.
pub proof fn law_unix_dirs_fall_back_to_home<P, V: Fn(&'static str) -> Option<P>, J: Fn(P, &'static str) -> P>(
    os: Os,
    var: V,
    join: J,
    home: P,
    data: Option<P>,
    config: Option<P>,
)
    requires
        os == Os::Linux || os == Os::OtherUnix,
        base_dir_result(os, DirKind::Data, var, join, data),
        base_dir_result(os, DirKind::Config, var, join, config),
        forall|h: Option<P>| call_ensures(var, ("HOME",), h) ==> h == Some(home),
    ensures
        (forall|v: Option<P>| call_ensures(var, ("XDG_DATA_HOME",), v) ==> v is None) ==> exists|p: P|
            call_ensures(join, (home, ".local/share"), p) && data == Some(p),
        (forall|v: Option<P>| call_ensures(var, ("XDG_CONFIG_HOME",), v) ==> v is None) ==> exists|p: P|
            call_ensures(join, (home, ".config"), p) && config == Some(p),
        (forall|v: Option<P>| call_ensures(var, ("XDG_DATA_HOME",), v) ==> v is Some) ==>
            call_ensures(var, ("XDG_DATA_HOME",), data),
        (forall|v: Option<P>| call_ensures(var, ("XDG_CONFIG_HOME",), v) ==> v is Some) ==>
            call_ensures(var, ("XDG_CONFIG_HOME",), config),
{
}

/// On macOS both directories are `HOME` joined with
/// `Library/Application Support`. On Windows the data directory is what
/// `LOCALAPPDATA` holds and the config directory what `APPDATA` holds, with
/// no fallback when the variable is unset.
pub proof fn law_windows_and_macos_dirs<P, V: Fn(&'static str) -> Option<P>, J: Fn(P, &'static str) -> P>(
    os: Os,
    kind: DirKind,
    var: V,
    join: J,
    home: P,
    r: Option<P>,
)
    requires
        base_dir_result(os, kind, var, join, r),
        forall|h: Option<P>| call_ensures(var, ("HOME",), h) ==> h == Some(home),
    ensures
        os == Os::Macos ==> exists|p: P| call_ensures(join, (home, "Library/Application Support"), p) && r == Some(p),
        os == Os::Windows && kind == DirKind::Data ==> (r is None && exists|v: Option<P>|
            call_ensures(var, ("LOCALAPPDATA",), v) && v is None) || (r is Some && call_ensures(var, ("LOCALAPPDATA",), r)),
        os == Os::Windows && kind == DirKind::Config ==> (r is None && exists|v: Option<P>|
            call_ensures(var, ("APPDATA",), v) && v is None) || (r is Some && call_ensures(var, ("APPDATA",), r)),
{
}

/// `q` is what `join` gives for `p` and a relative part that reads `part`.
pub open spec fn joined<P, J: Fn(&P, String) -> P>(join: J, p: &P, part: Seq<char>, q: P) -> bool {
    exists|a: String| a@ == part && #[trigger] call_ensures(join, (p, a), q)
}

/// `q` is `p` joined with `first` and then with `second`.
pub open spec fn joined2<P, J: Fn(&P, String) -> P>(
    join: J,
    p: &P,
    first: Seq<char>,
    second: Seq<char>,
    q: P,
) -> bool {
    exists|mid: P| joined(join, p, first, mid) && joined(join, &mid, second, q)
}

/// The app's directories inside the per-user data directory.
pub struct DataDirs<P> {
    /// `<data>/com.readselectedtext.app`
    pub root: P,
    /// `<root>/piper/engine`, where the engine is unpacked.
    pub engine: P,
    /// `<root>/piper/voices`, where voices are kept.
    pub voices: P,
}

/// The message when no per-user data directory can be found.
pub open spec fn no_data_dir_message() -> Seq<char> {
    "could not resolve a data directory"@
}

/// The app's data directories under the per-user data directory `base`, as
/// `base_dir` found it; without one there is nowhere to keep the engine.
pub fn data_dirs<P, J: Fn(&P, String) -> P>(base: Option<&P>, join: J) -> (r: Result<DataDirs<P>, String>)
    requires
        forall|p: &P, rel: String| call_requires(join, (p, rel)),
    ensures
        base is None ==> (r matches Err(e) && e@ == no_data_dir_message()),
        base matches Some(b) ==> (r matches Ok(d) && joined(join, b, APP_ID@, d.root) && joined2(
            join,
            &d.root,
            "piper"@,
            "engine"@,
            d.engine,
        ) && joined2(join, &d.root, "piper"@, "voices"@, d.voices)),
{
    match base {
        None => Err(to_string("could not resolve a data directory")),
        Some(b) => {
            let root = join(b, to_string(APP_ID));
            let piper = join(&root, to_string("piper"));
            let engine = join(&piper, to_string("engine"));
            let voices = join(&piper, to_string("voices"));
            assert(joined(join, &root, "piper"@, piper));
            let d = DataDirs { root, engine, voices };
            Ok(d)
        },
    }
}

/// Where a voice's model and model configuration are kept.
pub struct VoiceLocation<P> {
    pub dirs: DataDirs<P>,
    /// `<voices>/<key>.onnx`
    pub onnx: P,
    /// `<voices>/<key>.onnx.json`
    pub json: P,
}

/// The full paths of a voice's files: the per-user data directory, the app's
/// directory, `piper/voices`, and `<key>.onnx` or `<key>.onnx.json`.
pub fn voice_location<P, J: Fn(&P, String) -> P>(base: Option<&P>, key: &str, join: J) -> (r: Result<
    VoiceLocation<P>,
    String,
>)
    requires
        forall|p: &P, rel: String| call_requires(join, (p, rel)),
    ensures
        base is None ==> (r matches Err(e) && e@ == no_data_dir_message()),
        base matches Some(b) ==> (r matches Ok(v) && {
            &&& joined(join, b, APP_ID@, v.dirs.root)
            &&& joined2(join, &v.dirs.root, "piper"@, "engine"@, v.dirs.engine)
            &&& joined2(join, &v.dirs.root, "piper"@, "voices"@, v.dirs.voices)
            &&& joined(join, &v.dirs.voices, key@ + ".onnx"@, v.onnx)
            &&& joined(join, &v.dirs.voices, key@ + ".onnx.json"@, v.json)
        }),
{
    let b = match base {
        None => return Err(to_string("could not resolve a data directory")),
        Some(b) => b,
    };
    let root = join(b, to_string(APP_ID));
    let piper = join(&root, to_string("piper"));
    let engine = join(&piper, to_string("engine"));
    let voices = join(&piper, to_string("voices"));
    assert(joined(join, &root, "piper"@, piper));
    let dirs = DataDirs { root, engine, voices };
    let (onnx_name, json_name) = voice_files(key);
    let onnx = join(&dirs.voices, onnx_name);
    let json = join(&dirs.voices, json_name);
    Ok(VoiceLocation { dirs, onnx, json })
}

} // verus!

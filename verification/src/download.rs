//! The free local-neural (Piper) engine and voices: catalog, file names,
//! download locations, locating the installed executable, and download
//! progress.
//!
//! Nothing is bundled in the installer; the engine binary and the selected
//! voice model are fetched on first use into the platform data directory and
//! then reused offline.

use vstd::prelude::*;
use crate::http::{is_success, status_line, status_text};
use crate::platform::{Arch, Os};
use crate::text::{concat_str, ends_with, ends_with_spec, str_eq, to_string};

verus! {

/// Pinned Piper release used for the engine binaries.
pub const PIPER_RELEASE: &'static str = "2023.11.14-2";

/// A downloadable Piper voice.
#[derive(Debug, Clone, Copy)]
pub struct PiperVoice {
    pub key: &'static str,
    pub name: &'static str,
    /// Path prefix under the piper-voices repo, e.g. `en/en_US/amy/medium`.
    pub path: &'static str,
}

/// Small curated catalog of good-quality voices across a few languages.
pub open spec fn voice_catalog() -> Seq<PiperVoice> {
    seq![
        PiperVoice { key: "en_US-amy-medium", name: "English (US) — Amy · female", path: "en/en_US/amy/medium" },
        PiperVoice { key: "en_US-hfc_male-medium", name: "English (US) — HFC · male", path: "en/en_US/hfc_male/medium" },
        PiperVoice { key: "en_US-lessac-medium", name: "English (US) — Lessac · neutral", path: "en/en_US/lessac/medium" },
        PiperVoice { key: "en_GB-alan-medium", name: "English (UK) — Alan · male", path: "en/en_GB/alan/medium" },
        PiperVoice { key: "en_GB-jenny_dioco-medium", name: "English (UK) — Jenny · female", path: "en/en_GB/jenny_dioco/medium" },
        PiperVoice { key: "de_DE-thorsten-medium", name: "German — Thorsten · male", path: "de/de_DE/thorsten/medium" },
        PiperVoice { key: "es_ES-sharvard-medium", name: "Spanish — Sharvard", path: "es/es_ES/sharvard/medium" },
        PiperVoice { key: "fr_FR-siwis-medium", name: "French — Siwis · female", path: "fr/fr_FR/siwis/medium" },
        PiperVoice { key: "hi_IN-priyamvada-medium", name: "Hindi — Priyamvada · female", path: "hi/hi_IN/priyamvada/medium" },
    ]
}

/// The voice catalog, in the order the settings window lists it.
pub fn piper_voices() -> (r: Vec<PiperVoice>)
    ensures
        r@ == voice_catalog(),
{
    let r = vec![
        PiperVoice { key: "en_US-amy-medium", name: "English (US) — Amy · female", path: "en/en_US/amy/medium" },
        PiperVoice { key: "en_US-hfc_male-medium", name: "English (US) — HFC · male", path: "en/en_US/hfc_male/medium" },
        PiperVoice { key: "en_US-lessac-medium", name: "English (US) — Lessac · neutral", path: "en/en_US/lessac/medium" },
        PiperVoice { key: "en_GB-alan-medium", name: "English (UK) — Alan · male", path: "en/en_GB/alan/medium" },
        PiperVoice { key: "en_GB-jenny_dioco-medium", name: "English (UK) — Jenny · female", path: "en/en_GB/jenny_dioco/medium" },
        PiperVoice { key: "de_DE-thorsten-medium", name: "German — Thorsten · male", path: "de/de_DE/thorsten/medium" },
        PiperVoice { key: "es_ES-sharvard-medium", name: "Spanish — Sharvard", path: "es/es_ES/sharvard/medium" },
        PiperVoice { key: "fr_FR-siwis-medium", name: "French — Siwis · female", path: "fr/fr_FR/siwis/medium" },
        PiperVoice { key: "hi_IN-priyamvada-medium", name: "Hindi — Priyamvada · female", path: "hi/hi_IN/priyamvada/medium" },
    ];
    assert(r@ =~= voice_catalog());
    r
}

/// The message given for a key that is not in the catalog.
pub open spec fn unknown_voice_message(key: Seq<char>) -> Seq<char> {
    "unknown Piper voice: "@ + key
}

/// Look up a catalog voice by key.
pub fn find_voice(key: &str) -> (r: Result<PiperVoice, String>)
    ensures
        match r {
            Ok(v) => exists|i: int|
                0 <= i < voice_catalog().len() && voice_catalog()[i] == v && v.key@ == key@ && forall|
                    j: int,
                | 0 <= j < i ==> (#[trigger] voice_catalog()[j]).key@ != key@,
            Err(e) => (forall|i: int|
                0 <= i < voice_catalog().len() ==> (#[trigger] voice_catalog()[i]).key@ != key@) && e@
                == unknown_voice_message(key@),
        },
{
    let voices = piper_voices();
    let n = voices.len();
    let mut i: usize = 0;
    while i < n
        invariant
            n == voices@.len(),
            voices@ == voice_catalog(),
            i <= n,
            forall|j: int| 0 <= j < i ==> (#[trigger] voice_catalog()[j]).key@ != key@,
        decreases n - i,
    {
        if str_eq(voices[i].key, key) {
            return Ok(voices[i]);
        }
        i = i + 1;
    }
    Err(concat_str("unknown Piper voice: ", key))
}

/// Each key in the catalog names one voice, so looking a catalog voice up
/// by its key finds that voice.
pub proof fn law_catalog_keys_distinct()
    ensures
        forall|i: int, j: int|
            0 <= i < voice_catalog().len() && 0 <= j < voice_catalog().len() && i != j
                ==> #[trigger] voice_catalog()[i].key@ != #[trigger] voice_catalog()[j].key@,
{
    reveal_strlit("en_US-amy-medium");
    reveal_strlit("en_US-hfc_male-medium");
    reveal_strlit("en_US-lessac-medium");
    reveal_strlit("en_GB-alan-medium");
    reveal_strlit("en_GB-jenny_dioco-medium");
    reveal_strlit("de_DE-thorsten-medium");
    reveal_strlit("es_ES-sharvard-medium");
    reveal_strlit("fr_FR-siwis-medium");
    reveal_strlit("hi_IN-priyamvada-medium");
    let c = voice_catalog();
    assert(c[1].key@[0] != c[5].key@[0]);
    assert(c[1].key@[1] != c[6].key@[1]);
    assert(c[5].key@[0] != c[6].key@[0]);
    assert forall|i: int, j: int|
        0 <= i < c.len() && 0 <= j < c.len() && i != j implies #[trigger] c[i].key@
        != #[trigger] c[j].key@ by {
        if (i == 1 && j == 5) || (i == 5 && j == 1) {
            assert(c[1].key@[0] != c[5].key@[0]);
        } else if (i == 1 && j == 6) || (i == 6 && j == 1) {
            assert(c[1].key@[1] != c[6].key@[1]);
        } else if (i == 5 && j == 6) || (i == 6 && j == 5) {
            assert(c[5].key@[0] != c[6].key@[0]);
        } else {
            assert(c[i].key@.len() != c[j].key@.len());
        }
    }
}

/// The catalog offers nine voices, which looking up a key finds exactly
/// when the key is one of theirs: `en_US-amy-medium`,
/// `en_US-hfc_male-medium`, `en_US-lessac-medium`, `en_GB-alan-medium`,
/// `en_GB-jenny_dioco-medium`, `de_DE-thorsten-medium`,
/// `es_ES-sharvard-medium`, `fr_FR-siwis-medium` and
/// `hi_IN-priyamvada-medium`.
pub proof fn law_catalog_keys(key: Seq<char>)
    ensures
        voice_catalog().len() == 9,
        (exists|i: int| 0 <= i < voice_catalog().len() && #[trigger] voice_catalog()[i].key@ == key) <==> ({
            ||| key == "en_US-amy-medium"@
            ||| key == "en_US-hfc_male-medium"@
            ||| key == "en_US-lessac-medium"@
            ||| key == "en_GB-alan-medium"@
            ||| key == "en_GB-jenny_dioco-medium"@
            ||| key == "de_DE-thorsten-medium"@
            ||| key == "es_ES-sharvard-medium"@
            ||| key == "fr_FR-siwis-medium"@
            ||| key == "hi_IN-priyamvada-medium"@
        }),
{
    let c = voice_catalog();
    assert(c[0].key@ == "en_US-amy-medium"@);
    assert(c[1].key@ == "en_US-hfc_male-medium"@);
    assert(c[2].key@ == "en_US-lessac-medium"@);
    assert(c[3].key@ == "en_GB-alan-medium"@);
    assert(c[4].key@ == "en_GB-jenny_dioco-medium"@);
    assert(c[5].key@ == "de_DE-thorsten-medium"@);
    assert(c[6].key@ == "es_ES-sharvard-medium"@);
    assert(c[7].key@ == "fr_FR-siwis-medium"@);
    assert(c[8].key@ == "hi_IN-priyamvada-medium"@);
    if key == "en_US-amy-medium"@ {
        assert(c[0].key@ == key);
    }
    if key == "en_US-hfc_male-medium"@ {
        assert(c[1].key@ == key);
    }
    if key == "en_US-lessac-medium"@ {
        assert(c[2].key@ == key);
    }
    if key == "en_GB-alan-medium"@ {
        assert(c[3].key@ == key);
    }
    if key == "en_GB-jenny_dioco-medium"@ {
        assert(c[4].key@ == key);
    }
    if key == "de_DE-thorsten-medium"@ {
        assert(c[5].key@ == key);
    }
    if key == "es_ES-sharvard-medium"@ {
        assert(c[6].key@ == key);
    }
    if key == "fr_FR-siwis-medium"@ {
        assert(c[7].key@ == key);
    }
    if key == "hi_IN-priyamvada-medium"@ {
        assert(c[8].key@ == key);
    }
}

/// A language or region code in a voice key: not empty, and without `-`,
/// `_` or `/`.
pub open spec fn is_code_part(s: Seq<char>) -> bool {
    s.len() > 0 && forall|i: int| 0 <= i < s.len() ==> s[i] != '-' && s[i] != '_' && s[i] != '/'
}

/// A speaker or quality name in a voice key: not empty, and without `-` or
/// `/`.
pub open spec fn is_name_part(s: Seq<char>) -> bool {
    s.len() > 0 && forall|i: int| 0 <= i < s.len() ==> s[i] != '-' && s[i] != '/'
}

/// `key` reads `<lang>_<REGION>-<speaker>-<quality>` and `path` reads
/// `<lang>/<lang>_<REGION>/<speaker>/<quality>`, the layout of the
/// piper-voices repository.
pub open spec fn path_follows_key(key: Seq<char>, path: Seq<char>) -> bool {
    exists|lang: Seq<char>, region: Seq<char>, speaker: Seq<char>, quality: Seq<char>|
        is_code_part(lang) && is_code_part(region) && is_name_part(speaker) && is_name_part(quality)
            && key == lang + "_"@ + region + "-"@ + speaker + "-"@ + quality
            && path == lang + "/"@ + lang + "_"@ + region + "/"@ + speaker + "/"@ + quality
}

proof fn lemma_path_follows_key(
    key: Seq<char>,
    path: Seq<char>,
    lang: Seq<char>,
    region: Seq<char>,
    speaker: Seq<char>,
    quality: Seq<char>,
)
    requires
        is_code_part(lang),
        is_code_part(region),
        is_name_part(speaker),
        is_name_part(quality),
        key =~= lang + "_"@ + region + "-"@ + speaker + "-"@ + quality,
        path =~= lang + "/"@ + lang + "_"@ + region + "/"@ + speaker + "/"@ + quality,
    ensures
        path_follows_key(key, path),
{
}

/// Every catalog voice lies in the piper-voices repository under the
/// directory that its key names: key `<lang>_<REGION>-<speaker>-<quality>`,
/// path `<lang>/<lang>_<REGION>/<speaker>/<quality>`, so its model is
/// downloaded from that directory.
pub proof fn law_catalog_paths_follow_keys()
    ensures
        forall|i: int|
            0 <= i < voice_catalog().len() ==> path_follows_key(
                #[trigger] voice_catalog()[i].key@,
                voice_catalog()[i].path@,
            ),
{
    let c = voice_catalog();
    reveal_strlit("_");
    reveal_strlit("-");
    reveal_strlit("/");
    assert(path_follows_key(c[0].key@, c[0].path@)) by {
        reveal_strlit("en_US-amy-medium");
        reveal_strlit("en/en_US/amy/medium");
        reveal_strlit("en");
        reveal_strlit("US");
        reveal_strlit("amy");
        reveal_strlit("medium");
        lemma_path_follows_key(c[0].key@, c[0].path@, "en"@, "US"@, "amy"@, "medium"@);
    }
    assert(path_follows_key(c[1].key@, c[1].path@)) by {
        reveal_strlit("en_US-hfc_male-medium");
        reveal_strlit("en/en_US/hfc_male/medium");
        reveal_strlit("en");
        reveal_strlit("US");
        reveal_strlit("hfc_male");
        reveal_strlit("medium");
        lemma_path_follows_key(c[1].key@, c[1].path@, "en"@, "US"@, "hfc_male"@, "medium"@);
    }
    assert(path_follows_key(c[2].key@, c[2].path@)) by {
        reveal_strlit("en_US-lessac-medium");
        reveal_strlit("en/en_US/lessac/medium");
        reveal_strlit("en");
        reveal_strlit("US");
        reveal_strlit("lessac");
        reveal_strlit("medium");
        lemma_path_follows_key(c[2].key@, c[2].path@, "en"@, "US"@, "lessac"@, "medium"@);
    }
    assert(path_follows_key(c[3].key@, c[3].path@)) by {
        reveal_strlit("en_GB-alan-medium");
        reveal_strlit("en/en_GB/alan/medium");
        reveal_strlit("en");
        reveal_strlit("GB");
        reveal_strlit("alan");
        reveal_strlit("medium");
        lemma_path_follows_key(c[3].key@, c[3].path@, "en"@, "GB"@, "alan"@, "medium"@);
    }
    assert(path_follows_key(c[4].key@, c[4].path@)) by {
        reveal_strlit("en_GB-jenny_dioco-medium");
        reveal_strlit("en/en_GB/jenny_dioco/medium");
        reveal_strlit("en");
        reveal_strlit("GB");
        reveal_strlit("jenny_dioco");
        reveal_strlit("medium");
        lemma_path_follows_key(c[4].key@, c[4].path@, "en"@, "GB"@, "jenny_dioco"@, "medium"@);
    }
    assert(path_follows_key(c[5].key@, c[5].path@)) by {
        reveal_strlit("de_DE-thorsten-medium");
        reveal_strlit("de/de_DE/thorsten/medium");
        reveal_strlit("de");
        reveal_strlit("DE");
        reveal_strlit("thorsten");
        reveal_strlit("medium");
        lemma_path_follows_key(c[5].key@, c[5].path@, "de"@, "DE"@, "thorsten"@, "medium"@);
    }
    assert(path_follows_key(c[6].key@, c[6].path@)) by {
        reveal_strlit("es_ES-sharvard-medium");
        reveal_strlit("es/es_ES/sharvard/medium");
        reveal_strlit("es");
        reveal_strlit("ES");
        reveal_strlit("sharvard");
        reveal_strlit("medium");
        lemma_path_follows_key(c[6].key@, c[6].path@, "es"@, "ES"@, "sharvard"@, "medium"@);
    }
    assert(path_follows_key(c[7].key@, c[7].path@)) by {
        reveal_strlit("fr_FR-siwis-medium");
        reveal_strlit("fr/fr_FR/siwis/medium");
        reveal_strlit("fr");
        reveal_strlit("FR");
        reveal_strlit("siwis");
        reveal_strlit("medium");
        lemma_path_follows_key(c[7].key@, c[7].path@, "fr"@, "FR"@, "siwis"@, "medium"@);
    }
    assert(path_follows_key(c[8].key@, c[8].path@)) by {
        reveal_strlit("hi_IN-priyamvada-medium");
        reveal_strlit("hi/hi_IN/priyamvada/medium");
        reveal_strlit("hi");
        reveal_strlit("IN");
        reveal_strlit("priyamvada");
        reveal_strlit("medium");
        lemma_path_follows_key(c[8].key@, c[8].path@, "hi"@, "IN"@, "priyamvada"@, "medium"@);
    }
}

/// `(model.onnx, model.onnx.json)` file names for a voice key, inside the
/// voices directory.
pub fn voice_files(key: &str) -> (r: (String, String))
    ensures
        r.0@ == key@ + ".onnx"@,
        r.1@ == key@ + ".onnx.json"@,
{
    (concat_str(key, ".onnx"), concat_str(key, ".onnx.json"))
}

/// Where a catalog voice is downloaded from, without the file extension.
pub open spec fn voice_base_url(v: PiperVoice) -> Seq<char> {
    "https://huggingface.co/rhasspy/piper-voices/resolve/main/"@ + v.path@ + "/"@ + v.key@
}

/// Download locations of a voice's model and model configuration.
///
/// Fails, with the message of `find_voice`, for keys outside the catalog.
pub fn voice_urls(key: &str) -> (r: Result<(String, String), String>)
    ensures
        match r {
            Ok((onnx, json)) => exists|i: int|
                0 <= i < voice_catalog().len() && #[trigger] voice_catalog()[i].key@ == key@
                    && onnx@ == voice_base_url(voice_catalog()[i]) + ".onnx"@
                    && json@ == voice_base_url(voice_catalog()[i]) + ".onnx.json"@,
            Err(e) => (forall|i: int|
                0 <= i < voice_catalog().len() ==> (#[trigger] voice_catalog()[i]).key@ != key@) && e@
                == unknown_voice_message(key@),
        },
{
    let voice = find_voice(key)?;
    let mut base = concat_str("https://huggingface.co/rhasspy/piper-voices/resolve/main/", voice.path);
    base.append("/");
    base.append(voice.key);
    let onnx = concat_str(base.as_str(), ".onnx");
    let json = concat_str(base.as_str(), ".onnx.json");
    Ok((onnx, json))
}

/// Name of the engine archive published for a platform.
pub open spec fn archive_for(os: Os, arch: Arch) -> Option<&'static str> {
    match (os, arch) {
        // No native Windows ARM64 build; the amd64 binary runs under emulation.
        (Os::Windows, _) => Some("piper_windows_amd64.zip"),
        (Os::Macos, Arch::X86_64) => Some("piper_macos_x64.tar.gz"),
        (Os::Macos, Arch::Aarch64) => Some("piper_macos_aarch64.tar.gz"),
        (Os::Linux, Arch::X86_64) => Some("piper_linux_x86_64.tar.gz"),
        (Os::Linux, Arch::Aarch64) => Some("piper_linux_aarch64.tar.gz"),
        _ => None,
    }
}

/// The engine archive for a platform, or an error where Piper publishes none.
pub fn archive_name(os: Os, arch: Arch) -> (r: Result<&'static str, String>)
    ensures
        match archive_for(os, arch) {
            Some(a) => r == Ok::<&'static str, String>(a),
            None => r matches Err(e) && e@
                == "No Piper build is available for this platform/architecture."@,
        },
{
    match (os, arch) {
        (Os::Windows, _) => Ok("piper_windows_amd64.zip"),
        (Os::Macos, Arch::X86_64) => Ok("piper_macos_x64.tar.gz"),
        (Os::Macos, Arch::Aarch64) => Ok("piper_macos_aarch64.tar.gz"),
        (Os::Linux, Arch::X86_64) => Ok("piper_linux_x86_64.tar.gz"),
        (Os::Linux, Arch::Aarch64) => Ok("piper_linux_aarch64.tar.gz"),
        _ => Err(to_string("No Piper build is available for this platform/architecture.")),
    }
}

/// File name of the Piper executable on a platform.
pub open spec fn exe_name_for(os: Os) -> &'static str {
    if os == Os::Windows {
        "piper.exe"
    } else {
        "piper"
    }
}

/// File name of the Piper executable on a platform.
pub fn exe_name(os: Os) -> (r: &'static str)
    ensures
        r == exe_name_for(os),
{
    if os == Os::Windows {
        "piper.exe"
    } else {
        "piper"
    }
}

/// Where an engine archive is downloaded from.
pub fn engine_url(archive: &str) -> (r: String)
    ensures
        r@ == "https://github.com/rhasspy/piper/releases/download/"@ + PIPER_RELEASE@ + "/"@
            + archive@,
{
    let mut url = concat_str("https://github.com/rhasspy/piper/releases/download/", PIPER_RELEASE);
    url.append("/");
    url.append(archive);
    url
}

/// Whether an engine archive is a zip file (the others are gzipped tarballs).
pub fn is_zip_archive(archive: &str) -> (r: bool)
    ensures
        r == ends_with_spec(archive@, ".zip"@),
{
    ends_with(archive, ".zip")
}

/// One entry of a directory listing, with the entries below it when it is a
/// directory. The name is `None` when it is not valid Unicode; `path` is
/// whatever the caller uses to reach the entry again.
pub struct DirEntry<P> {
    pub name: Option<String>,
    pub is_dir: bool,
    pub path: P,
    pub children: Vec<DirEntry<P>>,
}

/// Whether an entry is a file called `want`.
pub open spec fn is_file_named<P>(e: DirEntry<P>, want: Seq<char>) -> bool {
    &&& !e.is_dir
    &&& e.name matches Some(n) && n@ == want
}

/// The first file called `want` in a depth-first walk of `entries[i..]` that
/// visits each directory's entries before moving on to the next sibling, as
/// the list of indices that leads to it.
pub open spec fn first_file_from<P>(entries: Seq<DirEntry<P>>, i: int, want: Seq<char>) -> Option<Seq<usize>>
    decreases entries, entries.len() - i,
{
    if i < 0 || i >= entries.len() {
        None
    } else {
        let e = entries[i];
        if e.is_dir {
            match first_file_from(e.children@, 0, want) {
                Some(p) => Some(seq![i as usize] + p),
                None => first_file_from(entries, i + 1, want),
            }
        } else if is_file_named(e, want) {
            Some(seq![i as usize])
        } else {
            first_file_from(entries, i + 1, want)
        }
    }
}

/// What the search for a file called `want` gives back: the path of the
/// entry that `first_file_from` leads to, or nothing.
pub open spec fn found_path<P>(entries: Seq<DirEntry<P>>, want: Seq<char>, r: Option<&P>) -> bool {
    match first_file_from(entries, 0, want) {
        Some(at) => r matches Some(x) && (entry_at(entries, at) matches Some(e) && e.path == *x),
        None => r is None,
    }
}

proof fn lemma_entry_at_below<P>(entries: Seq<DirEntry<P>>, i: int, q: Seq<usize>)
    requires
        0 <= i < entries.len(),
        i <= usize::MAX,
        entries[i].is_dir,
        q.len() > 0,
    ensures
        entry_at(entries, seq![i as usize] + q) == entry_at(entries[i].children@, q),
{
    let p = seq![i as usize] + q;
    assert(p.drop_first() =~= q);
}

/// Search a directory listing for a file called `want`, walking each
/// directory's entries before moving on to the next sibling, and give back
/// the path of the first one found.
pub fn find_exe<'a, P>(entries: &'a Vec<DirEntry<P>>, want: &str) -> (r: Option<&'a P>)
    ensures
        found_path(entries@, want@, r),
    decreases entries@,
{
    let n = entries.len();
    let mut i: usize = 0;
    while i < n
        invariant
            n == entries@.len(),
            i <= n,
            first_file_from(entries@, 0, want@) == first_file_from(entries@, i as int, want@),
        decreases n - i,
    {
        let e = &entries[i];
        if e.is_dir {
            proof {
                assert(decreases_to!(entries@ => entries@[i as int]));
            }
            let found = find_exe(&e.children, want);
            if found.is_some() {
                proof {
                    let q = first_file_from(e.children@, 0, want@)->0;
                    assert(entry_at(e.children@, q) is Some);
                    lemma_entry_at_below(entries@, i as int, q);
                }
                return found;
            }
        } else {
            let matched = match &e.name {
                Some(name) => str_eq(name.as_str(), want),
                None => false,
            };
            if matched {
                proof {
                    assert(entry_at(entries@, seq![i as usize]) == Some(entries@[i as int]));
                }
                return Some(&e.path);
            }
        }
        i = i + 1;
    }
    None
}

/// The installed piper executable in the engine directory listing, if
/// present.
pub fn installed_exe<'a, P>(os: Os, engine_dir: &'a Vec<DirEntry<P>>) -> (r: Option<&'a P>)
    ensures
        found_path(engine_dir@, exe_name_for(os)@, r),
{
    find_exe(engine_dir, exe_name(os))
}

/// The entry that a list of indices leads to, going down through directories.
pub open spec fn entry_at<P>(entries: Seq<DirEntry<P>>, p: Seq<usize>) -> Option<DirEntry<P>>
    decreases p.len(),
{
    if p.len() == 0 || p[0] >= entries.len() {
        None
    } else if p.len() == 1 {
        Some(entries[p[0] as int])
    } else if entries[p[0] as int].is_dir {
        entry_at(entries[p[0] as int].children@, p.drop_first())
    } else {
        None
    }
}

/// Every listing in the tree has at most `usize::MAX` entries, as every
/// listing held in a `Vec` does.
pub open spec fn listing_fits<P>(entries: Seq<DirEntry<P>>) -> bool
    decreases entries,
{
    &&& entries.len() <= usize::MAX
    &&& forall|i: int|
        #![trigger entries[i]]
        0 <= i < entries.len() ==> listing_fits(entries[i].children@)
}

proof fn lemma_first_file_from<P>(entries: Seq<DirEntry<P>>, i: int, want: Seq<char>)
    requires
        0 <= i,
        listing_fits(entries),
    ensures
        match first_file_from(entries, i, want) {
            Some(p) => p.len() > 0 && i <= p[0] && (entry_at(entries, p) matches Some(e)
                && is_file_named(e, want)),
            None => forall|p: Seq<usize>|
                #![trigger entry_at(entries, p)]
                p.len() > 0 && i <= p[0] ==> !(entry_at(entries, p) matches Some(e) && is_file_named(
                    e,
                    want,
                )),
        },
    decreases entries, entries.len() - i,
{
    if i >= entries.len() {
        assert forall|p: Seq<usize>|
            #![trigger entry_at(entries, p)]
            p.len() > 0 && i <= p[0] implies !(entry_at(entries, p) matches Some(e)
            && is_file_named(e, want)) by {}
    } else {
        let e = entries[i];
        lemma_first_file_from(entries, i + 1, want);
        if e.is_dir {
            assert(decreases_to!(entries => entries[i]));
            assert(listing_fits(e.children@));
            lemma_first_file_from(e.children@, 0, want);
            match first_file_from(e.children@, 0, want) {
                Some(q) => {
                    let p = seq![i as usize] + q;
                    assert(p.drop_first() =~= q);
                },
                None => {
                    assert forall|p: Seq<usize>|
                        #![trigger entry_at(entries, p)]
                        p.len() > 0 && i <= p[0] && first_file_from(entries, i + 1, want) is None implies !(entry_at(entries, p) matches Some(x)
                        && is_file_named(x, want)) by {
                        if p[0] == i {
                            if p.len() > 1 {
                                let q = p.drop_first();
                                assert(entry_at(entries, p) == entry_at(e.children@, q));
                                assert(q.len() > 0 && 0 <= q[0]);
                                assert(!(entry_at(e.children@, q) matches Some(x) && is_file_named(
                                    x,
                                    want,
                                )));
                            } else {
                                assert(entry_at(entries, p) == Some(e));
                            }
                        } else {
                            assert(i + 1 <= p[0]);
                            assert(!(entry_at(entries, p) matches Some(x) && is_file_named(x, want)));
                        }
                    }
                },
            }
        } else {
            assert forall|p: Seq<usize>|
                #![trigger entry_at(entries, p)]
                p.len() > 0 && i <= p[0] && !is_file_named(e, want) && first_file_from(
                    entries,
                    i + 1,
                    want,
                ) is None implies !(entry_at(
                entries,
                p,
            ) matches Some(x) && is_file_named(x, want)) by {
                if p[0] == i {
                    if p.len() > 1 {
                        assert(entry_at(entries, p) is None);
                    } else {
                        assert(entry_at(entries, p) == Some(e));
                    }
                } else {
                    assert(i + 1 <= p[0]);
                    assert(!(entry_at(entries, p) matches Some(x) && is_file_named(x, want)));
                }
            }
        }
    }
}

/// What the search for a file finds is a file with that name, and it finds
/// nothing only when no entry anywhere in the listing is such a file.
pub proof fn law_find_exe_sound_and_complete<P>(entries: Seq<DirEntry<P>>, want: Seq<char>)
    requires
        listing_fits(entries),
    ensures
        first_file_from(entries, 0, want) matches Some(p) ==> (entry_at(entries, p) matches Some(e)
            && is_file_named(e, want)),
        first_file_from(entries, 0, want) is None ==> forall|p: Seq<usize>|
            !(#[trigger] entry_at(entries, p) matches Some(e) && is_file_named(e, want)),
{
    lemma_first_file_from(entries, 0, want);
    if first_file_from(entries, 0, want) is None {
        assert forall|p: Seq<usize>|
            !(#[trigger] entry_at(entries, p) matches Some(e) && is_file_named(e, want)) by {
            if p.len() > 0 {
                assert(0 <= p[0]);
            }
        }
    }
}

/// Progress of one download: bytes so far, the announced size if the server
/// gave one, and the last percentage reported.
pub struct DownloadProgress {
    pub total: Option<u64>,
    pub downloaded: u64,
    pub last_pct: u64,
}

/// Percentage done after `downloaded` bytes of `total` (a total of zero
/// counts as one).
pub open spec fn percent_of(downloaded: int, total: int) -> int {
    (downloaded * 100) / (if total >= 1 { total } else { 1 })
}

/// The percentage done is the whole part of `100 · downloaded / total`: it
/// is 0 before anything arrived, below 100 while fewer bytes than the total
/// arrived, exactly 100 once all of them did, and it never goes down as more
/// bytes arrive.
pub proof fn law_percent_done(downloaded: int, more: int, total: int)
    requires
        0 <= downloaded,
        0 <= more,
        1 <= total,
    ensures
        percent_of(0, total) == 0,
        percent_of(total, total) == 100,
        downloaded < total ==> percent_of(downloaded, total) < 100,
        percent_of(downloaded, total) * total <= 100 * downloaded < (percent_of(downloaded, total) + 1) * total,
        percent_of(downloaded, total) <= percent_of(downloaded + more, total),
{
    let p = percent_of(downloaded, total);
    assert(p == (downloaded * 100) / total);
    vstd::arithmetic::div_mod::lemma_fundamental_div_mod(downloaded * 100, total);
    assert(p * total <= 100 * downloaded < (p + 1) * total) by (nonlinear_arith)
        requires
            downloaded * 100 == total * p + (downloaded * 100) % total,
            0 <= (downloaded * 100) % total < total,
    ;
    if downloaded < total {
        assert(p < 100) by (nonlinear_arith)
            requires
                p * total <= 100 * downloaded,
                downloaded < total,
                1 <= total,
        ;
    }
    assert(downloaded * 100 <= (downloaded + more) * 100) by (nonlinear_arith)
        requires
            0 <= more,
    ;
    vstd::arithmetic::div_mod::lemma_div_is_ordered(downloaded * 100, (downloaded + more) * 100, total);
    assert(percent_of(total, total) == 100) by {
        vstd::arithmetic::div_mod::lemma_div_multiples_vanish(100, total);
        assert(total * 100 == 100 * total) by (nonlinear_arith);
    }
}

impl DownloadProgress {
    /// Every percentage reported so far is at most the current one.
    pub open spec fn wf(self) -> bool {
        match self.total {
            Some(t) => self.last_pct <= percent_of(self.downloaded as int, t as int),
            None => self.last_pct == 0,
        }
    }

    /// A download that has not received anything yet.
    pub fn new(total: Option<u64>) -> (r: Self)
        ensures
            r.total == total,
            r.downloaded == 0,
            r.last_pct == 0,
            r.wf(),
    {
        DownloadProgress { total, downloaded: 0, last_pct: 0 }
    }

    /// Account for `n` more bytes; gives back the percentage to report when
    /// the size is known and the percentage changed.
    pub fn advance(&mut self, n: u64) -> (r: Option<u64>)
        requires
            old(self).downloaded + n <= u64::MAX,
            old(self).total is Some ==> (old(self).downloaded + n) * 100 <= u64::MAX,
        ensures
            final(self).total == old(self).total,
            final(self).downloaded == old(self).downloaded + n,
            match old(self).total {
                None => r is None && final(self).last_pct == old(self).last_pct,
                Some(t) => {
                    let pct = percent_of(final(self).downloaded as int, t as int);
                    if pct != old(self).last_pct {
                        r == Some(pct as u64) && final(self).last_pct == pct
                    } else {
                        r is None && final(self).last_pct == old(self).last_pct
                    }
                },
            },
            // Progress stays well formed, and each reported percentage is
            // larger than the one reported before.
            old(self).wf() ==> final(self).wf(),
            old(self).wf() ==> (r matches Some(p) ==> old(self).last_pct < p),
    {
        proof {
            if let Some(t) = self.total {
                let d = if t >= 1 { t as int } else { 1int };
                let a = self.downloaded as int;
                let b = self.downloaded + n;
                assert(a * 100 <= b * 100) by (nonlinear_arith)
                    requires a <= b;
                vstd::arithmetic::div_mod::lemma_div_is_ordered(a * 100, b * 100, d);
            }
        }
        self.downloaded = self.downloaded + n;
        match self.total {
            Some(total) => {
                let denom = if total >= 1 { total } else { 1 };
                let pct = self.downloaded * 100 / denom;
                if pct != self.last_pct {
                    self.last_pct = pct;
                    Some(pct)
                } else {
                    None
                }
            },
            None => None,
        }
    }
}

/// Check the status of a download response: success passes, anything else
/// fails with `download <label>: HTTP <status>`.
pub fn check_download_status(label: &str, code: u16) -> (r: Result<(), String>)
    requires
        100 <= code <= 999,
    ensures
        200 <= code < 300 ==> r is Ok,
        !(200 <= code < 300) ==> (r matches Err(e) && e@ == "download "@ + label@ + ": HTTP "@
            + status_line(code)),
{
    if is_success(code) {
        Ok(())
    } else {
        let mut msg = concat_str("download ", label);
        msg.append(": HTTP ");
        let status = status_text(code);
        msg.append(status.as_str());
        Err(msg)
    }
}

/// What to download for a voice: nothing when both of its files are already
/// there (voices are fetched once and then used offline), otherwise the
/// locations of its model and model configuration.
pub fn voice_plan(key: &str, onnx_exists: bool, json_exists: bool) -> (r: Result<
    Option<(String, String)>,
    String,
>)
    ensures
        onnx_exists && json_exists ==> r == Ok::<Option<(String, String)>, String>(None),
        !(onnx_exists && json_exists) ==> match r {
            Ok(Some((onnx, json))) => exists|i: int|
                0 <= i < voice_catalog().len() && #[trigger] voice_catalog()[i].key@ == key@
                    && onnx@ == voice_base_url(voice_catalog()[i]) + ".onnx"@
                    && json@ == voice_base_url(voice_catalog()[i]) + ".onnx.json"@,
            Ok(None) => false,
            Err(e) => (forall|i: int|
                0 <= i < voice_catalog().len() ==> (#[trigger] voice_catalog()[i]).key@ != key@) && e@
                == unknown_voice_message(key@),
        },
{
    if onnx_exists && json_exists {
        return Ok(None);
    }
    let urls = voice_urls(key)?;
    Ok(Some(urls))
}

/// The engine download for a platform: the archive, where it comes from, and
/// whether it is a zip file.
pub struct EngineDownload {
    pub archive: &'static str,
    pub url: String,
    pub is_zip: bool,
}

/// What to download when the engine is not installed yet.
pub fn engine_plan(os: Os, arch: Arch) -> (r: Result<EngineDownload, String>)
    ensures
        match archive_for(os, arch) {
            Some(a) => r matches Ok(d) && d.archive == a && d.url@
                == "https://github.com/rhasspy/piper/releases/download/"@ + PIPER_RELEASE@ + "/"@ + a@
                && d.is_zip == ends_with_spec(a@, ".zip"@),
            None => r matches Err(e) && e@
                == "No Piper build is available for this platform/architecture."@,
        },
{
    let archive = archive_name(os, arch)?;
    let url = engine_url(archive);
    let is_zip = is_zip_archive(archive);
    Ok(EngineDownload { archive, url, is_zip })
}

/// The engine after unpacking: the executable that was found, or an error
/// when the archive did not hold one.
pub fn engine_after_extraction<P>(found: Option<P>) -> (r: Result<P, String>)
    ensures
        match found {
            Some(p) => r == Ok::<P, String>(p),
            None => r matches Err(e) && e@ == "Piper executable not found after extraction."@,
        },
{
    match found {
        Some(p) => Ok(p),
        None => Err(to_string("Piper executable not found after extraction.")),
    }
}

/// What unpacking does with one zip entry.
#[derive(Debug, Clone, Copy, PartialEq, Eq, Structural)]
pub enum ZipEntryAction {
    /// The entry's name would leave the destination (or is unusable).
    Skip,
    CreateDir,
    WriteFile,
}

/// Entries without a name inside the destination are skipped; directories
/// are created; everything else is written out as a file.
pub fn zip_entry_action(has_enclosed_name: bool, is_dir: bool) -> (r: ZipEntryAction)
    ensures
        r == (if !has_enclosed_name {
            ZipEntryAction::Skip
        } else if is_dir {
            ZipEntryAction::CreateDir
        } else {
            ZipEntryAction::WriteFile
        }),
{
    if !has_enclosed_name {
        ZipEntryAction::Skip
    } else if is_dir {
        ZipEntryAction::CreateDir
    } else {
        ZipEntryAction::WriteFile
    }
}

} // verus!

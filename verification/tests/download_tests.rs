use read_selected_text::download::{
    engine_after_extraction, engine_plan, voice_plan, zip_entry_action, ZipEntryAction,
    archive_name, check_download_status, engine_url, exe_name, find_exe, find_voice, installed_exe,
    is_zip_archive, piper_voices, voice_files, voice_urls, DirEntry, DownloadProgress, PIPER_RELEASE,
};
use read_selected_text::platform::{Arch, Os};

fn file(path: &str) -> DirEntry<String> {
    let name = path.rsplit('/').next().unwrap().to_string();
    DirEntry { name: Some(name), is_dir: false, path: path.to_string(), children: Vec::new() }
}

fn dir(path: &str, children: Vec<DirEntry<String>>) -> DirEntry<String> {
    let name = path.rsplit('/').next().unwrap().to_string();
    DirEntry { name: Some(name), is_dir: true, path: path.to_string(), children }
}

#[test]
fn catalog_has_nine_voices() {
    let v = piper_voices();
    assert_eq!(v.len(), 9);
    assert_eq!(v[0].key, "en_US-amy-medium");
    assert_eq!(v[0].name, "English (US) — Amy · female");
    assert_eq!(v[0].path, "en/en_US/amy/medium");
    assert_eq!(v[8].key, "hi_IN-priyamvada-medium");
}

#[test]
fn find_voice_by_key() {
    let v = find_voice("fr_FR-siwis-medium").unwrap();
    assert_eq!(v.name, "French — Siwis · female");
    assert_eq!(v.path, "fr/fr_FR/siwis/medium");
    assert_eq!(find_voice("xx_XX-nobody").err(), Some("unknown Piper voice: xx_XX-nobody".to_string()));
    assert!(find_voice("").is_err());
}

#[test]
fn every_catalog_voice_is_found_by_its_key() {
    for v in piper_voices() {
        assert_eq!(find_voice(v.key).unwrap().path, v.path);
    }
}

#[test]
fn voice_file_names() {
    let (onnx, json) = voice_files("en_US-amy-medium");
    assert_eq!(onnx, "en_US-amy-medium.onnx");
    assert_eq!(json, "en_US-amy-medium.onnx.json");
}

#[test]
fn voice_download_urls() {
    let (onnx, json) = voice_urls("de_DE-thorsten-medium").unwrap();
    assert_eq!(
        onnx,
        "https://huggingface.co/rhasspy/piper-voices/resolve/main/de/de_DE/thorsten/medium/de_DE-thorsten-medium.onnx"
    );
    assert_eq!(
        json,
        "https://huggingface.co/rhasspy/piper-voices/resolve/main/de/de_DE/thorsten/medium/de_DE-thorsten-medium.onnx.json"
    );
    assert_eq!(voice_urls("nope"), Err("unknown Piper voice: nope".to_string()));
}

#[test]
fn archive_names_per_platform() {
    assert_eq!(archive_name(Os::Windows, Arch::X86_64), Ok("piper_windows_amd64.zip"));
    assert_eq!(archive_name(Os::Windows, Arch::Aarch64), Ok("piper_windows_amd64.zip"));
    assert_eq!(archive_name(Os::Macos, Arch::X86_64), Ok("piper_macos_x64.tar.gz"));
    assert_eq!(archive_name(Os::Macos, Arch::Aarch64), Ok("piper_macos_aarch64.tar.gz"));
    assert_eq!(archive_name(Os::Linux, Arch::X86_64), Ok("piper_linux_x86_64.tar.gz"));
    assert_eq!(archive_name(Os::Linux, Arch::Aarch64), Ok("piper_linux_aarch64.tar.gz"));
    let unsupported = Err("No Piper build is available for this platform/architecture.".to_string());
    assert_eq!(archive_name(Os::Linux, Arch::Other), unsupported);
    assert_eq!(archive_name(Os::OtherUnix, Arch::X86_64), unsupported);
    assert_eq!(archive_name(Os::Macos, Arch::Other), unsupported);
}

#[test]
fn exe_names() {
    assert_eq!(exe_name(Os::Windows), "piper.exe");
    assert_eq!(exe_name(Os::Linux), "piper");
    assert_eq!(exe_name(Os::Macos), "piper");
}

#[test]
fn engine_download_url() {
    assert_eq!(PIPER_RELEASE, "2023.11.14-2");
    assert_eq!(
        engine_url("piper_linux_x86_64.tar.gz"),
        "https://github.com/rhasspy/piper/releases/download/2023.11.14-2/piper_linux_x86_64.tar.gz"
    );
    assert!(is_zip_archive("piper_windows_amd64.zip"));
    assert!(!is_zip_archive("piper_macos_x64.tar.gz"));
    assert!(!is_zip_archive("zip"));
}

#[test]
fn find_exe_walks_directories_first() {
    let tree = vec![
        file("README"),
        dir("piper", vec![file("piper/libonnxruntime.so"), dir("piper/bin", vec![file("piper/bin/piper")])]),
        file("piper"),
    ];
    assert_eq!(find_exe(&tree, "piper"), Some(&"piper/bin/piper".to_string()));
}

#[test]
fn find_exe_skips_directories_with_the_name_and_unreadable_names() {
    let tree = vec![
        dir("piper", vec![]),
        DirEntry { name: None, is_dir: false, path: "\u{fffd}".to_string(), children: Vec::new() },
        file("piper.exe"),
    ];
    assert_eq!(find_exe(&tree, "piper"), None);
    assert_eq!(find_exe(&tree, "piper.exe"), Some(&"piper.exe".to_string()));
    assert_eq!(find_exe(&Vec::<DirEntry<String>>::new(), "piper"), None);
}

#[test]
fn installed_exe_uses_the_platform_name() {
    let tree = vec![dir("e/piper", vec![file("e/piper/piper"), file("e/piper/piper.exe")])];
    assert_eq!(installed_exe(Os::Linux, &tree), Some(&"e/piper/piper".to_string()));
    assert_eq!(installed_exe(Os::Windows, &tree), Some(&"e/piper/piper.exe".to_string()));
}

#[test]
fn progress_reports_each_new_percentage() {
    let mut p = DownloadProgress::new(Some(200));
    assert_eq!(p.advance(1), None); // 0%
    assert_eq!(p.advance(1), Some(1));
    assert_eq!(p.advance(0), None);
    assert_eq!(p.advance(98), Some(50));
    assert_eq!(p.advance(100), Some(100));
    assert_eq!(p.downloaded, 200);
    assert_eq!(p.last_pct, 100);
}

#[test]
fn progress_without_size_reports_nothing() {
    let mut p = DownloadProgress::new(None);
    assert_eq!(p.advance(65536), None);
    assert_eq!(p.downloaded, 65536);
}

#[test]
fn progress_with_zero_size_counts_one_byte() {
    let mut p = DownloadProgress::new(Some(0));
    assert_eq!(p.advance(3), Some(300));
}

#[test]
fn download_status() {
    assert_eq!(check_download_status("voice", 200), Ok(()));
    assert_eq!(check_download_status("voice", 299), Ok(()));
    assert_eq!(check_download_status("engine", 404), Err("download engine: HTTP 404 Not Found".to_string()));
    assert_eq!(check_download_status("voice", 302), Err("download voice: HTTP 302 Found".to_string()));
}

#[test]
fn voices_download_only_when_missing() {
    assert_eq!(voice_plan("en_US-amy-medium", true, true), Ok(None));
    assert_eq!(voice_plan("not-a-voice", true, true), Ok(None));
    let (onnx, json) = voice_plan("en_US-amy-medium", true, false).unwrap().unwrap();
    assert!(onnx.ends_with("en/en_US/amy/medium/en_US-amy-medium.onnx"));
    assert!(json.ends_with("en_US-amy-medium.onnx.json"));
    assert_eq!(voice_plan("nope", false, false), Err("unknown Piper voice: nope".to_string()));
}

#[test]
fn engine_download_plan() {
    let p = engine_plan(Os::Windows, Arch::Aarch64).unwrap();
    assert_eq!(p.archive, "piper_windows_amd64.zip");
    assert_eq!(p.url, "https://github.com/rhasspy/piper/releases/download/2023.11.14-2/piper_windows_amd64.zip");
    assert!(p.is_zip);
    let p = engine_plan(Os::Macos, Arch::Aarch64).unwrap();
    assert!(!p.is_zip);
    assert_eq!(
        engine_plan(Os::OtherUnix, Arch::X86_64).err(),
        Some("No Piper build is available for this platform/architecture.".to_string())
    );
    assert_eq!(engine_after_extraction(Some(3)), Ok(3));
    assert_eq!(
        engine_after_extraction::<u8>(None),
        Err("Piper executable not found after extraction.".to_string())
    );
}

#[test]
fn zip_entries() {
    assert_eq!(zip_entry_action(false, true), ZipEntryAction::Skip);
    assert_eq!(zip_entry_action(false, false), ZipEntryAction::Skip);
    assert_eq!(zip_entry_action(true, true), ZipEntryAction::CreateDir);
    assert_eq!(zip_entry_action(true, false), ZipEntryAction::WriteFile);
}

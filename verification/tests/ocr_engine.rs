use screentime_pro::ocr_engine::{
    checksum_verdict, default_engine, ort_thread_count, download_base, download_url, effective_kind, ort_lib_name,
    system_engine_available, to_hex, verdict_for_digest, ChecksumVerdict, EngineKind, EnginePaths,
};
use screentime_pro::platform::{platform_name, Platform};

#[test]
fn parse_falls_back_to_system() {
    assert_eq!(EngineKind::parse("enhanced"), EngineKind::Enhanced);
    assert_eq!(EngineKind::parse("ONNX"), EngineKind::Enhanced);
    assert_eq!(EngineKind::parse("system"), EngineKind::System);
    assert_eq!(EngineKind::parse(""), EngineKind::System);
    assert_eq!(EngineKind::parse("   "), EngineKind::System);
    assert_eq!(EngineKind::parse("garbage"), EngineKind::System);
}

#[test]
fn roundtrip_as_str() {
    for k in [EngineKind::System, EngineKind::Enhanced] {
        assert_eq!(EngineKind::parse(k.as_str()), k);
    }
}

#[test]
fn parse_trims_and_lowercases() {
    assert_eq!(EngineKind::parse("  Enhanced\t\n"), EngineKind::Enhanced);
    assert_eq!(EngineKind::parse("\u{3000}onnx"), EngineKind::Enhanced);
    assert_eq!(EngineKind::parse("en hanced"), EngineKind::System);
}

#[test]
fn system_engine_only_on_windows() {
    assert!(system_engine_available(Platform::Windows));
    assert!(!system_engine_available(Platform::MacOS));
    assert!(!system_engine_available(Platform::Linux));
    assert_eq!(default_engine(Platform::Windows), EngineKind::System);
    assert_eq!(default_engine(Platform::Linux), EngineKind::Enhanced);
    assert_eq!(effective_kind("system", Platform::MacOS), EngineKind::Enhanced);
    assert_eq!(effective_kind("system", Platform::Windows), EngineKind::System);
    assert_eq!(effective_kind("junk", Platform::Windows), EngineKind::System);
    assert_eq!(effective_kind("junk", Platform::Linux), EngineKind::Enhanced);
}

#[test]
fn platform_names() {
    assert_eq!(platform_name(Platform::MacOS), "macos");
    assert_eq!(platform_name(Platform::Windows), "windows");
    assert_eq!(platform_name(Platform::Linux), "linux");
    assert_eq!(platform_name(Platform::Other), "unknown");
}

#[test]
fn runtime_library_names_and_urls() {
    assert_eq!(ort_lib_name(Platform::Windows), "onnxruntime.dll");
    assert_eq!(ort_lib_name(Platform::MacOS), "libonnxruntime.dylib");
    assert_eq!(ort_lib_name(Platform::Linux), "libonnxruntime.so");
    assert_eq!(download_url("https://a.b/c//", "x.so"), "https://a.b/c/x.so");
    assert_eq!(download_url("https://a.b/c", "x.so"), "https://a.b/c/x.so");
    assert_eq!(download_base(Some("  ".into())), "https://github.com/Slk90s/screentime-pro/releases/download/ocr-runtime");
    assert_eq!(download_base(None), "https://github.com/Slk90s/screentime-pro/releases/download/ocr-runtime");
    assert_eq!(download_base(Some("https://mirror".into())), "https://mirror");
}

#[test]
fn sha256_checksum_is_checked() {
    // SHA-256 of "abc".
    let abc = "ba7816bf8f01cfea414140de5dae2223b00361a396177a9cb410ff61f20015ad";
    assert_eq!(checksum_verdict(b"abc", &format!("{}  libonnxruntime.so\n", abc)), ChecksumVerdict::Match);
    assert_eq!(checksum_verdict(b"abc", &abc.to_uppercase()), ChecksumVerdict::Match);
    assert_eq!(checksum_verdict(b"abd", abc), ChecksumVerdict::Mismatch);
    assert_eq!(checksum_verdict(b"abc", "   \n"), ChecksumVerdict::NoChecksum);
    assert_eq!(String::from_iter(to_hex(&[0x00, 0x0f, 0xa5, 0xff])), "000fa5ff");
    assert_eq!(verdict_for_digest(&[0xab], "AB"), ChecksumVerdict::Match);
}

#[test]
fn engine_paths_readiness() {
    let p = EnginePaths { ort_lib: Some("/x/libonnxruntime.so".into()), models_dir: Some("/x/models".into()) };
    assert_eq!(p.ort_lib_path(), Some("/x/libonnxruntime.so"));
    assert_eq!(p.models_path(), Some("/x/models"));
    assert!(p.enhanced_ready(true, true));
    assert!(!p.enhanced_ready(false, true));
    let empty = EnginePaths { ort_lib: None, models_dir: None };
    assert!(!empty.enhanced_ready(true, true));
    assert_eq!(empty.models_path(), None);
}

#[test]
fn thread_count_override_and_defaults() {
    assert_eq!(ort_thread_count(Some(" 6 "), Some(8)), 6);
    assert_eq!(ort_thread_count(Some("0"), Some(8)), 1);
    assert_eq!(ort_thread_count(Some("100"), None), 32);
    assert_eq!(ort_thread_count(Some("many"), Some(8)), 4);
    assert_eq!(ort_thread_count(Some(""), Some(1)), 2);
    assert_eq!(ort_thread_count(None, Some(3)), 3);
    assert_eq!(ort_thread_count(None, None), 4);
}

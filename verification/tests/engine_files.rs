use screentime_pro::engine_files::{candidate_roots, models_candidates, ort_lib_candidates, user_ort_dir};
use screentime_pro::platform::Platform;

#[test]
fn search_folders_in_order() {
    let roots = candidate_roots(
        Some("/opt/app/bin/screentime"),
        Some("/res"),
        "/src",
        Some("/home/u/.cache/screentime-pro/ort"),
    );
    assert_eq!(
        roots,
        vec![
            "/opt/app/bin",
            "/opt/app/bin/resources",
            "/res",
            "/res/resources",
            "/src",
            "/home/u/.cache/screentime-pro/ort",
            "/home/u/.cache/screentime-pro",
        ]
    );
    assert_eq!(candidate_roots(None, None, "/src", None), vec!["/src"]);
}

#[test]
fn user_folder_per_platform() {
    assert_eq!(user_ort_dir(Platform::Linux, None, Some("/home/u")).as_deref(), Some("/home/u/.cache/screentime-pro/ort"));
    assert_eq!(
        user_ort_dir(Platform::MacOS, None, Some("/Users/u")).as_deref(),
        Some("/Users/u/Library/Caches/com.screentime.pro/ort")
    );
    assert_eq!(user_ort_dir(Platform::Windows, None, Some("/home/u")), None);
    assert_eq!(user_ort_dir(Platform::Linux, Some("x"), None), None);
}

#[test]
fn files_tried_in_each_folder() {
    let roots = vec!["/a".to_string(), "/b".to_string()];
    assert_eq!(
        ort_lib_candidates(Some("/x/libonnxruntime.so"), &roots, "libonnxruntime.so"),
        vec!["/x/libonnxruntime.so", "/a/ort/libonnxruntime.so", "/a/libonnxruntime.so", "/b/ort/libonnxruntime.so", "/b/libonnxruntime.so"]
    );
    assert_eq!(models_candidates(Some(""), &roots), vec!["/a/models", "/b/models"]);
    assert_eq!(models_candidates(Some("/m"), &roots), vec!["/m", "/a/models", "/b/models"]);
}

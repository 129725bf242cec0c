use screentime_pro::permission::{
    build_error, bundle_path_from_exe, ensure_ready, ensure_screen_capture_ready, is_translocated,
    preflight_request_on_startup, request_permission, reset_outcome, short_error, signature_info,
    status_snapshot, CaptureGate, CodesignRun, GateStep, PermissionSignals, TitlesProbe,
};

fn sig(preflight: bool, titles: TitlesProbe) -> PermissionSignals {
    PermissionSignals {
        preflight,
        titles,
        exe_path: "/Applications/ScreenTime Pro.app/Contents/MacOS/screentime".into(),
        bundle_path: Some("/Applications/ScreenTime Pro.app".into()),
        translocated: false,
        quarantined: false,
        adhoc_unsigned: None,
        signature_summary: String::new(),
    }
}

#[test]
fn either_signal_permits() {
    assert!(sig(true, TitlesProbe::Redacted).permitted());
    assert!(sig(false, TitlesProbe::Readable).permitted());
    assert!(!sig(false, TitlesProbe::Inconclusive).permitted());
}

#[test]
fn reason_codes_by_priority() {
    let mut s = sig(false, TitlesProbe::Redacted);
    assert_eq!(short_error(&s), "__PERM__:not_granted");
    s.adhoc_unsigned = Some(true);
    assert_eq!(short_error(&s), "__PERM__:adhoc_signature");
    s.quarantined = true;
    assert_eq!(short_error(&s), "__PERM__:quarantined");
    s.translocated = true;
    assert_eq!(short_error(&s), "__PERM__:app_translocated");
    let snap = status_snapshot(&s);
    assert_eq!(snap.reason, "app_translocated");
    assert_eq!(snap.titles, "redacted");
    assert!(!snap.permitted);
    let ok = request_permission(&sig(true, TitlesProbe::Inconclusive));
    assert_eq!(ok.reason, "ok");
}

#[test]
fn gate_steps() {
    assert!(matches!(ensure_ready(&sig(true, TitlesProbe::Redacted), false), GateStep::Proceed));
    let s = sig(false, TitlesProbe::Redacted);
    assert!(matches!(ensure_ready(&s, false), GateStep::RequestAndRecheck));
    match ensure_ready(&s, true) {
        GateStep::Refuse { dialog, log } => {
            assert_eq!(dialog, "__PERM__:not_granted");
            assert!(log.contains("tccutil reset ScreenCapture com.screentime.pro"));
            assert!(log.contains("交叉验证：屏幕上其他应用的**窗口标题一个都读不到**"));
        }
        _ => panic!("must refuse"),
    }
    assert!(preflight_request_on_startup(false));
    assert!(!preflight_request_on_startup(true));
}

#[test]
fn explanation_lists_evidence() {
    let mut s = sig(false, TitlesProbe::Inconclusive);
    s.quarantined = true;
    s.signature_summary = "Signature=adhoc".into();
    let log = build_error(&s);
    assert!(log.contains("xattr -dr com.apple.quarantine \"/Applications/ScreenTime Pro.app\""));
    assert!(log.contains("签名信息：Signature=adhoc\n"));
    assert!(log.ends_with("（以官方预检为准）。\n"));
    assert!(log.contains("运行路径：/Applications/ScreenTime Pro.app/Contents/MacOS/screentime\n"));
    assert!(!log.contains("App Translocation"));
    assert_eq!(
        s.summary(),
        "preflight=false titles=Inconclusive translocated=false quarantined=true adhoc_unsigned=None exe=/Applications/ScreenTime Pro.app/Contents/MacOS/screentime"
    );
}

#[test]
fn bundle_and_translocation() {
    assert_eq!(
        bundle_path_from_exe("/Applications/X.app/Contents/MacOS/X").as_deref(),
        Some("/Applications/X.app")
    );
    assert_eq!(bundle_path_from_exe("/home/u/target/debug/x"), None);
    assert!(is_translocated("/private/var/folders/AppTranslocation/ABC/d/X.app/Contents/MacOS/X"));
    assert!(!is_translocated("/Applications/X.app"));
    match ensure_screen_capture_ready(false, true, "/x/AppTranslocation/y") {
        CaptureGate::Refuse(m) => assert!(m.contains("：/x/AppTranslocation/y\n")),
        _ => panic!("must refuse"),
    }
    assert!(matches!(ensure_screen_capture_ready(true, true, "/x"), CaptureGate::Ready));
}

#[test]
fn codesign_and_tccutil_results() {
    let run = |success: bool, err: &str| CodesignRun { success, stderr: err.into(), stdout: String::new() };
    assert_eq!(signature_info(false, Ok(run(true, ""))), (None, "开发态运行（非 .app 包），跳过签名检查".to_string()));
    assert_eq!(
        signature_info(true, Ok(run(false, "x: code object is NOT SIGNED at all"))),
        (Some(true), "未签名（code object is not signed at all）".to_string())
    );
    assert_eq!(signature_info(true, Ok(run(false, "a\nboom\n"))), (None, "codesign 查询失败：boom".to_string()));
    assert_eq!(
        signature_info(true, Ok(run(true, "Executable=/x\nIdentifier=com.x\nSignature=adhoc\nTeamIdentifier=not set\n"))),
        (Some(true), "Identifier=com.x | Signature=adhoc | TeamIdentifier=not set".to_string())
    );
    assert_eq!(signature_info(true, Ok(run(true, "nothing"))), (Some(false), "codesign 未给出签名详情".to_string()));
    assert_eq!(signature_info(true, Err("no such file".into())), (None, "无法执行 codesign: no such file".to_string()));
    assert_eq!(reset_outcome(Ok(run(true, ""))), Ok("已清除本应用的「屏幕录制」授权记录，重新授权即可。".to_string()));
    assert_eq!(reset_outcome(Ok(run(false, " denied "))), Err("重置失败：denied".to_string()));
}

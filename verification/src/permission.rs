//! The screen-recording permission gate used before a capture on macOS:
//! two independent signals decide whether capturing works, and when it
//! does not, the evidence found is turned into a reason code for the
//! dialog and a full explanation for the log. Gathering the evidence
//! (system calls and helper processes) is the caller's part.

use vstd::prelude::*;
use crate::text::{str_to_chars, chars_to_string, lowercase, seq_contains, chars_contains, to_lowercase,
    trim_seq, trim_chars, spec_lines, split_lines, views, seq_starts_with, chars_starts_with, str_eq};

verus! {

/// The application's bundle identifier.
pub open spec fn bundle_id() -> Seq<char> {
    "com.screentime.pro"@
}

/// The second, independent signal: whether window titles of other
/// processes can be read (titles and contents share one permission).
#[derive(Debug, Clone, Copy, PartialEq, Eq, Structural)]
pub enum TitlesProbe {
    /// A title of another process was readable: the permission is in force.
    Readable,
    /// Other windows are on screen but every title is blanked out.
    Redacted,
    /// No other ordinary window is on screen: no conclusion.
    Inconclusive,
}

/// The evidence gathered by one permission check.
#[derive(Debug, Clone)]
pub struct PermissionSignals {
    /// The system's preflight answer (it can be a stale `false`).
    pub preflight: bool,
    pub titles: TitlesProbe,
    /// Path of the running executable.
    pub exe_path: String,
    /// The `.app` bundle the executable lives in, when there is one.
    pub bundle_path: Option<String>,
    /// Started from a randomised read-only copy (App Translocation).
    pub translocated: bool,
    /// The bundle carries the download quarantine mark.
    pub quarantined: bool,
    /// `Some(true)` for an ad-hoc or unsigned build; `None` when unknown.
    pub adhoc_unsigned: Option<bool>,
    /// Signature details for the log.
    pub signature_summary: String,
}

pub open spec fn spec_permitted(s: PermissionSignals) -> bool {
    s.preflight || s.titles == TitlesProbe::Readable
}

pub open spec fn bool_word(b: bool) -> Seq<char> {
    if b {
        "true"@
    } else {
        "false"@
    }
}

pub open spec fn probe_debug(t: TitlesProbe) -> Seq<char> {
    match t {
        TitlesProbe::Readable => "Readable"@,
        TitlesProbe::Redacted => "Redacted"@,
        TitlesProbe::Inconclusive => "Inconclusive"@,
    }
}

pub open spec fn opt_bool_debug(o: Option<bool>) -> Seq<char> {
    match o {
        Some(true) => "Some(true)"@,
        Some(false) => "Some(false)"@,
        None => "None"@,
    }
}

/// The one-line log summary of the evidence.
pub open spec fn spec_summary(s: PermissionSignals) -> Seq<char> {
    "preflight="@ + bool_word(s.preflight) + " titles="@ + probe_debug(s.titles)
        + " translocated="@ + bool_word(s.translocated) + " quarantined="@ + bool_word(
        s.quarantined,
    ) + " adhoc_unsigned="@ + opt_bool_debug(s.adhoc_unsigned) + " exe="@ + s.exe_path@
}

fn push_str(out: &mut Vec<char>, s: &str)
    ensures
        final(out)@ == old(out)@ + s@,
{
    let mut t = str_to_chars(s);
    out.append(&mut t);
}

fn word(b: bool) -> (r: &'static str)
    ensures
        r@ == bool_word(b),
{
    if b {
        "true"
    } else {
        "false"
    }
}

impl PermissionSignals {
    /// Capturing may go ahead: the preflight says yes, or a title was
    /// readable (either signal suffices; a stale preflight is overridden).
    pub fn permitted(&self) -> (r: bool)
        ensures
            r == spec_permitted(*self),
    {
        self.preflight || self.titles == TitlesProbe::Readable
    }

    /// The one-line log summary (see [`spec_summary`]).
    pub fn summary(&self) -> (r: String)
        ensures
            r@ == spec_summary(*self),
    {
        let mut v: Vec<char> = Vec::new();
        push_str(&mut v, "preflight=");
        push_str(&mut v, word(self.preflight));
        push_str(&mut v, " titles=");
        push_str(
            &mut v,
            match self.titles {
                TitlesProbe::Readable => "Readable",
                TitlesProbe::Redacted => "Redacted",
                TitlesProbe::Inconclusive => "Inconclusive",
            },
        );
        push_str(&mut v, " translocated=");
        push_str(&mut v, word(self.translocated));
        push_str(&mut v, " quarantined=");
        push_str(&mut v, word(self.quarantined));
        push_str(&mut v, " adhoc_unsigned=");
        push_str(
            &mut v,
            match self.adhoc_unsigned {
                Some(true) => "Some(true)",
                Some(false) => "Some(false)",
                None => "None",
            },
        );
        push_str(&mut v, " exe=");
        push_str(&mut v, self.exe_path.as_str());
        assert(v@ =~= spec_summary(*self));
        chars_to_string(v.as_slice())
    }
}

/// The reason code of a refusal, by priority: translocation, quarantine,
/// ad-hoc signature, plain refusal.
pub open spec fn spec_reason(s: PermissionSignals) -> Seq<char> {
    if s.translocated {
        "app_translocated"@
    } else if s.quarantined {
        "quarantined"@
    } else if s.adhoc_unsigned == Some(true) {
        "adhoc_signature"@
    } else {
        "not_granted"@
    }
}

fn reason_code(s: &PermissionSignals) -> (r: &'static str)
    ensures
        r@ == spec_reason(*s),
{
    if s.translocated {
        "app_translocated"
    } else if s.quarantined {
        "quarantined"
    } else if s.adhoc_unsigned == Some(true) {
        "adhoc_signature"
    } else {
        "not_granted"
    }
}

/// The dialog's one-line refusal: `__PERM__:` and the reason code.
pub fn short_error(s: &PermissionSignals) -> (r: String)
    ensures
        r@ == "__PERM__:"@ + spec_reason(*s),
{
    let mut v = str_to_chars("__PERM__:");
    push_str(&mut v, reason_code(s));
    chars_to_string(v.as_slice())
}

pub open spec fn intro_text() -> Seq<char> {
    "缺少「屏幕录制」权限：macOS 会拦截其他应用的窗口内容，截出来只剩桌面壁纸。\n（不是没截到，是内容被系统主动抹掉了。截图前必须拿到这张授权。）\n\n① 打开「系统设置 → 隐私与安全性 → 屏幕录制」，在本应用（ScreenTime Pro）前打勾；\n② 然后**完全退出**本应用再重新打开 —— 新授权只对新启动的进程生效，只开开关不重启没用；\n③ 若那里本来就是开着的：先点左下角「−」把本应用移除，再重新打开本应用授权。\n   （在本应用「设置 → 截图」点「重置权限并重启」等价于终端执行：\n"@
}

pub open spec fn translocation_text() -> Seq<char> {
    "⚠️ 检测到 App Translocation（从临时只读路径启动）：\n从 DMG／下载目录里直接双击 .app 时，macOS 会先把它挪到一个**随机只读路径**再运行。\n你刚才勾选授权的那份 App 与正在运行的这一份**不是同一个身份**，\n而且每次启动路径还会变 —— 所以重启多少次都不会生效。\n✅ 处理：把 App 拖进「应用程序」文件夹，从那里启动，再重新授权。\n"@
}

pub open spec fn quarantine_text() -> Seq<char> {
    "⚠️ 应用带下载隔离标记（com.apple.quarantine），会持续触发上面的临时路径运行。\n"@
}

pub open spec fn adhoc_text() -> Seq<char> {
    "⚠️ 本应用未做开发者签名（ad-hoc／未签名）—— 这是「授权反复失效」的**根因**。\nmacOS 把授权记在「代码签名指纹」上，未签名应用的指纹每次重新构建都会变：\n每个新版本在系统眼里都是一个全新的 App，而系统设置里那个「开」是**旧版本**的记录。\n所以本版必须重新做上面 ③（移除 → 重新授权）。\n根治办法：用 Apple Developer ID 对 macOS 包做签名 + 公证。\n"@
}

pub open spec fn redacted_text() -> Seq<char> {
    "交叉验证：屏幕上其他应用的**窗口标题一个都读不到**（被系统隐私机制抹掉）\n→ 与预检一致，确认授权确实未生效。\n"@
}

pub open spec fn inconclusive_text() -> Seq<char> {
    "交叉验证：屏幕上没有其他应用的普通窗口，本次无法二次确认（以官方预检为准）。\n"@
}

pub open spec fn head_part(s: PermissionSignals) -> Seq<char> {
    intro_text() + "       tccutil reset ScreenCapture "@ + bundle_id() + "\n）\n"@ + "\n—— 本次实际检测到的情况 ——\n"@ + "运行路径："@
        + s.exe_path@ + "\n"@
}

pub open spec fn translocation_part(s: PermissionSignals) -> Seq<char> {
    if s.translocated {
        translocation_text()
    } else {
        Seq::empty()
    }
}

pub open spec fn quarantine_part(s: PermissionSignals) -> Seq<char> {
    if s.quarantined {
        quarantine_text() + match s.bundle_path {
            Some(b) => "✅ 处理：终端执行 xattr -dr com.apple.quarantine \""@ + b@ + "\" 后再重新授权。\n"@,
            None => Seq::empty(),
        }
    } else {
        Seq::empty()
    }
}

pub open spec fn adhoc_part(s: PermissionSignals) -> Seq<char> {
    if s.adhoc_unsigned == Some(true) {
        adhoc_text()
    } else {
        Seq::empty()
    }
}

pub open spec fn signature_part(s: PermissionSignals) -> Seq<char> {
    if s.signature_summary@.len() == 0 {
        Seq::empty()
    } else {
        "签名信息："@ + s.signature_summary@ + "\n"@
    }
}

pub open spec fn titles_part(s: PermissionSignals) -> Seq<char> {
    match s.titles {
        TitlesProbe::Readable => Seq::empty(),
        TitlesProbe::Redacted => redacted_text(),
        TitlesProbe::Inconclusive => inconclusive_text(),
    }
}

/// The full explanation written to the log when capturing is refused: the
/// steps to take, then each piece of evidence that applies.
pub open spec fn spec_build_error(s: PermissionSignals) -> Seq<char> {
    head_part(s) + translocation_part(s) + quarantine_part(s) + adhoc_part(s) + signature_part(s)
        + titles_part(s)
}

fn head_chars(s: &PermissionSignals) -> (m: Vec<char>)
    ensures
        m@ == head_part(*s),
{
    let mut m: Vec<char> = Vec::new();
    push_str(&mut m, "缺少「屏幕录制」权限：macOS 会拦截其他应用的窗口内容，截出来只剩桌面壁纸。\n（不是没截到，是内容被系统主动抹掉了。截图前必须拿到这张授权。）\n\n① 打开「系统设置 → 隐私与安全性 → 屏幕录制」，在本应用（ScreenTime Pro）前打勾；\n② 然后**完全退出**本应用再重新打开 —— 新授权只对新启动的进程生效，只开开关不重启没用；\n③ 若那里本来就是开着的：先点左下角「−」把本应用移除，再重新打开本应用授权。\n   （在本应用「设置 → 截图」点「重置权限并重启」等价于终端执行：\n");
    push_str(&mut m, "       tccutil reset ScreenCapture ");
    push_str(&mut m, "com.screentime.pro");
    push_str(&mut m, "\n）\n");
    push_str(&mut m, "\n—— 本次实际检测到的情况 ——\n");
    push_str(&mut m, "运行路径：");
    push_str(&mut m, s.exe_path.as_str());
    push_str(&mut m, "\n");
    assert(m@ =~= head_part(*s));
    m
}

fn quarantine_chars(s: &PermissionSignals) -> (m: Vec<char>)
    ensures
        m@ == quarantine_part(*s),
{
    let mut m: Vec<char> = Vec::new();
    if s.quarantined {
        push_str(&mut m, "⚠️ 应用带下载隔离标记（com.apple.quarantine），会持续触发上面的临时路径运行。\n");
        match &s.bundle_path {
            Some(b) => {
                push_str(&mut m, "✅ 处理：终端执行 xattr -dr com.apple.quarantine \"");
                push_str(&mut m, b.as_str());
                push_str(&mut m, "\" 后再重新授权。\n");
            },
            None => {},
        }
    }
    assert(m@ =~= quarantine_part(*s));
    m
}

fn signature_chars(s: &PermissionSignals) -> (m: Vec<char>)
    ensures
        m@ == signature_part(*s),
{
    let mut m: Vec<char> = Vec::new();
    if str_to_chars(s.signature_summary.as_str()).len() > 0 {
        push_str(&mut m, "签名信息：");
        push_str(&mut m, s.signature_summary.as_str());
        push_str(&mut m, "\n");
    }
    assert(m@ =~= signature_part(*s));
    m
}

/// Builds the log explanation (see [`spec_build_error`]).
pub fn build_error(s: &PermissionSignals) -> (r: String)
    ensures
        r@ == spec_build_error(*s),
{
    let mut m = head_chars(s);
    if s.translocated {
        push_str(&mut m, "⚠️ 检测到 App Translocation（从临时只读路径启动）：\n从 DMG／下载目录里直接双击 .app 时，macOS 会先把它挪到一个**随机只读路径**再运行。\n你刚才勾选授权的那份 App 与正在运行的这一份**不是同一个身份**，\n而且每次启动路径还会变 —— 所以重启多少次都不会生效。\n✅ 处理：把 App 拖进「应用程序」文件夹，从那里启动，再重新授权。\n");
    }
    let mut q = quarantine_chars(s);
    m.append(&mut q);
    if s.adhoc_unsigned == Some(true) {
        push_str(&mut m, "⚠️ 本应用未做开发者签名（ad-hoc／未签名）—— 这是「授权反复失效」的**根因**。\nmacOS 把授权记在「代码签名指纹」上，未签名应用的指纹每次重新构建都会变：\n每个新版本在系统眼里都是一个全新的 App，而系统设置里那个「开」是**旧版本**的记录。\n所以本版必须重新做上面 ③（移除 → 重新授权）。\n根治办法：用 Apple Developer ID 对 macOS 包做签名 + 公证。\n");
    }
    let mut g = signature_chars(s);
    m.append(&mut g);
    match s.titles {
        TitlesProbe::Readable => {},
        TitlesProbe::Redacted => push_str(&mut m, "交叉验证：屏幕上其他应用的**窗口标题一个都读不到**（被系统隐私机制抹掉）\n→ 与预检一致，确认授权确实未生效。\n"),
        TitlesProbe::Inconclusive => push_str(&mut m, "交叉验证：屏幕上没有其他应用的普通窗口，本次无法二次确认（以官方预检为准）。\n"),
    }
    assert(m@ =~= spec_build_error(*s));
    chars_to_string(m.as_slice())
}

/// What the permission dialog polls: the two signals, the verdict, and the
/// reason code (`ok` when capturing may go ahead).
#[derive(Debug, Clone)]
pub struct PermissionStatusSnapshot {
    pub preflight: bool,
    /// `readable`, `redacted` or `inconclusive`.
    pub titles: &'static str,
    pub permitted: bool,
    pub reason: &'static str,
}

pub open spec fn probe_word(t: TitlesProbe) -> Seq<char> {
    match t {
        TitlesProbe::Readable => "readable"@,
        TitlesProbe::Redacted => "redacted"@,
        TitlesProbe::Inconclusive => "inconclusive"@,
    }
}

/// The status snapshot of the evidence `s`.
pub fn status_snapshot(s: &PermissionSignals) -> (r: PermissionStatusSnapshot)
    ensures
        r.preflight == s.preflight,
        r.titles@ == probe_word(s.titles),
        r.permitted == spec_permitted(*s),
        r.reason@ == (if spec_permitted(*s) {
            "ok"@
        } else {
            spec_reason(*s)
        }),
{
    let titles = match s.titles {
        TitlesProbe::Readable => "readable",
        TitlesProbe::Redacted => "redacted",
        TitlesProbe::Inconclusive => "inconclusive",
    };
    let reason = if s.permitted() {
        "ok"
    } else {
        reason_code(s)
    };
    PermissionStatusSnapshot { preflight: s.preflight, titles, permitted: s.permitted(), reason }
}

/// The next step of the capture gate.
#[derive(Debug, Clone)]
pub enum GateStep {
    /// Capturing may go ahead.
    Proceed,
    /// Ask the system for the permission once, gather the evidence again and
    /// come back.
    RequestAndRecheck,
    /// Refused: the dialog shows this text; the log gets the full
    /// explanation.
    Refuse { dialog: String, log: String },
}

/// The next step for evidence `s`. Proceed when it permits; otherwise
/// request the permission once; if the evidence collected after that
/// request still does not permit, refuse.
pub fn ensure_ready(s: &PermissionSignals, already_requested: bool) -> (r: GateStep)
    ensures
        spec_permitted(*s) ==> r is Proceed,
        !spec_permitted(*s) && !already_requested ==> r is RequestAndRecheck,
        !spec_permitted(*s) && already_requested ==> (r matches GateStep::Refuse { dialog, log }
            && dialog@ == "__PERM__:"@ + spec_reason(*s) && log@ == spec_build_error(*s)),
{
    if s.permitted() {
        GateStep::Proceed
    } else if !already_requested {
        GateStep::RequestAndRecheck
    } else {
        GateStep::Refuse { dialog: short_error(s), log: build_error(s) }
    }
}

/// A refusal always carries one of the four reason codes, never `ok`.
pub proof fn law_refusal_reason(s: PermissionSignals)
    ensures
        spec_reason(s) == "app_translocated"@ || spec_reason(s) == "quarantined"@ || spec_reason(s)
            == "adhoc_signature"@ || spec_reason(s) == "not_granted"@,
        spec_reason(s) != "ok"@,
{
    reveal_strlit("ok");
    reveal_strlit("app_translocated");
    reveal_strlit("quarantined");
    reveal_strlit("adhoc_signature");
    reveal_strlit("not_granted");
    assert("ok"@.len() != "app_translocated"@.len());
    assert("ok"@.len() != "quarantined"@.len());
    assert("ok"@.len() != "adhoc_signature"@.len());
    assert("ok"@.len() != "not_granted"@.len());
}

/// Whether the executable runs from a translocated copy.
pub fn is_translocated(exe_path: &str) -> (r: bool)
    ensures
        r == seq_contains(exe_path@, "/AppTranslocation/"@),
{
    chars_contains(&str_to_chars(exe_path), &str_to_chars("/AppTranslocation/"))
}

/// What `std::path::Path::parent` gives for a path: the path without its
/// last component, if it has one. Path syntax is that of the target the
/// library is built for, fixed for a given build.
pub uninterp spec fn path_parent_of(p: Seq<char>) -> Option<Seq<char>>;

/// What `std::path::Path::extension` gives for a path, when it is text
/// (path syntax as for [`path_parent_of`]).
pub uninterp spec fn path_extension_of(p: Seq<char>) -> Option<Seq<char>>;

/// `Path::parent`, as text.
#[verifier::external_body]
pub(crate) fn path_parent(p: &str) -> (r: Option<String>)
    ensures
        match r {
            Some(q) => path_parent_of(p@) == Some(q@),
            None => path_parent_of(p@) is None,
        },
{
    std::path::Path::new(p).parent().map(|q| q.display().to_string())
}

/// `Path::extension`, as text.
#[verifier::external_body]
fn path_extension(p: &str) -> (r: Option<String>)
    ensures
        match r {
            Some(e) => path_extension_of(p@) == Some(e@),
            None => path_extension_of(p@) is None,
        },
{
    std::path::Path::new(p).extension().and_then(|e| e.to_str()).map(|e| e.to_string())
}

/// The `.app` bundle of an executable at `.../X.app/Contents/MacOS/X`: the
/// third parent, when its extension is `app`.
pub open spec fn spec_bundle_path(exe: Seq<char>) -> Option<Seq<char>> {
    match path_parent_of(exe) {
        None => None,
        Some(a) => match path_parent_of(a) {
            None => None,
            Some(b) => match path_parent_of(b) {
                None => None,
                Some(c) => if path_extension_of(c) == Some("app"@) {
                    Some(c)
                } else {
                    None
                },
            },
        },
    }
}

/// Finds the `.app` bundle of an executable (see [`spec_bundle_path`]).
pub fn bundle_path_from_exe(exe: &str) -> (r: Option<String>)
    ensures
        match r {
            Some(b) => spec_bundle_path(exe@) == Some(b@),
            None => spec_bundle_path(exe@) is None,
        },
{
    let macos_dir = match path_parent(exe) {
        Some(d) => d,
        None => return None,
    };
    let contents_dir = match path_parent(macos_dir.as_str()) {
        Some(d) => d,
        None => return None,
    };
    let app_dir = match path_parent(contents_dir.as_str()) {
        Some(d) => d,
        None => return None,
    };
    let is_app = match path_extension(app_dir.as_str()) {
        Some(e) => {
            proof {
                reveal_strlit("app");
            }
            str_eq(e.as_str(), "app")
        },
        None => false,
    };
    if is_app {
        Some(app_dir)
    } else {
        None
    }
}

/// What running `codesign -dvvv <bundle>` gave.
pub struct CodesignRun {
    pub success: bool,
    pub stderr: String,
    pub stdout: String,
}

/// Line `l` is one of the signature details kept for the log.
pub open spec fn is_signature_line(l: Seq<char>) -> bool {
    seq_starts_with(l, "Identifier="@) || seq_starts_with(l, "TeamIdentifier="@) || seq_starts_with(
        l,
        "Authority="@,
    ) || seq_starts_with(l, "Signature="@)
}

/// The kept lines of `lines`, joined by ` | `.
pub open spec fn joined_details(lines: Seq<Seq<char>>) -> Seq<char>
    decreases lines.len(),
{
    if lines.len() == 0 {
        Seq::empty()
    } else {
        let prev = joined_details(lines.drop_last());
        if !is_signature_line(lines.last()) {
            prev
        } else if prev.len() == 0 {
            lines.last()
        } else {
            prev + " | "@ + lines.last()
        }
    }
}

/// The signature verdict from the `codesign` run: `(ad-hoc or unsigned?,
/// summary)`.
pub open spec fn spec_signature_info(bundle_known: bool, run: Result<CodesignRun, String>) -> (
    Option<bool>,
    Seq<char>,
) {
    if !bundle_known {
        (None, "开发态运行（非 .app 包），跳过签名检查"@)
    } else {
        match run {
            Err(e) => (None, "无法执行 codesign: "@ + e@),
            Ok(o) => {
                let text = o.stderr@ + o.stdout@;
                if !o.success {
                    if seq_contains(lowercase(text), "not signed"@) {
                        (Some(true), "未签名（code object is not signed at all）"@)
                    } else {
                        let ls = spec_lines(trim_seq(text));
                        (
                            None,
                            "codesign 查询失败："@ + if ls.len() > 0 {
                                ls.last()
                            } else {
                                "无输出"@
                            },
                        )
                    }
                } else {
                    let d = joined_details(spec_lines(text));
                    (
                        Some(seq_contains(text, "Signature=adhoc"@)),
                        if d.len() == 0 {
                            "codesign 未给出签名详情"@
                        } else {
                            d
                        },
                    )
                }
            },
        }
    }
}

fn signature_line(l: &Vec<char>) -> (r: bool)
    ensures
        r == is_signature_line(l@),
{
    chars_starts_with(l, &str_to_chars("Identifier=")) || chars_starts_with(
        l,
        &str_to_chars("TeamIdentifier="),
    ) || chars_starts_with(l, &str_to_chars("Authority=")) || chars_starts_with(
        l,
        &str_to_chars("Signature="),
    )
}

fn concat(a: &str, b: &str) -> (r: String)
    ensures
        r@ == a@ + b@,
{
    let mut v = str_to_chars(a);
    push_str(&mut v, b);
    chars_to_string(v.as_slice())
}

/// Reads the signature state out of the `codesign` run (see
/// [`spec_signature_info`]); `bundle_known` is false when the executable
/// is not inside an `.app` bundle, in which case no run is looked at.
pub fn signature_info(bundle_known: bool, run: Result<CodesignRun, String>) -> (r: (
    Option<bool>,
    String,
))
    ensures
        r.0 == spec_signature_info(bundle_known, run).0,
        r.1@ == spec_signature_info(bundle_known, run).1,
{
    if !bundle_known {
        return (None, "开发态运行（非 .app 包），跳过签名检查".to_string());
    }
    match run {
        Err(e) => (None, concat("无法执行 codesign: ", e.as_str())),
        Ok(o) => {
            let mut text = str_to_chars(o.stderr.as_str());
            push_str(&mut text, o.stdout.as_str());
            let text_s = chars_to_string(text.as_slice());
            if !o.success {
                let low = str_to_chars(to_lowercase(text_s.as_str()).as_str());
                if chars_contains(&low, &str_to_chars("not signed")) {
                    return (Some(true), "未签名（code object is not signed at all）".to_string());
                }
                let ls = split_lines(&trim_chars(&text));
                assert(views(ls@).len() == ls@.len());
                let last = if ls.len() > 0 {
                    assert(views(ls@).last() == ls@[ls@.len() - 1]@);
                    chars_to_string(ls[ls.len() - 1].as_slice())
                } else {
                    "无输出".to_string()
                };
                return (None, concat("codesign 查询失败：", last.as_str()));
            }
            let adhoc = chars_contains(&text, &str_to_chars("Signature=adhoc"));
            let ls = split_lines(&text);
            let ghost lv = views(ls@);
            let mut d: Vec<char> = Vec::new();
            let mut k: usize = 0;
            while k < ls.len()
                invariant
                    k <= ls@.len(),
                    lv == views(ls@),
                    d@ == joined_details(lv.subrange(0, k as int)),
                decreases ls.len() - k,
            {
                assert(lv.subrange(0, k + 1).drop_last() =~= lv.subrange(0, k as int));
                assert(lv[k as int] == ls@[k as int]@);
                if signature_line(&ls[k]) {
                    if d.len() > 0 {
                        push_str(&mut d, " | ");
                    }
                    let mut l = ls[k].clone();
                    d.append(&mut l);
                }
                k = k + 1;
            }
            assert(lv.subrange(0, lv.len() as int) =~= lv);
            let summary = if d.len() == 0 {
                "codesign 未给出签名详情".to_string()
            } else {
                chars_to_string(d.as_slice())
            };
            (Some(adhoc), summary)
        },
    }
}

/// What running `tccutil reset ScreenCapture <bundle id>` gave, turned
/// into the answer for the settings page: on success the tool's output,
/// or a default confirmation when it printed nothing; on failure its error
/// output (or, when that is empty, its normal output) after `重置失败：`.
pub fn reset_outcome(run: Result<CodesignRun, String>) -> (r: Result<String, String>)
    ensures
        match run {
            Err(e) => r matches Err(m) && m@ == "无法执行 tccutil: "@ + e@,
            Ok(o) => if o.success {
                r matches Ok(m) && m@ == (if trim_seq(o.stdout@).len() == 0 {
                    "已清除本应用的「屏幕录制」授权记录，重新授权即可。"@
                } else {
                    trim_seq(o.stdout@)
                })
            } else {
                r matches Err(m) && m@ == "重置失败："@ + (if trim_seq(o.stderr@).len() == 0 {
                    trim_seq(o.stdout@)
                } else {
                    trim_seq(o.stderr@)
                })
            },
        },
{
    match run {
        Err(e) => Err(concat("无法执行 tccutil: ", e.as_str())),
        Ok(o) => {
            let out = trim_chars(&str_to_chars(o.stdout.as_str()));
            let err = trim_chars(&str_to_chars(o.stderr.as_str()));
            if o.success {
                if out.len() == 0 {
                    Ok("已清除本应用的「屏幕录制」授权记录，重新授权即可。".to_string())
                } else {
                    Ok(chars_to_string(out.as_slice()))
                }
            } else {
                let detail = if err.len() == 0 {
                    chars_to_string(out.as_slice())
                } else {
                    chars_to_string(err.as_slice())
                };
                Err(concat("重置失败：", detail.as_str()))
            }
        },
    }
}

/// The refusal text of the simpler gate: the steps to take, and, for a
/// translocated executable, where it runs from and what to do about it.
pub open spec fn spec_capture_refusal(exe: Seq<char>) -> Seq<char> {
    "缺少「屏幕录制」权限：macOS 会拦截其他应用的窗口内容，截出来只剩桌面壁纸。\n① 到「系统设置 → 隐私与安全性 → 屏幕录制」勾选本应用；\n② 然后**完全退出并重新打开**本应用 —— 授权只对新启动的进程生效，只开开关不重启没用。\n若那里本来就是开着的：先关掉再打开（或选中本应用按左下角「−」移除后重试）。安装新版本后旧授权会失效，需要重新勾选。"@ + if seq_contains(exe, "/AppTranslocation/"@) {
        "\n\n⚠️ 检测到当前是从**临时位置**运行的（App Translocation）："@ + exe + "\n从 DMG / 下载目录直接双击启动时，macOS 会把 App 挪到随机只读路径再运行，授权不会保留在这份副本上（而且每次启动路径还会变，所以重启多少次都没用）。\n请先把 App 拖进「应用程序」文件夹，再从那里启动。"@
    } else {
        Seq::empty()
    }
}

/// The next step of the simpler gate that only looks at the preflight.
#[derive(Debug, Clone)]
pub enum CaptureGate {
    Ready,
    /// Ask for the permission once, then check the preflight again.
    RequestAndRecheck,
    Refuse(String),
}

/// The simpler gate: ready when the preflight says yes; else ask once;
/// when the preflight still says no after asking, refuse with
/// [`spec_capture_refusal`] for the executable at `exe`.
pub fn ensure_screen_capture_ready(trusted: bool, already_requested: bool, exe: &str) -> (r: CaptureGate)
    ensures
        trusted ==> r is Ready,
        !trusted && !already_requested ==> r is RequestAndRecheck,
        !trusted && already_requested ==> (r matches CaptureGate::Refuse(m) && m@
            == spec_capture_refusal(exe@)),
{
    if trusted {
        return CaptureGate::Ready;
    }
    if !already_requested {
        return CaptureGate::RequestAndRecheck;
    }
    let mut m = str_to_chars("缺少「屏幕录制」权限：macOS 会拦截其他应用的窗口内容，截出来只剩桌面壁纸。\n① 到「系统设置 → 隐私与安全性 → 屏幕录制」勾选本应用；\n② 然后**完全退出并重新打开**本应用 —— 授权只对新启动的进程生效，只开开关不重启没用。\n若那里本来就是开着的：先关掉再打开（或选中本应用按左下角「−」移除后重试）。安装新版本后旧授权会失效，需要重新勾选。");
    if is_translocated(exe) {
        push_str(&mut m, "\n\n⚠️ 检测到当前是从**临时位置**运行的（App Translocation）：");
        push_str(&mut m, exe);
        push_str(&mut m, "\n从 DMG / 下载目录直接双击启动时，macOS 会把 App 挪到随机只读路径再运行，授权不会保留在这份副本上（而且每次启动路径还会变，所以重启多少次都没用）。\n请先把 App 拖进「应用程序」文件夹，再从那里启动。");
    }
    assert(m@ =~= spec_capture_refusal(exe@));
    CaptureGate::Refuse(chars_to_string(m.as_slice()))
}

/// After asking the system for the permission: the snapshot of the
/// evidence collected afterwards.
pub fn request_permission(after: &PermissionSignals) -> (r: PermissionStatusSnapshot)
    ensures
        r.preflight == after.preflight,
        r.titles@ == probe_word(after.titles),
        r.permitted == spec_permitted(*after),
        r.reason@ == (if spec_permitted(*after) {
            "ok"@
        } else {
            spec_reason(*after)
        }),
{
    status_snapshot(after)
}

/// At start-up the permission is requested only when the preflight says it
/// is missing.
pub fn preflight_request_on_startup(trusted: bool) -> (request: bool)
    ensures
        request == !trusted,
{
    !trusted
}

} // verus!

//! Putting together the description of the foreground application from
//! what each platform's window system and process table yield.

use crate::classifier::RawApp;
use crate::decimal::{spec_decimal, u32_to_string};
use crate::export_format::{i64_to_string, spec_signed_decimal};
use crate::text::{
    chars_to_string, str_to_chars, strip_suffixes, trim_chars, trim_end_matches_chars, trim_seq,
};
use vstd::prelude::*;

verus! {

/// What `std::path::Path::file_name` gives for a path, as text: its last
/// component, unless that is `..`. Path syntax is that of the target the
/// library is built for, fixed for a given build.
pub uninterp spec fn path_file_name_of(p: Seq<char>) -> Option<Seq<char>>;

/// `Path::file_name`, as text.
#[verifier::external_body]
fn path_file_name(p: &str) -> (r: Option<String>)
    ensures
        match r {
            Some(n) => path_file_name_of(p@) == Some(n@),
            None => path_file_name_of(p@) is None,
        },
{
    std::path::Path::new(p).file_name().map(|n| n.to_string_lossy().to_string())
}

/// A window title as read: trailing NUL characters and surrounding
/// whitespace dropped; nothing when that leaves no text.
pub open spec fn clean_title(t: Seq<char>) -> Option<Seq<char>> {
    let c = trim_seq(strip_suffixes(t, seq!['\0']));
    if c.len() > 0 {
        Some(c)
    } else {
        None
    }
}

fn clean_title_of(t: &str) -> (r: Option<String>)
    ensures
        match r {
            Some(s) => clean_title(t@) == Some(s@),
            None => clean_title(t@) is None,
        },
{
    let nul = vec!['\0'];
    let c = trim_chars(&trim_end_matches_chars(&str_to_chars(t), &nul));
    assert(nul@ == seq!['\0']);
    if c.len() > 0 {
        Some(chars_to_string(c.as_slice()))
    } else {
        None
    }
}

pub open spec fn opt_seq(o: Option<String>) -> Option<Seq<char>> {
    match o {
        Some(s) => Some(s@),
        None => None,
    }
}

/// The title of an X11 window: the UTF-8 `_NET_WM_NAME` when it has
/// text, else the older `WM_NAME` (each `None` when it could not be read).
pub open spec fn spec_x11_title(net_wm_name: Option<Seq<char>>, wm_name: Option<Seq<char>>) -> Option<
    Seq<char>,
> {
    match net_wm_name {
        Some(t) if clean_title(t) is Some => clean_title(t),
        _ => match wm_name {
            Some(t) => clean_title(t),
            None => None,
        },
    }
}

/// The title of an X11 window (see [`spec_x11_title`]).
pub fn x11_window_title(net_wm_name: Option<String>, wm_name: Option<String>) -> (r: Option<String>)
    ensures
        opt_seq(r) == spec_x11_title(opt_seq(net_wm_name), opt_seq(wm_name)),
{
    if let Some(t) = &net_wm_name {
        let c = clean_title_of(t.as_str());
        if c.is_some() {
            return c;
        }
    }
    match &wm_name {
        Some(t) => clean_title_of(t.as_str()),
        None => None,
    }
}

/// `"pid-{pid}"`.
pub open spec fn pid_label(pid: int) -> Seq<char> {
    if pid < 0 {
        "pid-"@ + spec_signed_decimal(pid as i64)
    } else {
        "pid-"@ + spec_decimal(pid as nat)
    }
}

fn pid_label_i32(pid: i32) -> (r: String)
    ensures
        r@ == pid_label(pid as int),
{
    let mut v = str_to_chars("pid-");
    let mut d = if pid < 0 {
        str_to_chars(i64_to_string(pid as i64).as_str())
    } else {
        str_to_chars(u32_to_string(pid as u32).as_str())
    };
    v.append(&mut d);
    chars_to_string(v.as_slice())
}

/// The name of a Linux process: its `comm` entry without the trailing
/// newlines; without one, the file name of its executable; else
/// `pid-<pid>`.
pub open spec fn spec_linux_process_name(pid: i32, comm: Option<Seq<char>>, exe: Option<Seq<char>>) -> Seq<
    char,
> {
    match comm {
        Some(c) => strip_suffixes(c, seq!['\n']),
        None => match exe {
            Some(e) => match path_file_name_of(e) {
                Some(n) => n,
                None => pid_label(pid as int),
            },
            None => pid_label(pid as int),
        },
    }
}

/// The name of a Linux process (see [`spec_linux_process_name`]) from
/// what `/proc/<pid>/comm` and `/proc/<pid>/exe` gave.
pub fn linux_process_name(pid: i32, comm: Option<String>, exe_path: Option<String>) -> (r: String)
    ensures
        r@ == spec_linux_process_name(pid, opt_seq(comm), opt_seq(exe_path)),
{
    match comm {
        Some(c) => {
            let nl = vec!['\n'];
            assert(nl@ == seq!['\n']);
            chars_to_string(trim_end_matches_chars(&str_to_chars(c.as_str()), &nl).as_slice())
        },
        None => match &exe_path {
            Some(e) => match path_file_name(e.as_str()) {
                Some(n) => n,
                None => pid_label_i32(pid),
            },
            None => pid_label_i32(pid),
        },
    }
}

/// The foreground application on Linux: named after its window title when
/// that has text, else after its process.
pub fn linux_foreground_app(window_title: Option<String>, process_name: String, exe_path: Option<String>) -> (r:
    RawApp)
    ensures
        r.name@ == (match window_title {
            Some(t) => if t@.len() > 0 {
                t@
            } else {
                process_name@
            },
            None => process_name@,
        }),
        r.process_name@ == process_name@,
        r.exe_path == exe_path,
        r.bundle_id is None,
        r.window_title == window_title,
{
    let name = match &window_title {
        Some(t) => if t.as_str().is_empty() {
            process_name.clone()
        } else {
            t.clone()
        },
        None => process_name.clone(),
    };
    RawApp { name, process_name, exe_path, bundle_id: None, window_title }
}

/// The executable path and process name of a Windows process from the
/// image path that could be read: the path's file name, or `pid-<pid>`.
pub fn windows_process_name(pid: u32, image_path: Option<String>) -> (r: (Option<String>, String))
    ensures
        r.0 == image_path,
        r.1@ == (match image_path {
            Some(p) => match path_file_name_of(p@) {
                Some(n) => n,
                None => pid_label(pid as int),
            },
            None => pid_label(pid as int),
        }),
{
    let label = {
        let mut v = str_to_chars("pid-");
        let mut d = str_to_chars(u32_to_string(pid).as_str());
        v.append(&mut d);
        chars_to_string(v.as_slice())
    };
    let name = match &image_path {
        Some(p) => match path_file_name(p.as_str()) {
            Some(n) => n,
            None => label,
        },
        None => label,
    };
    (image_path, name)
}

/// The foreground application on Windows: named after its process, less
/// a trailing `.exe` (then `.EXE`).
pub fn windows_foreground_app(window_title: Option<String>, exe_path: Option<String>, process_name: String) -> (r:
    RawApp)
    ensures
        r.name@ == strip_suffixes(strip_suffixes(process_name@, ".exe"@), ".EXE"@),
        r.process_name@ == process_name@,
        r.exe_path == exe_path,
        r.bundle_id is None,
        r.window_title == window_title,
{
    let a = trim_end_matches_chars(&str_to_chars(process_name.as_str()), &str_to_chars(".exe"));
    let b = trim_end_matches_chars(&a, &str_to_chars(".EXE"));
    RawApp { name: chars_to_string(b.as_slice()), process_name, exe_path, bundle_id: None, window_title }
}

/// The foreground application on macOS: its localized name (`Unknown`
/// without one), and as process name the file name of its executable,
/// else that name.
pub fn macos_foreground_app(
    localized_name: Option<String>,
    bundle_id: Option<String>,
    exe_path: Option<String>,
    window_title: Option<String>,
) -> (r: RawApp)
    ensures
        r.name@ == (match localized_name {
            Some(n) => n@,
            None => "Unknown"@,
        }),
        r.process_name@ == (match exe_path {
            Some(p) => match path_file_name_of(p@) {
                Some(f) => f,
                None => r.name@,
            },
            None => r.name@,
        }),
        r.exe_path == exe_path,
        r.bundle_id == bundle_id,
        r.window_title == window_title,
{
    let name = match localized_name {
        Some(n) => n,
        None => "Unknown".to_owned(),
    };
    let process_name = match &exe_path {
        Some(p) => match path_file_name(p.as_str()) {
            Some(f) => f,
            None => name.clone(),
        },
        None => name.clone(),
    };
    RawApp { name, process_name, exe_path, bundle_id, window_title }
}

/// Seconds since the last input on Windows, from the millisecond tick
/// count now and at the last input; a tick count that wrapped around in
/// between gives 0.
pub fn windows_idle_seconds(now_ticks: u32, last_input_ticks: u32) -> (r: u64)
    ensures
        r == (if now_ticks >= last_input_ticks {
            (now_ticks - last_input_ticks) / 1000
        } else {
            0
        }),
{
    if now_ticks >= last_input_ticks {
        ((now_ticks - last_input_ticks) / 1000) as u64
    } else {
        0
    }
}

} // verus!

//! Reading the list of on-screen windows that macOS hands out: the title
//! of the foreground application's window, and whether other
//! applications' titles can be read at all (they are withheld until the
//! screen-recording permission is granted).

use crate::permission::TitlesProbe;
use crate::text::{str_to_chars, trim_chars, trim_seq};
use vstd::prelude::*;

verus! {

/// One entry of the window list, with the fields that could be read.
pub struct WindowInfo {
    /// The window layer: 0 for ordinary application windows.
    pub layer: Option<i64>,
    /// The process that owns the window.
    pub owner_pid: Option<i64>,
    /// The window title.
    pub name: Option<String>,
}

/// An ordinary window of another process than `me`.
pub open spec fn is_foreign_window(w: WindowInfo, me: i64) -> bool {
    w.layer == Some(0i64) && w.owner_pid is Some && w.owner_pid->Some_0 != me
}

/// A window whose title holds more than whitespace.
pub open spec fn has_visible_title(w: WindowInfo) -> bool {
    w.name is Some && trim_seq(w.name->Some_0@).len() > 0
}

/// Some ordinary window of another process than `me` shows a title.
pub open spec fn has_readable_window(ws: Seq<WindowInfo>, me: i64) -> bool {
    exists|i: int|
        0 <= i < ws.len() && #[trigger] is_foreign_window(ws[i], me) && has_visible_title(ws[i])
}

/// There is an ordinary window of another process than `me`.
pub open spec fn has_foreign_window(ws: Seq<WindowInfo>, me: i64) -> bool {
    exists|i: int| 0 <= i < ws.len() && #[trigger] is_foreign_window(ws[i], me)
}

/// What the window list says about title access: `Readable` when some
/// ordinary window of another process shows a title, `Redacted` when such
/// windows exist but none shows one, `Inconclusive` when there are none
/// or the list could not be had.
pub open spec fn spec_titles_probe(me: i64, windows: Option<Seq<WindowInfo>>) -> TitlesProbe {
    match windows {
        None => TitlesProbe::Inconclusive,
        Some(ws) => if has_readable_window(ws, me) {
            TitlesProbe::Readable
        } else if has_foreign_window(ws, me) {
            TitlesProbe::Redacted
        } else {
            TitlesProbe::Inconclusive
        },
    }
}

pub open spec fn opt_windows(o: Option<&Vec<WindowInfo>>) -> Option<Seq<WindowInfo>> {
    match o {
        Some(v) => Some(v@),
        None => None,
    }
}

fn visible_title(w: &WindowInfo) -> (r: bool)
    ensures
        r == has_visible_title(*w),
{
    match &w.name {
        Some(n) => trim_chars(&str_to_chars(n.as_str())).len() > 0,
        None => false,
    }
}

/// Probes title access from the window list of process `me` (see
/// [`spec_titles_probe`]); `None` when the list could not be had.
pub fn titles_probe(me: i64, windows: Option<&Vec<WindowInfo>>) -> (r: TitlesProbe)
    ensures
        r == spec_titles_probe(me, opt_windows(windows)),
{
    let ws = match windows {
        Some(ws) => ws,
        None => return TitlesProbe::Inconclusive,
    };
    assert(opt_windows(windows) == Some(ws@));
    let mut foreign = false;
    let mut i: usize = 0;
    while i < ws.len()
        invariant
            i <= ws@.len(),
            opt_windows(windows) == Some(ws@),
            forall|j: int| 0 <= j < i ==> !(#[trigger] is_foreign_window(ws@[j], me) && has_visible_title(ws@[j])),
            foreign <==> exists|j: int| 0 <= j < i && #[trigger] is_foreign_window(ws@[j], me),
        decreases ws.len() - i,
    {
        let w = &ws[i];
        let is_foreign = match (w.layer, w.owner_pid) {
            (Some(l), Some(p)) => l == 0 && p != me,
            _ => false,
        };
        assert(is_foreign == is_foreign_window(ws@[i as int], me));
        if is_foreign {
            if visible_title(w) {
                assert(is_foreign_window(ws@[i as int], me) && has_visible_title(ws@[i as int]));
                return TitlesProbe::Readable;
            }
            foreign = true;
        }
        i = i + 1;
    }
    assert(!has_readable_window(ws@, me));
    assert(foreign == has_foreign_window(ws@, me));
    if foreign {
        TitlesProbe::Redacted
    } else {
        TitlesProbe::Inconclusive
    }
}

/// A window of process `pid` (its id compared as a 32-bit number) with a
/// non-empty title.
pub open spec fn is_titled_window_of(w: WindowInfo, pid: i32) -> bool {
    w.owner_pid is Some && (w.owner_pid->Some_0 as i32) == pid && w.name is Some
        && w.name->Some_0@.len() > 0
}

/// The title of the first window in the list that belongs to process
/// `pid` and has a non-empty title, if any.
pub fn window_title_of(pid: i32, windows: &Vec<WindowInfo>) -> (r: Option<String>)
    ensures
        r is None <==> forall|j: int| 0 <= j < windows@.len() ==> !is_titled_window_of(windows@[j], pid),
        r matches Some(t) ==> exists|j: int|
            0 <= j < windows@.len() && is_titled_window_of(windows@[j], pid) && t@
                == windows@[j].name->Some_0@ && forall|k: int|
                0 <= k < j ==> !is_titled_window_of(windows@[k], pid),
{
    let mut i: usize = 0;
    while i < windows.len()
        invariant
            i <= windows@.len(),
            forall|j: int| 0 <= j < i ==> !is_titled_window_of(windows@[j], pid),
        decreases windows.len() - i,
    {
        let w = &windows[i];
        if let Some(p) = w.owner_pid {
            if p as i32 == pid {
                if let Some(n) = &w.name {
                    if !n.as_str().is_empty() {
                        return Some(n.clone());
                    }
                }
            }
        }
        i = i + 1;
    }
    None
}

} // verus!

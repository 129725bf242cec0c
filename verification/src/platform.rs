//! The operating systems the application knows about. The running one is
//! decided where the program is built and handed in by the caller.

use vstd::prelude::*;
use crate::classifier::RawApp;
use crate::text::{str_to_chars, chars_to_string};

verus! {

#[derive(Debug, Clone, Copy, PartialEq, Eq, Structural)]
pub enum Platform {
    MacOS,
    Windows,
    Linux,
    /// Any other target.
    Other,
}

pub open spec fn spec_platform_name(p: Platform) -> Seq<char> {
    match p {
        Platform::MacOS => "macos"@,
        Platform::Windows => "windows"@,
        Platform::Linux => "linux"@,
        Platform::Other => "unknown"@,
    }
}

/// The platform's short name: `macos`, `windows`, `linux`, or `unknown`.
pub fn platform_name(p: Platform) -> (r: &'static str)
    ensures
        r@ == spec_platform_name(p),
{
    match p {
        Platform::MacOS => "macos",
        Platform::Windows => "windows",
        Platform::Linux => "linux",
        Platform::Other => "unknown",
    }
}

/// Errors of the activity trackers.
#[derive(Debug, Clone)]
pub enum TrackerError {
    /// No application is in the foreground.
    NoForeground,
    /// A platform call failed.
    Platform(String),
    /// The platform does not offer the feature.
    Unsupported(String),
}

pub open spec fn spec_tracker_message(e: TrackerError) -> Seq<char> {
    match e {
        TrackerError::NoForeground => "当前无前台应用"@,
        TrackerError::Platform(s) => "平台 API 调用失败: "@ + s@,
        TrackerError::Unsupported(s) => "该平台功能尚未实现: "@ + s@,
    }
}

impl TrackerError {
    /// The message shown to the user.
    pub fn message(&self) -> (r: String)
        ensures
            r@ == spec_tracker_message(*self),
    {
        match self {
            TrackerError::NoForeground => "当前无前台应用".to_string(),
            TrackerError::Platform(s) => {
                let mut v = str_to_chars("平台 API 调用失败: ");
                let mut t = str_to_chars(s.as_str());
                v.append(&mut t);
                chars_to_string(v.as_slice())
            },
            TrackerError::Unsupported(s) => {
                let mut v = str_to_chars("该平台功能尚未实现: ");
                let mut t = str_to_chars(s.as_str());
                v.append(&mut t);
                chars_to_string(v.as_slice())
            },
        }
    }
}

/// What each platform's activity tracker provides.
pub trait PlatformTracker {
    /// The application in the foreground.
    fn get_foreground_app(&self) -> Result<RawApp, TrackerError>;

    /// Seconds since the last user input.
    fn get_idle_seconds(&self) -> Result<u64, TrackerError>;
}

} // verus!

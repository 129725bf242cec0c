//! The decisions of two background loops: the one that keeps the tray
//! status bar and the floating metrics strip in step with the settings,
//! and the one that tells the pet when the machine runs hot.

use crate::platform::Platform;
use crate::status_bar::StatusBarConfig;
use vstd::prelude::*;

verus! {

/// Milliseconds between ticks while something is on screen.
pub const POLL_INTERVAL_MS: u64 = 1000;

/// Milliseconds between ticks while neither the tray nor the strip shows
/// metrics.
pub const IDLE_POLL_MS: u64 = 5000;

/// Ticks between the forced tray-title refreshes on macOS.
pub const TITLE_REFRESH_TICKS: u64 = 60;

/// What the status loop has put on screen so far.
pub struct DisplayState {
    /// The floating strip is visible.
    pub float_shown: bool,
    /// The tray shows metrics (not the plain icon).
    pub tray_shows_metrics: bool,
    /// Ticks so far, counted on macOS only (wrapping).
    pub slow_tick: u64,
}

/// What one tick of the status loop does.
pub struct TickPlan {
    /// Show (`Some(true)`) or hide (`Some(false)`) the floating strip.
    pub set_float_visible: Option<bool>,
    /// Take a sample and show it in the tray: as the title on macOS (when
    /// it changed), drawn into the icon elsewhere.
    pub draw_tray_metrics: bool,
    /// Put the plain tray icon back and clear the tray title.
    pub restore_tray: bool,
    /// Take a sample and set the tray title whether or not it changed.
    pub refresh_title: bool,
    /// How long to wait before the next tick, in milliseconds.
    pub pause_ms: u64,
}

/// The strip is wanted when the status bar is on and the strip is chosen;
/// it is then hidden while the foreground window covers the screen.
pub open spec fn float_wanted(cfg: StatusBarConfig) -> bool {
    cfg.enabled && cfg.float_enabled
}

/// The tray shows metrics when the status bar is on and the strip is not
/// chosen: the strip takes precedence.
pub open spec fn tray_metrics_wanted(cfg: StatusBarConfig) -> bool {
    cfg.enabled && !cfg.float_enabled
}

pub open spec fn next_tick(t: u64) -> u64 {
    if t == u64::MAX {
        0
    } else {
        (t + 1) as u64
    }
}

impl DisplayState {
    /// Nothing shown yet.
    pub fn new() -> (s: Self)
        ensures
            !s.float_shown,
            !s.tray_shows_metrics,
            s.slow_tick == 0,
    {
        DisplayState { float_shown: false, tray_shows_metrics: false, slow_tick: 0 }
    }

    /// One tick for settings `cfg` on platform `p`. `fullscreen` tells
    /// whether the foreground window covers the screen; it is only
    /// consulted while the strip is wanted. After the tick the screen
    /// matches the settings, and only what changed is touched.
    pub fn tick(&mut self, p: Platform, cfg: &StatusBarConfig, fullscreen: bool) -> (plan: TickPlan)
        ensures
            final(self).float_shown == (float_wanted(*cfg) && !fullscreen),
            final(self).tray_shows_metrics == tray_metrics_wanted(*cfg),
            plan.set_float_visible == (if final(self).float_shown != old(self).float_shown {
                Some(final(self).float_shown)
            } else {
                None
            }),
            plan.draw_tray_metrics == tray_metrics_wanted(*cfg),
            plan.restore_tray == (old(self).tray_shows_metrics && !tray_metrics_wanted(*cfg)),
            plan.pause_ms == (if cfg.enabled {
                POLL_INTERVAL_MS
            } else {
                IDLE_POLL_MS
            }),
            final(self).slow_tick == (if p == Platform::MacOS {
                next_tick(old(self).slow_tick)
            } else {
                old(self).slow_tick
            }),
            plan.refresh_title == (p == Platform::MacOS && final(self).slow_tick % TITLE_REFRESH_TICKS
                == 0 && tray_metrics_wanted(*cfg)),
    {
        let mut set_float_visible: Option<bool> = None;
        if cfg.enabled && cfg.float_enabled {
            let want_show = !fullscreen;
            if want_show != self.float_shown {
                self.float_shown = want_show;
                set_float_visible = Some(want_show);
            }
        } else if self.float_shown {
            self.float_shown = false;
            set_float_visible = Some(false);
        }
        let want_tray_metrics = cfg.enabled && !cfg.float_enabled;
        let mut restore_tray = false;
        let pause_ms: u64;
        if want_tray_metrics {
            self.tray_shows_metrics = true;
            pause_ms = POLL_INTERVAL_MS;
        } else {
            if self.tray_shows_metrics {
                restore_tray = true;
                self.tray_shows_metrics = false;
            }
            pause_ms = if cfg.enabled && cfg.float_enabled {
                POLL_INTERVAL_MS
            } else {
                IDLE_POLL_MS
            };
        }
        let mut refresh_title = false;
        match p {
            Platform::MacOS => {
                self.slow_tick = if self.slow_tick == u64::MAX {
                    0
                } else {
                    self.slow_tick + 1
                };
                refresh_title = self.slow_tick % TITLE_REFRESH_TICKS == 0 && want_tray_metrics;
            },
            _ => {},
        }
        TickPlan {
            set_float_visible,
            draw_tray_metrics: want_tray_metrics,
            restore_tray,
            refresh_title,
            pause_ms,
        }
    }
}

/// Readings in a row at or above the overload level before the pet is
/// told that the machine runs hot.
pub const SUSTAIN_OVERHEAT: u32 = 4;

/// Readings in a row below the cool level before the pet is told that
/// the machine has cooled down.
pub const SUSTAIN_COOL: u32 = 3;

/// What the overload watch tells the pet.
#[derive(Debug, Clone, Copy, PartialEq, Eq, Structural)]
pub enum LoadEvent {
    Overloaded,
    Cooled,
}

/// The overload watch: counts of hot and of cool readings in a row, and
/// whether the machine is taken to run hot.
pub struct OverheatMonitor {
    pub hot_streak: u32,
    pub cool_streak: u32,
    pub is_overheating: bool,
}

impl OverheatMonitor {
    /// The counts stay below the numbers that switch the state.
    pub open spec fn wf(&self) -> bool {
        if self.is_overheating {
            self.hot_streak <= SUSTAIN_OVERHEAT && self.cool_streak < SUSTAIN_COOL
        } else {
            self.hot_streak < SUSTAIN_OVERHEAT && self.cool_streak <= SUSTAIN_COOL
        }
    }

    /// Calm, no readings yet.
    pub fn new() -> (m: Self)
        ensures
            m.wf(),
            !m.is_overheating,
            m.hot_streak == 0,
            m.cool_streak == 0,
    {
        OverheatMonitor { hot_streak: 0, cool_streak: 0, is_overheating: false }
    }

    /// One CPU reading: `hot` when the usage is at or above the overload
    /// level, `cool` when it is below the cool level. While calm, a run
    /// of hot readings tips the state into overload; while hot, a run of
    /// cool readings brings it back. Overload and cool-down are announced
    /// in turn, each once.
    pub fn observe(&mut self, hot: bool, cool: bool) -> (r: Option<LoadEvent>)
        requires
            old(self).wf(),
        ensures
            final(self).wf(),
            r == Some(LoadEvent::Overloaded) ==> !old(self).is_overheating && final(self).is_overheating,
            r == Some(LoadEvent::Cooled) ==> old(self).is_overheating && !final(self).is_overheating,
            r is None ==> final(self).is_overheating == old(self).is_overheating,
            !old(self).is_overheating && hot ==> {
                &&& final(self).hot_streak == old(self).hot_streak + 1
                &&& final(self).cool_streak == 0
                &&& (r == Some(LoadEvent::Overloaded) <==> final(self).hot_streak == SUSTAIN_OVERHEAT)
            },
            !old(self).is_overheating && !hot ==> {
                &&& final(self).hot_streak == 0
                &&& final(self).cool_streak == old(self).cool_streak
                &&& r is None
            },
            old(self).is_overheating && cool ==> {
                &&& final(self).cool_streak == old(self).cool_streak + 1
                &&& final(self).hot_streak == 0
                &&& (r == Some(LoadEvent::Cooled) <==> final(self).cool_streak == SUSTAIN_COOL)
            },
            old(self).is_overheating && !cool ==> {
                &&& final(self).cool_streak == 0
                &&& final(self).hot_streak == old(self).hot_streak
                &&& r is None
            },
    {
        if !self.is_overheating {
            if hot {
                self.hot_streak = self.hot_streak + 1;
                self.cool_streak = 0;
                if self.hot_streak >= SUSTAIN_OVERHEAT {
                    self.is_overheating = true;
                    return Some(LoadEvent::Overloaded);
                }
            } else {
                self.hot_streak = 0;
            }
        } else {
            if cool {
                self.cool_streak = self.cool_streak + 1;
                self.hot_streak = 0;
                if self.cool_streak >= SUSTAIN_COOL {
                    self.is_overheating = false;
                    return Some(LoadEvent::Cooled);
                }
            } else {
                self.cool_streak = 0;
            }
        }
        None
    }
}

} // verus!

//! The pet window's hit mask: a coarse grid of opaque cells reported by
//! the front end, so that clicks on transparent parts pass through.

use vstd::prelude::*;
use crate::text::{str_to_chars, chars_to_string};
use crate::decimal::{spec_decimal, u32_to_string, u64_to_string};

verus! {

/// The alpha grid: `cells[row * cols + col]` is 1 on the body, 0 where
/// clicks pass through.
pub struct HitMask {
    pub cols: u32,
    pub rows: u32,
    pub cells: Vec<u8>,
    /// At least one cell is non-zero; an all-zero mask is ignored.
    pub any_hit: bool,
}

/// The refusal of a mask whose size does not match its grid.
pub open spec fn mask_size_error(cols: u32, rows: u32, len: nat) -> Seq<char> {
    "掩码尺寸不合法: cols="@ + spec_decimal(cols as nat) + " rows="@ + spec_decimal(rows as nat)
        + " len="@ + spec_decimal(len)
}

fn push_str(out: &mut Vec<char>, s: &str)
    ensures
        final(out)@ == old(out)@ + s@,
{
    let mut t = str_to_chars(s);
    out.append(&mut t);
}

impl HitMask {
    /// Checks and builds a mask: both sides must be positive and the cell
    /// count must be `cols * rows`.
    pub fn new(cols: u32, rows: u32, cells: Vec<u8>) -> (r: Result<HitMask, String>)
        requires
            cols == 0 || rows == 0 || cols as int * rows as int <= u32::MAX,
        ensures
            (cols == 0 || rows == 0 || cells@.len() != cols as int * rows as int) ==> (r matches Err(
                e,
            ) && e@ == mask_size_error(cols, rows, cells@.len())),
            !(cols == 0 || rows == 0 || cells@.len() != cols as int * rows as int) ==> (r matches Ok(
                m,
            ) && m.cols == cols && m.rows == rows && m.cells@ == cells@ && m.any_hit == exists|i: int|
                0 <= i < cells@.len() && cells@[i] != 0),
    {
        if cols == 0 || rows == 0 || cells.len() != (cols * rows) as usize {
            let mut v = str_to_chars("掩码尺寸不合法: cols=");
            push_str(&mut v, u32_to_string(cols).as_str());
            push_str(&mut v, " rows=");
            push_str(&mut v, u32_to_string(rows).as_str());
            push_str(&mut v, " len=");
            push_str(&mut v, u64_to_string(cells.len() as u64).as_str());
            return Err(chars_to_string(v.as_slice()));
        }
        let mut any_hit = false;
        let mut k: usize = 0;
        while k < cells.len()
            invariant
                k <= cells@.len(),
                any_hit == exists|i: int| 0 <= i < k && cells@[i] != 0,
            decreases cells.len() - k,
        {
            if cells[k] != 0 {
                any_hit = true;
            }
            k = k + 1;
        }
        Ok(HitMask { cols, rows, cells, any_hit })
    }

    /// The mask takes part in hit testing: it has a body cell and a
    /// non-empty grid.
    pub fn usable(&self) -> (r: bool)
        ensures
            r == (self.any_hit && self.cols > 0 && self.rows > 0),
    {
        self.any_hit && self.cols > 0 && self.rows > 0
    }

    /// Whether the cell at (`col`, `row`), each clamped into the grid, is
    /// on the body; a cell beyond the stored cells is not.
    pub fn body_at(&self, col: i64, row: i64) -> (r: bool)
        requires
            self.cols > 0,
            self.rows > 0,
        ensures
            ({
                let c = clamp(col as int, 0, self.cols - 1);
                let w = clamp(row as int, 0, self.rows - 1);
                let idx = w * self.cols + c;
                r == (idx < self.cells@.len() && self.cells@[idx] == 1)
            }),
    {
        let max_c = (self.cols as i64) - 1;
        let max_r = (self.rows as i64) - 1;
        let c: usize = if col < 0 {
            0
        } else if col > max_c {
            max_c as usize
        } else {
            col as usize
        };
        let w: usize = if row < 0 {
            0
        } else if row > max_r {
            max_r as usize
        } else {
            row as usize
        };
        assert(w * (self.cols as usize) + c <= (self.rows as int - 1) * self.cols as int + self.cols - 1)
            by (nonlinear_arith)
            requires
                w <= self.rows - 1,
                c <= self.cols - 1,
        ;
        assert((self.rows as int - 1) * self.cols as int + self.cols - 1 <= 0xFFFF_FFFF * 0xFFFF_FFFF)
            by (nonlinear_arith)
            requires
                self.rows <= 0xFFFF_FFFF,
                self.cols <= 0xFFFF_FFFF,
                self.rows >= 1,
        ;
        let idx: u64 = (w as u64) * (self.cols as u64) + (c as u64);
        if idx < self.cells.len() as u64 {
            self.cells[idx as usize] == 1
        } else {
            false
        }
    }
}

pub open spec fn clamp(v: int, lo: int, hi: int) -> int {
    if v < lo {
        lo
    } else if v > hi {
        hi
    } else {
        v
    }
}

/// Clicks pass through everywhere except over the body inside the window.
pub fn want_passthrough(inside_window: bool, on_body: bool) -> (r: bool)
    ensures
        r == !(inside_window && on_body),
{
    !(inside_window && on_body)
}

/// The pet window's hit-testing state: the current mask, whether a drag
/// is under way, the pass-through state last applied, and whether the
/// watcher was started.
pub struct PetHitState {
    pub mask: Option<HitMask>,
    pub dragging: bool,
    pub applied_passthrough: bool,
    pub started: bool,
}

impl Default for PetHitState {
    fn default() -> (s: Self)
        ensures
            s.mask is None,
            !s.dragging,
            !s.applied_passthrough,
            !s.started,
    {
        PetHitState { mask: None, dragging: false, applied_passthrough: false, started: false }
    }
}

/// What the watcher does on one tick.
#[derive(Debug, Clone, Copy, PartialEq, Eq, Structural)]
pub enum WatchStep {
    /// Change nothing this tick.
    Keep,
    /// Switch pass-through to the given state.
    Apply(bool),
}

impl PetHitState {
    /// One watcher tick once the cursor has been located: nothing changes
    /// during a drag or without a usable mask; otherwise pass-through is
    /// wanted except over the body inside the window, and it is switched
    /// only when it differs from what is applied.
    pub fn watch_step(&self, inside_window: bool, col: i64, row: i64) -> (r: WatchStep)
        ensures
            self.dragging ==> r == WatchStep::Keep,
            !self.dragging && !(self.mask matches Some(m) && m.any_hit && m.cols > 0 && m.rows > 0) ==> r
                == WatchStep::Keep,
            !self.dragging && (self.mask matches Some(m) && m.any_hit && m.cols > 0 && m.rows > 0) ==> ({
                let m = self.mask->0;
                let c = clamp(col as int, 0, m.cols - 1);
                let w = clamp(row as int, 0, m.rows - 1);
                let idx = w * m.cols + c;
                let on_body = inside_window && idx < m.cells@.len() && m.cells@[idx] == 1;
                r == (if !on_body != self.applied_passthrough {
                    WatchStep::Apply(!on_body)
                } else {
                    WatchStep::Keep
                })
            }),
    {
        if self.dragging {
            return WatchStep::Keep;
        }
        match &self.mask {
            Some(m) => {
                if !m.usable() {
                    return WatchStep::Keep;
                }
                let on_body = inside_window && m.body_at(col, row);
                let want = want_passthrough(inside_window, on_body);
                if want != self.applied_passthrough {
                    WatchStep::Apply(want)
                } else {
                    WatchStep::Keep
                }
            },
            None => WatchStep::Keep,
        }
    }
}

} // verus!

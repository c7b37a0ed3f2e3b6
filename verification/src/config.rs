use vstd::prelude::*;

verus! {

/// Inclusive epoch-second bounds that scope a match-identifier listing.
///
/// A window is only ever built through [`Window::new`], which refuses an end
/// that precedes the start.
pub struct Window {
    pub from_ts: i64,
    pub to_ts: i64,
}

impl Window {
    /// A window is well formed when its end does not precede its start.
    pub open spec fn wf(self) -> bool {
        self.from_ts <= self.to_ts
    }

    /// Builds a window, refusing bounds whose end precedes the start.
    pub fn new(from_ts: i64, to_ts: i64) -> (r: Option<Window>)
        ensures
            r is Some <==> from_ts <= to_ts,
            r matches Some(w) ==> w.from_ts == from_ts && w.to_ts == to_ts && w.wf(),
    {
        if from_ts <= to_ts {
            Some(Window { from_ts, to_ts })
        } else {
            None
        }
    }
}

/// How demanding the loss-qualification rule is.
///
/// `Permissive` looks only at the team's `win` flag; `Strict` additionally
/// asks for a standard matched game on a recognized map.
#[derive(Clone, Copy, Debug, PartialEq, Eq)]
pub enum Strictness {
    Permissive,
    Strict,
}

/// Run-wide choices that callers pass into the pipeline instead of reading
/// from any global state: the predicate strictness, the offset the first
/// page request uses, and an optional page size to request.
pub struct RunConfig {
    pub strictness: Strictness,
    pub start_offset: u64,
    pub page_size: Option<i32>,
}

} // verus!

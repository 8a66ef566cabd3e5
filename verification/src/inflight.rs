//! The number of requests that are under way.

use vstd::prelude::*;

verus! {

/// `x` brought into the range of a 64-bit signed integer, as arithmetic that
/// wraps does.
pub open spec fn wrapped(x: int) -> i64 {
    ((x + 0x8000_0000_0000_0000) % 0x1_0000_0000_0000_0000 - 0x8000_0000_0000_0000) as i64
}

/// The level after one more request has begun.
pub open spec fn entered(level: i64) -> i64 {
    if level == i64::MAX {
        i64::MIN
    } else {
        (level + 1) as i64
    }
}

/// The level after one request has ended.
pub open spec fn left(level: i64) -> i64 {
    if level == i64::MIN {
        i64::MAX
    } else {
        (level - 1) as i64
    }
}

/// The level after `steps`, each of them the begin of a request (`true`) or
/// the end of one (`false`).
pub open spec fn level_after(level: i64, steps: Seq<bool>) -> i64
    decreases steps.len(),
{
    if steps.len() == 0 {
        level
    } else if steps.last() {
        entered(level_after(level, steps.drop_last()))
    } else {
        left(level_after(level, steps.drop_last()))
    }
}

/// The requests that `steps` leave open: those begun less those ended.
pub open spec fn open_requests(steps: Seq<bool>) -> int
    decreases steps.len(),
{
    if steps.len() == 0 {
        0
    } else if steps.last() {
        open_requests(steps.drop_last()) + 1
    } else {
        open_requests(steps.drop_last()) - 1
    }
}

/// Whether no request ends in `steps` before it has begun.
pub open spec fn paired(steps: Seq<bool>) -> bool {
    forall|k: int| 0 <= k <= steps.len() ==> open_requests(#[trigger] steps.take(k)) >= 0
}

/// The end of a request undoes its begin, and the other way round, at every level.
pub proof fn lemma_leave_undoes_enter(level: i64)
    ensures
        left(entered(level)) == level,
        entered(left(level)) == level,
{
}

/// Steps change the level by the requests they leave open, in arithmetic that wraps.
pub proof fn lemma_level_after(level: i64, steps: Seq<bool>)
    ensures
        level_after(level, steps) == wrapped(level + open_requests(steps)),
        -steps.len() <= open_requests(steps) <= steps.len(),
    decreases steps.len(),
{
    if steps.len() > 0 {
        lemma_level_after(level, steps.drop_last());
    }
}

/// Where each request that began has ended, the level is what it was before,
/// whatever it was and in whatever order the requests began and ended.
pub proof fn lemma_balanced_requests_cancel(level: i64, steps: Seq<bool>)
    requires
        open_requests(steps) == 0,
    ensures
        level_after(level, steps) == level,
{
    lemma_level_after(level, steps);
}

/// From level zero, as long as no request ends before it has begun, the
/// level is the number of requests under way, and so never negative, at every
/// point at which that number fits the level's 64 bits: however long the run
/// is. (With more than 2^63 - 1 requests under way at once the level has
/// wrapped; it is right again as soon as enough of them have ended.)
pub proof fn lemma_paired_requests_never_negative(steps: Seq<bool>, k: int)
    requires
        paired(steps),
        0 <= k <= steps.len(),
        open_requests(steps.take(k)) <= i64::MAX,
    ensures
        level_after(0, steps.take(k)) == open_requests(steps.take(k)),
        level_after(0, steps.take(k)) >= 0,
{
    lemma_level_after(0, steps.take(k));
}

/// The count of requests under way.
pub struct Inflight {
    level: i64,
}

impl View for Inflight {
    type V = i64;

    closed spec fn view(&self) -> i64 {
        self.level
    }
}

impl Inflight {
    /// No request under way.
    pub fn new() -> (inflight: Inflight)
        ensures
            inflight@ == 0,
    {
        Inflight { level: 0 }
    }

    /// A request begins: the level rises by one, and wraps past the largest value.
    pub fn enter(&mut self)
        ensures
            final(self)@ == entered(old(self)@),
    {
        self.level = if self.level == i64::MAX {
            i64::MIN
        } else {
            self.level + 1
        };
    }

    /// A request ends: the level falls by one, and wraps past the smallest value.
    pub fn leave(&mut self)
        ensures
            final(self)@ == left(old(self)@),
    {
        self.level = if self.level == i64::MIN {
            i64::MAX
        } else {
            self.level - 1
        };
    }

    /// The number of requests under way.
    pub fn level(&self) -> (level: i64)
        ensures
            level == self@,
    {
        self.level
    }
}

} // verus!

//! The pause between two iterations of a script's `main` block.
use std::time::Duration;
use vstd::prelude::*;

verus! {

/// The number of milliseconds between ticks that a GPC `vm_tctrl(n)` call
/// selects: `n + 10`, clamped to `1 ..= 40`.
pub open spec fn tctrl_millis(n: i8) -> int {
    let v = n + 10;
    if v < 1 {
        1
    } else if v > 40 {
        40
    } else {
        v
    }
}

/// `vm_tctrl(n)` selects between 1 and 40 milliseconds, `n + 10` inside that
/// range; `vm_tctrl(0)`, the default, selects 10.
pub proof fn law_tctrl_millis(n: i8)
    ensures
        1 <= tctrl_millis(n) <= 40,
        -9 <= n <= 30 ==> tctrl_millis(n) == n + 10,
        tctrl_millis(0) == 10,
{
}

/// The duration that `Duration::from_millis` gives for a number of
/// milliseconds.
pub uninterp spec fn duration_from_millis(ms: u64) -> Duration;

/// Calls `Duration::from_millis`. Its result is named
/// `duration_from_millis(ms)`: a function of `ms` alone.
#[verifier::external_body]
fn millis_duration(ms: u64) -> (d: Duration)
    ensures
        d == duration_from_millis(ms),
{
    Duration::from_millis(ms)
}

#[derive(Debug, Clone, Copy, PartialEq, Eq)]
pub struct TickInterval(Duration);

impl TickInterval {
    /// The interval's duration.
    pub closed spec fn duration(self) -> Duration {
        self.0
    }

    /// An interval is determined by its duration: two intervals of the same
    /// duration are equal.
    pub broadcast proof fn lemma_duration_determines(a: Self, b: Self)
        requires
            #[trigger] a.duration() == #[trigger] b.duration(),
        ensures
            a == b,
    {
    }

    /// The number of milliseconds that `vm_tctrl(n)` selects.
    pub fn tctrl_millis(n: i8) -> (ms: u64)
        ensures
            ms == tctrl_millis(n),
    {
        let v: i16 = (n as i16) + 10;
        let clamped: i16 = if v < 1 {
            1
        } else if v > 40 {
            40
        } else {
            v
        };
        clamped as u64
    }

    /// Convert a GPC `vm_tctrl` value (-9 ..= 40) to a [`TickInterval`].
    pub fn from_vm_tctrl(n: i8) -> (r: Self)
        ensures
            r.duration() == duration_from_millis(tctrl_millis(n) as u64),
    {
        let ms = Self::tctrl_millis(n);
        Self(millis_duration(ms))
    }

    pub fn from_duration(d: Duration) -> (r: Self)
        ensures
            r.duration() == d,
    {
        Self(d)
    }

    pub fn as_duration(self) -> (d: Duration)
        ensures
            d == self.duration(),
    {
        self.0
    }
}

impl Default for TickInterval {
    /// 10 ms — the GPC default (`vm_tctrl(0)`).
    fn default() -> (r: Self)
        ensures
            r.duration() == duration_from_millis(10),
    {
        Self::from_vm_tctrl(0)
    }
}

} // verus!

//! Timing labelled pieces of work: per label, the total time spent and the
//! number of calls.
use vstd::prelude::*;
use crate::text_util::str_eq;
use std::time::Instant;

verus! {

/// A point in time of the monotonic clock; opaque here.
#[verifier::external_type_specification]
#[verifier::external_body]
pub struct ExInstant(std::time::Instant);

/// `Instant::now`: the current time. Nothing is stated of it.
#[verifier::external_body]
fn now() -> Instant {
    Instant::now()
}

/// `Instant::elapsed` in nanoseconds, from `Duration::as_nanos`. It depends
/// on the clock: nothing is stated of it.
#[verifier::external_body]
fn elapsed_nanos(start: &Instant) -> u128 {
    start.elapsed().as_nanos()
}

/// The time spent under one label.
#[derive(Debug, Clone, Copy, PartialEq, Eq, Structural)]
pub struct Stat {
    /// Total time, in nanoseconds.
    pub total: u128,
    pub calls: u64,
}

/// `x + y`, or `u128::MAX` where that does not fit.
pub open spec fn sat_add_u128(x: u128, y: u128) -> u128 {
    if x + y > u128::MAX {
        u128::MAX
    } else {
        (x + y) as u128
    }
}

/// The labels and stats of a table, in the order the labels first came.
pub open spec fn stats_view(v: Seq<(&'static str, Stat)>) -> Seq<(Seq<char>, Stat)> {
    v.map_values(|e: (&'static str, Stat)| (e.0@, e.1))
}

/// The index of the first entry labelled `label`, or `m.len()`.
pub open spec fn label_index(m: Seq<(Seq<char>, Stat)>, label: Seq<char>, i: int) -> int
    decreases m.len() - i,
{
    if i < 0 || i >= m.len() {
        m.len() as int
    } else if m[i].0 == label {
        i
    } else {
        label_index(m, label, i + 1)
    }
}

/// The table after one call under `label` that took `elapsed` nanoseconds:
/// the label's total grows by it (stopping at `u128::MAX`) and its count
/// by one; a new label comes last.
pub open spec fn record_spec(m: Seq<(Seq<char>, Stat)>, label: Seq<char>, elapsed: u128) -> Seq<
    (Seq<char>, Stat),
> {
    let k = label_index(m, label, 0);
    if k < m.len() {
        m.update(
            k,
            (label, Stat { total: sat_add_u128(m[k].1.total, elapsed), calls: (m[k].1.calls + 1) as u64 }),
        )
    } else {
        m.push((label, Stat { total: elapsed, calls: 1 }))
    }
}

/// Call counts fit: no label has been called `u64::MAX` times.
pub open spec fn counts_fit(m: Seq<(Seq<char>, Stat)>) -> bool {
    forall|k: int| 0 <= k < m.len() ==> (#[trigger] m[k]).1.calls < u64::MAX
}

/// Per-label timings.
#[derive(Debug)]
pub struct Profiler {
    stats: Vec<(&'static str, Stat)>,
}

impl Profiler {
    /// The labels and their stats.
    pub closed spec fn view_stats(&self) -> Seq<(Seq<char>, Stat)> {
        stats_view(self.stats@)
    }

    /// A profiler with no timings.
    pub fn new() -> (p: Profiler)
        ensures
            p.view_stats() == Seq::<(Seq<char>, Stat)>::empty(),
    {
        let p = Profiler { stats: Vec::new() };
        proof {
            assert(p.view_stats() =~= Seq::<(Seq<char>, Stat)>::empty());
        }
        p
    }

    /// Adds one call of `elapsed` nanoseconds under `label`; see
    /// [`record_spec`].
    pub fn record(&mut self, label: &'static str, elapsed: u128)
        requires
            counts_fit(old(self).view_stats()),
        ensures
            final(self).view_stats() == record_spec(old(self).view_stats(), label@, elapsed),
    {
        let ghost m = self.view_stats();
        let mut i: usize = 0;
        proof {
            assert(m.len() == self.stats@.len());
        }
        while i < self.stats.len()
            invariant
                m == stats_view(self.stats@),
                m == stats_view(old(self).stats@),
                m.len() == self.stats@.len(),
                counts_fit(m),
                i <= m.len(),
                label_index(m, label@, 0) == label_index(m, label@, i as int),
            decreases m.len() - i,
        {
            if str_eq(self.stats[i].0, label) {
                let old_stat = self.stats[i].1;
                proof {
                    assert(m[i as int].1 == old_stat);
                }
                let total = old_stat.total.saturating_add(elapsed);
                let stat = Stat { total, calls: old_stat.calls + 1 };
                self.stats.set(i, (label, stat));
                proof {
                    assert(stats_view(self.stats@) =~= record_spec(m, label@, elapsed));
                }
                return ;
            }
            i = i + 1;
        }
        self.stats.push((label, Stat { total: elapsed, calls: 1 }));
        proof {
            assert(stats_view(self.stats@) =~= record_spec(m, label@, elapsed));
        }
    }

    /// Runs `f`, adds the time it took under `label`, and returns its
    /// result. The time comes from the clock: the contract states that one
    /// call was added, whatever it took.
    pub fn profile<F, R>(&mut self, label: &'static str, f: F) -> (r: R) where F: FnOnce() -> R
        requires
            f.requires(()),
            counts_fit(old(self).view_stats()),
        ensures
            f.ensures((), r),
            exists|elapsed: u128| final(self).view_stats() == record_spec(old(self).view_stats(), label@, elapsed),
    {
        let start = now();
        let result = f();
        let elapsed = elapsed_nanos(&start);
        self.record(label, elapsed);
        result
    }

    /// The labels and their stats, in the order the labels first came.
    pub fn entries(&self) -> (v: Vec<(&'static str, Stat)>)
        ensures
            stats_view(v@) == self.view_stats(),
    {
        let mut v: Vec<(&'static str, Stat)> = Vec::new();
        let mut i: usize = 0;
        while i < self.stats.len()
            invariant
                i <= self.stats@.len(),
                v@ == self.stats@.subrange(0, i as int),
            decreases self.stats@.len() - i,
        {
            let ghost before = v@;
            let e = self.stats[i];
            v.push(e);
            i = i + 1;
            proof {
                assert(v@ =~= self.stats@.subrange(0, i as int));
            }
        }
        proof {
            assert(v@ =~= self.stats@);
        }
        v
    }
}

} // verus!

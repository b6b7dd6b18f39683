//! Process-level extraction metrics.

use vstd::prelude::*;

verus! {

/// Counters of an extraction. They wrap around at the end of their range.
#[derive(Debug, Clone, Copy, PartialEq, Eq, Structural)]
pub struct Metrics {
    pub docs_written: u64,
    pub batches: u64,
    pub errors: u64,
}

/// A counter after `n` more.
pub open spec fn counted(c: u64, n: int) -> int {
    (c + n) % 0x1_0000_0000_0000_0000
}

impl Default for Metrics {
    fn default() -> (r: Metrics)
        ensures
            r == (Metrics { docs_written: 0, batches: 0, errors: 0 }),
    {
        Metrics { docs_written: 0, batches: 0, errors: 0 }
    }
}

impl Metrics {
    /// Record a batch of `written` documents successfully delivered.
    pub fn record_batch(&mut self, written: u64)
        ensures
            final(self).docs_written == counted(old(self).docs_written, written as int),
            final(self).batches == counted(old(self).batches, 1),
            final(self).errors == old(self).errors,
    {
        self.docs_written = self.docs_written.wrapping_add(written);
        self.batches = self.batches.wrapping_add(1);
    }

    /// Record a source or destination error.
    pub fn record_error(&mut self)
        ensures
            final(self).errors == counted(old(self).errors, 1),
            final(self).docs_written == old(self).docs_written,
            final(self).batches == old(self).batches,
    {
        self.errors = self.errors.wrapping_add(1);
    }

    /// Snapshot of (docs_written, batches, errors).
    pub fn snapshot(&self) -> (r: (u64, u64, u64))
        ensures
            r == (self.docs_written, self.batches, self.errors),
    {
        (self.docs_written, self.batches, self.errors)
    }
}

/// A counter goes up by what is counted as long as it has room, and otherwise goes
/// on from zero. Counting twice is counting the sum.
pub proof fn counters_go_round(c: u64, a: u64, b: u64)
    ensures
        c + a <= u64::MAX ==> counted(c, a as int) == c + a,
        c + a > u64::MAX ==> counted(c, a as int) == c + a - u64::MAX - 1,
        counted(counted(c, a as int) as u64, b as int) == counted(c, a + b),
{
}

/// A delivered batch is counted once with its documents, and an error once; neither
/// is counted as the other.
pub proof fn batches_and_errors_are_counted(good: &mut Metrics, bad: &mut Metrics, written: u64)
    requires
        call_ensures(Metrics::record_batch, (good, written), ()),
        call_ensures(Metrics::record_error, (bad,), ()),
    ensures
        old(good).docs_written + written <= u64::MAX ==> final(good).docs_written
            == old(good).docs_written + written,
        old(good).batches < u64::MAX ==> final(good).batches == old(good).batches + 1,
        final(good).errors == old(good).errors,
        old(bad).errors < u64::MAX ==> final(bad).errors == old(bad).errors + 1,
        final(bad).docs_written == old(bad).docs_written,
        final(bad).batches == old(bad).batches,
{
}

} // verus!

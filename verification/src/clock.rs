//! Points in time as plain integers, and the clock that gives them.

use vstd::prelude::*;

verus! {

/// A point in time, in nanoseconds from the start of the clock.
#[derive(Debug, Clone, Copy, PartialEq, Eq, Structural)]
pub struct Instant {
    pub nanos: i128,
}

/// The opaque time stamp of the monotonic clock of the machine.
#[verifier::external_type_specification]
#[verifier::external_body]
pub struct ExInstant(std::time::Instant);

/// `std::time::Instant::now` reads the monotonic clock. Nothing is claimed of
/// the reading.
pub assume_specification[ std::time::Instant::now ]() -> std::time::Instant;

/// Calls `std::time::Instant::elapsed` and takes its result in nanoseconds.
/// Nothing is claimed of the number: it depends on when the call is made.
#[verifier::external_body]
fn nanos_since(start: &std::time::Instant) -> u128 {
    start.elapsed().as_nanos()
}

impl Instant {
    /// Tells whether more than `nanos` have passed since `earlier`.
    pub fn is_later_by_more_than(self, earlier: Instant, nanos: i128) -> (r: bool)
        requires
            nanos >= 0,
        ensures
            r == (self.nanos - earlier.nanos > nanos),
    {
        earlier.nanos <= i128::MAX - nanos && self.nanos > earlier.nanos + nanos
    }

    /// The point in time `nanos` after the start of the clock. One that is too
    /// far off to be counted is given as the farthest that can be.
    pub fn after(nanos: u128) -> (r: Instant)
        ensures
            r.nanos == counted(nanos),
    {
        if nanos <= i128::MAX as u128 {
            Instant { nanos: nanos as i128 }
        } else {
            Instant { nanos: i128::MAX }
        }
    }
}

/// A number of nanoseconds as far as it can be counted.
pub open spec fn counted(nanos: u128) -> int {
    if nanos <= i128::MAX {
        nanos as int
    } else {
        i128::MAX as int
    }
}

/// A clock that counts from the moment when it was started, and never back.
pub struct Clock {
    start: std::time::Instant,
    latest: u128,
    readings: Ghost<Seq<Instant>>,
}

impl Clock {
    /// What the clock has read so far, in order.
    pub closed spec fn readings(&self) -> Seq<Instant> {
        self.readings@
    }

    /// The time before which the clock reads no more.
    pub closed spec fn latest(&self) -> int {
        counted(self.latest)
    }

    /// The reading that came the given number of readings before the last.
    pub open spec fn reading(&self, back: int) -> Instant {
        self.readings()[self.readings().len() - 1 - back]
    }

    /// Starts a clock, at whatever the clock of the machine reads.
    pub fn start() -> (r: Clock)
        ensures
            r.readings() == Seq::<Instant>::empty(),
            r.latest() == 0,
    {
        Clock {
            start: std::time::Instant::now(),
            latest: 0,
            readings: Ghost(Seq::empty()),
        }
    }

    /// Reads the clock: the time that has passed since it was started. A time
    /// that is too long to be counted is given as the longest that can be. By
    /// how much it is later than the reading before is up to the machine.
    pub fn now(&mut self) -> (r: Instant)
        ensures
            r.nanos >= 0,
            r.nanos >= old(self).latest(),
            final(self).latest() == r.nanos,
            final(self).readings() == old(self).readings().push(r),
            read_on(*old(self), *final(self), 1),
    {
        let passed: u128 = nanos_since(&self.start);
        self.advance(passed)
    }

    /// Takes it that `passed` nanoseconds have gone by since the clock was
    /// started, and gives the reading: that time, or the reading before where
    /// that is later.
    pub fn advance(&mut self, passed: u128) -> (r: Instant)
        ensures
            r.nanos == (if counted(passed) > old(self).latest() {
                counted(passed)
            } else {
                old(self).latest()
            }),
            final(self).latest() == r.nanos,
            final(self).readings() == old(self).readings().push(r),
            read_on(*old(self), *final(self), 1),
    {
        if passed > self.latest {
            self.latest = passed;
        }
        let r = Instant::after(self.latest);
        proof {
            self.readings@ = self.readings@.push(r);
            let n = old(self).readings().len() as int;
            assert(self.readings().take(n) =~= old(self).readings());
        }
        r
    }
}

/// Between `before` and `after` the clock was read `count` times, each reading
/// no earlier than the one before it.
pub open spec fn read_on(before: Clock, after: Clock, count: nat) -> bool {
    let n = before.readings().len() as int;
    let all = after.readings();
    &&& all.len() == n + count
    &&& all.take(n) == before.readings()
    &&& forall|i: int| n <= i < all.len() ==> (#[trigger] all[i]).nanos >= before.latest()
    &&& forall|i: int, j: int|
        n <= i <= j < all.len() ==> (#[trigger] all[i]).nanos <= (#[trigger] all[j]).nanos
    &&& after.latest() == if count == 0 {
        before.latest()
    } else {
        all.last().nanos as int
    }
}

/// What is read of a clock goes on from what was read of it before.
pub proof fn law_readings_go_on(first: Clock, then: Clock, last: Clock, m: nat, n: nat)
    requires
        read_on(first, then, m),
        read_on(then, last, n),
    ensures
        read_on(first, last, m + n),
{
    let start = first.readings().len() as int;
    let mid = then.readings();
    let all = last.readings();
    assert forall|i: int| 0 <= i < mid.len() implies #[trigger] all[i] == mid[i] by {
        assert(all.take(mid.len() as int)[i] == all[i]);
    }
    assert(all.take(start) =~= mid.take(start));
    assert(m > 0 ==> mid.last() == mid[start + m - 1]);
    assert forall|i: int, j: int| start <= i <= j < all.len() implies (#[trigger] all[i]).nanos
        <= (#[trigger] all[j]).nanos by {
        if i < mid.len() && mid.len() <= j {
            assert(mid[i].nanos <= mid[start + m - 1].nanos);
        }
    }
}

/// Nanoseconds are counted as they are, up to the greatest number that can be,
/// so that a later time never counts as an earlier one.
pub proof fn law_counted(a: u128, b: u128)
    ensures
        0 <= counted(a) <= i128::MAX,
        a <= i128::MAX ==> counted(a) == a,
        a > i128::MAX ==> counted(a) == i128::MAX,
        a <= b ==> counted(a) <= counted(b),
{
}

/// What it means that a clock was read on: what it read before stands, so many
/// readings were added, none is earlier than the last before it, and none can
/// be later than the clock is then. A reading is found by how many came after.
pub proof fn law_read_on(before: Clock, after: Clock, count: nat, i: int)
    requires
        read_on(before, after, count),
        0 <= i < after.readings().len(),
    ensures
        after.readings().len() == before.readings().len() + count,
        i < before.readings().len() ==> after.readings()[i] == before.readings()[i],
        i >= before.readings().len() ==> before.latest() <= after.readings()[i].nanos
            <= after.latest(),
        i > before.readings().len() ==> after.readings()[i - 1].nanos <= after.readings()[i].nanos,
        after.reading(after.readings().len() - 1 - i) == after.readings()[i],
{
    let n = before.readings().len() as int;
    if i < n {
        assert(after.readings().take(n)[i] == after.readings()[i]);
    } else {
        assert(after.readings().last() == after.readings()[after.readings().len() - 1]);
    }
}

} // verus!

use vstd::prelude::*;

verus! {

/// The delay that follows `d` in a doubling sequence capped at `hi`.
pub open spec fn doubled(d: int, hi: int) -> int {
    if d * 2 < hi {
        d * 2
    } else {
        hi
    }
}

/// The delay handed out after `k` calls of `next` since the last reset.
pub open spec fn delay_after(lo: int, hi: int, k: nat) -> int
    decreases k,
{
    if k == 0 {
        lo
    } else {
        doubled(delay_after(lo, hi, (k - 1) as nat), hi)
    }
}

/// Every delay of the sequence lies within `lo..=hi`.
pub proof fn lemma_delay_in_range(lo: int, hi: int, k: nat)
    requires
        0 <= lo <= hi,
    ensures
        lo <= delay_after(lo, hi, k) <= hi,
    decreases k,
{
    if k > 0 {
        lemma_delay_in_range(lo, hi, (k - 1) as nat);
    }
}

/// Retry delays in seconds, doubling from `lo` up to `hi`.
pub struct Backoff {
    lo: u8,
    hi: u8,
    current: u8,
    calls: Ghost<nat>,
}

impl Backoff {
    pub closed spec fn lo(&self) -> int {
        self.lo as int
    }

    pub closed spec fn hi(&self) -> int {
        self.hi as int
    }

    /// The delay that the next call of `next` hands out.
    pub closed spec fn current(&self) -> int {
        self.current as int
    }

    /// How many delays were handed out since creation or the last reset.
    pub closed spec fn calls(&self) -> nat {
        self.calls@
    }

    pub closed spec fn wf(&self) -> bool {
        &&& self.lo <= self.current <= self.hi
        &&& self.current == delay_after(self.lo as int, self.hi as int, self.calls@)
    }

    /// A backoff over the inclusive range `lo..=hi`.
    pub fn new(lo: u8, hi: u8) -> (r: Backoff)
        requires
            lo <= hi,
        ensures
            r.wf(),
            r.lo() == lo,
            r.hi() == hi,
            r.current() == lo,
            r.calls() == 0,
    {
        Backoff { lo, hi, current: lo, calls: Ghost(0) }
    }

    /// Hands out the current delay, then doubles it, saturating at `hi`.
    pub fn next(&mut self) -> (r: u8)
        requires
            old(self).wf(),
        ensures
            final(self).wf(),
            r == old(self).current(),
            old(self).lo() <= r <= old(self).hi(),
            final(self).lo() == old(self).lo(),
            final(self).hi() == old(self).hi(),
            final(self).current() == doubled(old(self).current(), old(self).hi()),
            final(self).calls() == old(self).calls() + 1,
            r == delay_after(old(self).lo(), old(self).hi(), old(self).calls()),
    {
        let r = self.current;
        let twice: u16 = (self.current as u16) * 2;
        if twice < self.hi as u16 {
            self.current = twice as u8;
        } else {
            self.current = self.hi;
        }
        self.calls = Ghost(self.calls@ + 1);
        r
    }

    /// Starts the sequence over from `lo`.
    pub fn reset(&mut self)
        requires
            old(self).wf(),
        ensures
            final(self).wf(),
            final(self).lo() == old(self).lo(),
            final(self).hi() == old(self).hi(),
            final(self).current() == old(self).lo(),
            final(self).calls() == 0,
    {
        self.current = self.lo;
        self.calls = Ghost(0);
    }
}

/// Whatever the calls before it, `next` hands out a delay within `lo..=hi`, and
/// the first one after a reset is `lo` itself.
pub proof fn lemma_next_within_range(b: Backoff)
    requires
        b.wf(),
    ensures
        b.lo() <= b.current() <= b.hi(),
        b.current() == delay_after(b.lo(), b.hi(), b.calls()),
        b.calls() == 0 ==> b.current() == b.lo(),
{
    lemma_delay_in_range(b.lo(), b.hi(), b.calls());
}

} // verus!

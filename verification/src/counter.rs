//! Shared byte accounting for in-flight transfers.
//!
//! Every transfer reports the bytes of each written chunk to one
//! shared counter; a sampler periodically drains (reads and resets)
//! the counter and turns the drained amount into a displayed rate.
//! The counter here is the sequential model of that tally: the
//! driving process wraps it in an atomic, which serialises the
//! concurrent additions into exactly the sequence of `add` calls
//! modelled here.

use vstd::prelude::*;

verus! {

/// Running tally of bytes written by transfers since the last drain.
pub struct ByteCounter {
    /// Bytes recorded since the last drain.
    pub bytes: u64,
}

/// The sum of a batch of recorded chunk lengths.
pub open spec fn sum_of(s: Seq<u64>) -> int
    decreases s.len(),
{
    if s.len() == 0 {
        0
    } else {
        sum_of(s.drop_last()) + s.last()
    }
}

/// The counter value after recording each length of `s` in turn,
/// starting from `start`.
pub open spec fn after_adds(start: int, s: Seq<u64>) -> int
    decreases s.len(),
{
    if s.len() == 0 {
        start
    } else {
        after_adds(start, s.drop_last()) + s.last()
    }
}

impl ByteCounter {
    /// A counter holding no bytes yet.
    pub fn new() -> (c: ByteCounter)
        ensures
            c.bytes == 0,
    {
        ByteCounter { bytes: 0 }
    }

    /// Record `len` more bytes.  Overflow of the tally is an
    /// invariant violation, not a wrap-around, so it is excluded
    /// here; the caller treats it as fatal.
    pub fn add(&mut self, len: u64)
        requires
            old(self).bytes + len <= u64::MAX,
        ensures
            final(self).bytes == old(self).bytes + len,
    {
        self.bytes = self.bytes + len;
    }

    /// Read the tally and reset it to zero (the sampler's
    /// swap-to-zero).  Nothing recorded is lost: the drained value
    /// is exactly what was added since the previous drain.
    pub fn drain(&mut self) -> (r: u64)
        ensures
            r == old(self).bytes,
            final(self).bytes == 0,
    {
        let r = self.bytes;
        self.bytes = 0;
        r
    }

    /// Record a whole batch of chunk lengths, one addition per chunk.
    pub fn add_all(&mut self, chunks: &Vec<u64>)
        requires
            old(self).bytes + sum_of(chunks@) <= u64::MAX,
        ensures
            final(self).bytes == old(self).bytes + sum_of(chunks@),
    {
        proof {
            lemma_after_adds_is_sum(old(self).bytes as int, chunks@);
        }
        let mut i: usize = 0;
        while i < chunks.len()
            invariant
                i <= chunks.len(),
                self.bytes == after_adds(old(self).bytes as int, chunks@.take(i as int)),
                old(self).bytes + sum_of(chunks@) <= u64::MAX,
            decreases chunks.len() - i,
        {
            proof {
                lemma_after_adds_is_sum(old(self).bytes as int, chunks@.take(i as int));
                lemma_after_adds_is_sum(old(self).bytes as int, chunks@.take(i + 1 as int));
                lemma_sum_take_step(chunks@, i as int);
                lemma_sum_take_bounds(chunks@, i + 1 as int);
            }
            self.add(chunks[i]);
            proof {
                assert(chunks@.take(i + 1 as int).drop_last() =~= chunks@.take(i as int));
            }
            i = i + 1;
        }
        proof {
            assert(chunks@.take(chunks@.len() as int) =~= chunks@);
        }
    }
}

/// Taking one more element adds exactly that element to the sum.
proof fn lemma_sum_take_step(s: Seq<u64>, i: int)
    requires
        0 <= i < s.len(),
    ensures
        sum_of(s.take(i + 1)) == sum_of(s.take(i)) + s[i],
{
    assert(s.take(i + 1).drop_last() =~= s.take(i));
}

/// Every chunk length is non-negative, so partial sums never exceed
/// the total.
proof fn lemma_sum_take_bounds(s: Seq<u64>, i: int)
    requires
        0 <= i <= s.len(),
    ensures
        0 <= sum_of(s.take(i)) <= sum_of(s),
    decreases s.len(),
{
    if s.len() == 0 {
    } else if i == s.len() {
        assert(s.take(i) =~= s);
        lemma_sum_take_bounds(s.drop_last(), i - 1);
        assert(s.drop_last().take(i - 1) =~= s.drop_last());
    } else {
        lemma_sum_take_bounds(s.drop_last(), i);
        assert(s.drop_last().take(i) =~= s.take(i));
    }
}

/// Law: the counter neither loses nor double-counts increments.
/// Starting from any tally, recording the chunk lengths `s` in any
/// serialisation leaves the tally larger by exactly their sum, so a
/// drain after the batch reports `start + sum_of(s)` — for a drain
/// that reset the tally to zero, exactly `sum_of(s)`.
pub proof fn lemma_after_adds_is_sum(start: int, s: Seq<u64>)
    ensures
        after_adds(start, s) == start + sum_of(s),
    decreases s.len(),
{
    if s.len() > 0 {
        lemma_after_adds_is_sum(start, s.drop_last());
    }
}

/// Law: the rate the sampler displays accounts for every increment
/// in the interval.  When transfers recorded the chunk lengths
/// `chunks` (in whatever interleaving the atomic serialised them)
/// into a counter drained to zero at the interval's start, the
/// drain at its end reports exactly their sum, and the computed
/// rate is that sum scaled by `1000 / elapsed_ms`.
pub proof fn lemma_sampled_rate(chunks: Seq<u64>, drained: u64, elapsed_ms: u64)
    requires
        elapsed_ms > 0,
        drained == after_adds(0, chunks),
    ensures
        drained == sum_of(chunks),
        spec_average_speed(drained, elapsed_ms) == sum_of(chunks) * 1000 / (elapsed_ms as int),
{
    lemma_after_adds_is_sum(0, chunks);
}

/// The displayed transfer rate: bytes per second, from a byte count
/// observed over `elapsed_ms` milliseconds.
pub open spec fn spec_average_speed(bytes: u64, elapsed_ms: u64) -> int
    recommends
        elapsed_ms > 0,
{
    (bytes * 1000) / (elapsed_ms as int)
}

/// Convert a drained byte count and the milliseconds it accrued over
/// into a bytes-per-second rate.
pub fn average_speed(bytes: u64, elapsed_ms: u64) -> (r: u64)
    requires
        elapsed_ms > 0,
        bytes * 1000 <= u64::MAX,
    ensures
        r == spec_average_speed(bytes, elapsed_ms),
{
    (bytes * 1000) / elapsed_ms
}

/// What the speed sampler does with one timer tick.
pub enum SamplerAction {
    /// Throw the drained bytes away: they accrued before the run's
    /// tasks were fully arranged.
    Discard,
    /// Show this rate, in bytes per second.
    Update(u64),
    /// The progress display is gone, so the run is over: stop
    /// sampling.
    Stop,
}

/// The decisions of the speed-sampling loop.  On each tick the
/// driver drains the shared counter, measures the elapsed interval,
/// checks whether the progress display still exists, and asks this
/// machine what to do.  The very first drained sample is discarded
/// so that the first displayed rate reflects only steady-state
/// transfer.
pub struct SpeedSampler {
    /// Whether the initial, discarded tick has happened.
    pub primed: bool,
}

impl SpeedSampler {
    /// A sampler that has not yet seen its first tick.
    pub fn new() -> (s: SpeedSampler)
        ensures
            !s.primed,
    {
        SpeedSampler { primed: false }
    }

    /// One timer tick: `display_alive` says whether anything still
    /// owns the progress display, `drained` is what the shared
    /// counter held, and `elapsed_ms` the interval it accrued over.
    pub fn on_tick(&mut self, display_alive: bool, drained: u64, elapsed_ms: u64) -> (a:
        SamplerAction)
        requires
            elapsed_ms > 0,
            drained * 1000 <= u64::MAX,
        ensures
            final(self).primed == (old(self).primed || display_alive),
            !old(self).primed && display_alive ==> a is Discard,
            !display_alive ==> a is Stop,
            old(self).primed && display_alive ==> a == SamplerAction::Update(
                average_speed_value(drained, elapsed_ms),
            ),
    {
        if !display_alive {
            SamplerAction::Stop
        } else if !self.primed {
            self.primed = true;
            SamplerAction::Discard
        } else {
            SamplerAction::Update(average_speed(drained, elapsed_ms))
        }
    }
}

/// The rate as a machine word; always in range because the product
/// is required to fit.
pub open spec fn average_speed_value(bytes: u64, elapsed_ms: u64) -> u64
    recommends
        elapsed_ms > 0,
        bytes * 1000 <= u64::MAX,
{
    spec_average_speed(bytes, elapsed_ms) as u64
}

} // verus!

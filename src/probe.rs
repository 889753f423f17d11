use vstd::prelude::*;

use crate::config::{Config, FarDivisor};
use crate::sampling::{candidate_count, count_candidates};

verus! {

/// The timings of one probe, in nanoseconds of a monotonic clock.
#[derive(Clone, Copy, Debug, PartialEq, Eq, Structural)]
pub struct ProbeResult {
    /// Opening the file.
    pub open_ns: u64,
    /// The read at offset zero.
    pub first_read_ns: u64,
    /// The read at the near offset.
    pub near_read_ns: u64,
    /// The far reads, summed and divided by the configured divisor.
    pub far_read_ns: u64,
    /// The whole probe, from before the open to after the last read.
    pub total_ns: u64,
}

impl ProbeResult {
    /// The total covers the individually timed steps it wraps.
    pub open spec fn total_covers_steps(&self) -> bool {
        self.open_ns + self.first_read_ns + self.near_read_ns + self.far_read_ns <= self.total_ns
    }
}

/// What the caller must do next for a probe.
#[derive(Clone, Copy, Debug, PartialEq, Eq, Structural)]
pub enum ProbeAction {
    /// Open the file for reading.
    Open,
    /// Read exactly `len` bytes at `offset`.
    Read { offset: u64, len: u64 },
    /// All steps are done: take the result.
    Finish,
}

/// The divisor of the far-read sum: the samples read, or the whole candidate
/// set, as the configuration says.
pub open spec fn far_divisor_of(c: Config, samples: nat) -> nat {
    match c.far_divisor {
        FarDivisor::SamplesRead => samples,
        FarDivisor::Candidates => candidate_count(c),
    }
}

/// The timed steps of one file, in their fixed order: the open, the read at
/// offset zero, the near read, then one read at each far offset.
///
/// The caller performs each action that `next_action` names, timing it with
/// a monotonic clock, and hands back its start and end with `record`. Since
/// every step starts no earlier than the previous one ended, the step times
/// never add up to more than the time since the probe began.
pub struct ProbeSession {
    pub read_len: u64,
    pub near_offset: u64,
    pub far_offsets: Vec<u64>,
    pub far_divisor: u64,
    pub started_at: u64,
    pub last_end: u64,
    pub steps: usize,
    pub open_ns: u64,
    pub first_read_ns: u64,
    pub near_read_ns: u64,
    pub far_total_ns: u64,
}

impl ProbeSession {
    /// How many steps the probe has in all.
    pub open spec fn step_count(&self) -> nat {
        3 + self.far_offsets@.len()
    }

    pub open spec fn wf(&self) -> bool {
        &&& self.step_count() <= usize::MAX
        &&& self.started_at <= self.last_end
        &&& self.steps <= self.step_count()
        &&& self.open_ns + self.first_read_ns + self.near_read_ns + self.far_total_ns
            <= self.last_end - self.started_at
        &&& self.steps < 1 ==> self.open_ns == 0
        &&& self.steps < 2 ==> self.first_read_ns == 0
        &&& self.steps < 3 ==> self.near_read_ns == 0
        &&& self.steps <= 3 ==> self.far_total_ns == 0
    }

    /// The action that step `k` of this probe stands for.
    pub open spec fn action_at(&self, k: int) -> ProbeAction {
        if k == 0 {
            ProbeAction::Open
        } else if k == 1 {
            ProbeAction::Read { offset: 0, len: self.read_len }
        } else if k == 2 {
            ProbeAction::Read { offset: self.near_offset, len: self.read_len }
        } else if k < self.step_count() {
            ProbeAction::Read { offset: self.far_offsets@[k - 3], len: self.read_len }
        } else {
            ProbeAction::Finish
        }
    }

    /// Starts the probe of one file at clock reading `started_at`, with the
    /// far offsets chosen for it.
    pub fn new(c: &Config, far_offsets: Vec<u64>, started_at: u64) -> (r: ProbeSession)
        requires
            c.valid(),
            far_offsets@.len() + 3 <= usize::MAX,
        ensures
            r.wf(),
            r.steps == 0,
            r.read_len == c.read_len,
            r.near_offset == c.near_offset,
            r.far_offsets@ == far_offsets@,
            r.far_divisor == far_divisor_of(*c, far_offsets@.len()),
            r.started_at == started_at,
            r.last_end == started_at,
    {
        let far_divisor = match c.far_divisor {
            FarDivisor::SamplesRead => far_offsets.len() as u64,
            FarDivisor::Candidates => count_candidates(c),
        };
        ProbeSession {
            read_len: c.read_len,
            near_offset: c.near_offset,
            far_offsets,
            far_divisor,
            started_at,
            last_end: started_at,
            steps: 0,
            open_ns: 0,
            first_read_ns: 0,
            near_read_ns: 0,
            far_total_ns: 0,
        }
    }

    /// The next step to perform.
    pub fn next_action(&self) -> (r: ProbeAction)
        requires
            self.wf(),
        ensures
            r == self.action_at(self.steps as int),
    {
        if self.steps == 0 {
            ProbeAction::Open
        } else if self.steps == 1 {
            ProbeAction::Read { offset: 0, len: self.read_len }
        } else if self.steps == 2 {
            ProbeAction::Read { offset: self.near_offset, len: self.read_len }
        } else if self.steps - 3 < self.far_offsets.len() {
            ProbeAction::Read { offset: self.far_offsets[self.steps - 3], len: self.read_len }
        } else {
            ProbeAction::Finish
        }
    }

    /// Records that the current step ran from clock reading `start` to `end`.
    pub fn record(&mut self, start: u64, end: u64)
        requires
            old(self).wf(),
            old(self).steps < old(self).step_count(),
            old(self).last_end <= start <= end,
        ensures
            final(self).wf(),
            final(self).steps == old(self).steps + 1,
            final(self).last_end == end,
            final(self).read_len == old(self).read_len,
            final(self).near_offset == old(self).near_offset,
            final(self).far_offsets == old(self).far_offsets,
            final(self).far_divisor == old(self).far_divisor,
            final(self).started_at == old(self).started_at,
            final(self).open_ns == if old(self).steps == 0 {
                end - start
            } else {
                old(self).open_ns as int
            },
            final(self).first_read_ns == if old(self).steps == 1 {
                end - start
            } else {
                old(self).first_read_ns as int
            },
            final(self).near_read_ns == if old(self).steps == 2 {
                end - start
            } else {
                old(self).near_read_ns as int
            },
            final(self).far_total_ns == if old(self).steps >= 3 {
                old(self).far_total_ns + (end - start)
            } else {
                old(self).far_total_ns as int
            },
    {
        let d = end - start;
        if self.steps == 0 {
            self.open_ns = d;
        } else if self.steps == 1 {
            self.first_read_ns = d;
        } else if self.steps == 2 {
            self.near_read_ns = d;
        } else {
            self.far_total_ns = self.far_total_ns + d;
        }
        self.steps = self.steps + 1;
        self.last_end = end;
    }

    /// Ends the probe at clock reading `end` and reports its timings. The far
    /// time is the sum of the far reads divided by the session's divisor,
    /// rounded down, or zero when the divisor is zero.
    pub fn finish(&self, end: u64) -> (r: ProbeResult)
        requires
            self.wf(),
            self.steps == self.step_count(),
            self.last_end <= end,
        ensures
            r.open_ns == self.open_ns,
            r.first_read_ns == self.first_read_ns,
            r.near_read_ns == self.near_read_ns,
            r.far_read_ns == if self.far_divisor == 0 {
                0
            } else {
                self.far_total_ns / self.far_divisor
            },
            r.total_ns == end - self.started_at,
            r.total_covers_steps(),
    {
        let far_read_ns = if self.far_divisor == 0 {
            0
        } else {
            self.far_total_ns / self.far_divisor
        };
        assert(far_read_ns <= self.far_total_ns) by {
            if self.far_divisor > 0 {
                vstd::arithmetic::div_mod::lemma_div_is_ordered_by_denominator(
                    self.far_total_ns as int,
                    1,
                    self.far_divisor as int,
                );
            }
        }
        ProbeResult {
            open_ns: self.open_ns,
            first_read_ns: self.first_read_ns,
            near_read_ns: self.near_read_ns,
            far_read_ns,
            total_ns: end - self.started_at,
        }
    }
}

} // verus!

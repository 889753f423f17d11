use vstd::prelude::*;

use crate::probe::ProbeResult;

verus! {

/// How many entries of `s` hold a value.
pub open spec fn num_done(s: Seq<Option<ProbeResult>>) -> nat
    decreases s.len(),
{
    if s.len() == 0 {
        0
    } else {
        num_done(s.drop_last()) + if s.last() is Some {
            1nat
        } else {
            0nat
        }
    }
}

proof fn lemma_num_done_bounds(s: Seq<Option<ProbeResult>>)
    ensures
        num_done(s) <= s.len(),
        num_done(s) == s.len() ==> forall|i: int| 0 <= i < s.len() ==> #[trigger] s[i] is Some,
        (forall|i: int| 0 <= i < s.len() ==> #[trigger] s[i] is None) ==> num_done(s) == 0,
    decreases s.len(),
{
    if s.len() > 0 {
        lemma_num_done_bounds(s.drop_last());
        if num_done(s) == s.len() {
            assert forall|i: int| 0 <= i < s.len() implies #[trigger] s[i] is Some by {
                if i < s.len() - 1 {
                    assert(s.drop_last()[i] == s[i]);
                }
            }
        }
        if forall|i: int| 0 <= i < s.len() ==> #[trigger] s[i] is None {
            assert forall|i: int| 0 <= i < s.drop_last().len() implies #[trigger] s.drop_last()[i] is None by {
                assert(s.drop_last()[i] == s[i]);
            }
        }
    }
}

proof fn lemma_num_done_fill(s: Seq<Option<ProbeResult>>, i: int, v: ProbeResult)
    requires
        0 <= i < s.len(),
        s[i] is None,
    ensures
        num_done(s.update(i, Some(v))) == num_done(s) + 1,
    decreases s.len(),
{
    let t = s.update(i, Some(v));
    if i < s.len() - 1 {
        assert(t.drop_last() =~= s.drop_last().update(i, Some(v)));
        lemma_num_done_fill(s.drop_last(), i, v);
    } else {
        assert(t.drop_last() =~= s.drop_last());
    }
}

proof fn lemma_num_done_prefix(s: Seq<Option<ProbeResult>>, n: int)
    requires
        0 <= n <= s.len(),
        forall|i: int| n <= i < s.len() ==> #[trigger] s[i] is None,
    ensures
        num_done(s) <= n,
    decreases s.len(),
{
    if s.len() > n {
        assert forall|i: int| n <= i < s.drop_last().len() implies #[trigger] s.drop_last()[i] is None by {
            assert(s.drop_last()[i] == s[i]);
        }
        lemma_num_done_prefix(s.drop_last(), n);
    } else {
        lemma_num_done_bounds(s);
    }
}

proof fn lemma_num_done_all_some(s: Seq<Option<ProbeResult>>, n: int)
    requires
        0 <= n <= s.len(),
        forall|i: int| 0 <= i < n ==> #[trigger] s[i] is Some,
    ensures
        num_done(s) >= n,
    decreases s.len(),
{
    if s.len() > 0 {
        let m = if n == s.len() { n - 1 } else { n };
        assert forall|i: int| 0 <= i < m implies #[trigger] s.drop_last()[i] is Some by {
            assert(s.drop_last()[i] == s[i]);
        }
        lemma_num_done_all_some(s.drop_last(), m);
    }
}

/// Why the scheduler refused a request.
#[derive(Clone, Copy, Debug, PartialEq, Eq, Structural)]
pub enum ScheduleError {
    /// A bound of zero would never let a probe start.
    ZeroBound,
    /// The file is not being probed: it has not started, or its result is
    /// already in.
    NotRunning,
}

/// Runs one probe per file with at most `bound` of them in flight at once.
///
/// Files start in index order as slots free up; they may finish in any
/// order. Each file's result is taken exactly once, so when the run is done
/// there is one result per file, with no omission and no duplicate.
pub struct Scheduler {
    pub bound: usize,
    pub next: usize,
    pub running: usize,
    pub peak: usize,
    pub results: Vec<Option<ProbeResult>>,
}

impl Scheduler {
    pub open spec fn wf(&self) -> bool {
        &&& 0 < self.bound
        &&& self.next <= self.results@.len()
        &&& self.running <= self.peak <= self.bound
        &&& self.running == self.next - num_done(self.results@)
        &&& forall|i: int| self.next <= i < self.results@.len() ==> #[trigger] self.results@[i] is None
    }

    /// Whether file `i` has started and its result is not yet in.
    pub open spec fn is_running(&self, i: int) -> bool {
        0 <= i < self.next && self.results@[i] is None
    }

    /// Whether every file has been probed.
    pub open spec fn done(&self) -> bool {
        self.next == self.results@.len() && self.running == 0
    }

    /// A scheduler for `num_files` files, none started yet.
    pub fn new(num_files: usize, bound: usize) -> (r: Result<Scheduler, ScheduleError>)
        ensures
            r is Err <==> bound == 0,
            r is Err ==> r == Err::<Scheduler, ScheduleError>(ScheduleError::ZeroBound),
            r matches Ok(s) ==> {
                &&& s.wf()
                &&& s.bound == bound
                &&& s.next == 0
                &&& s.running == 0
                &&& s.peak == 0
                &&& s.results@.len() == num_files
            },
    {
        if bound == 0 {
            return Err(ScheduleError::ZeroBound);
        }
        let mut results: Vec<Option<ProbeResult>> = Vec::new();
        let mut i: usize = 0;
        while i < num_files
            invariant
                i <= num_files,
                results@.len() == i,
                forall|k: int| 0 <= k < i ==> #[trigger] results@[k] is None,
            decreases num_files - i,
        {
            results.push(None);
            i = i + 1;
        }
        proof {
            lemma_num_done_bounds(results@);
        }
        Ok(Scheduler { bound, next: 0, running: 0, peak: 0, results })
    }

    /// Starts the next queued file if a slot is free, returning its index.
    pub fn start_next(&mut self) -> (r: Option<usize>)
        requires
            old(self).wf(),
        ensures
            final(self).wf(),
            final(self).bound == old(self).bound,
            final(self).results == old(self).results,
            r is Some <==> (old(self).running < old(self).bound && old(self).next
                < old(self).results@.len()),
            r matches Some(i) ==> {
                &&& i == old(self).next
                &&& final(self).next == old(self).next + 1
                &&& final(self).running == old(self).running + 1
                &&& final(self).peak == if old(self).peak < final(self).running {
                    final(self).running
                } else {
                    old(self).peak
                }
            },
            r is None ==> *final(self) == *old(self),
    {
        if self.running < self.bound && self.next < self.results.len() {
            let i = self.next;
            self.next = self.next + 1;
            self.running = self.running + 1;
            if self.peak < self.running {
                self.peak = self.running;
            }
            Some(i)
        } else {
            None
        }
    }

    /// Takes the result of file `index`, which must be running.
    pub fn complete(&mut self, index: usize, result: ProbeResult) -> (r: Result<(), ScheduleError>)
        requires
            old(self).wf(),
        ensures
            final(self).wf(),
            final(self).bound == old(self).bound,
            final(self).next == old(self).next,
            final(self).peak == old(self).peak,
            r is Ok <==> old(self).is_running(index as int),
            r is Err ==> r == Err::<(), ScheduleError>(ScheduleError::NotRunning) && *final(self)
                == *old(self),
            r is Ok ==> final(self).results@ == old(self).results@.update(index as int, Some(result))
                && final(self).running == old(self).running - 1,
    {
        if index >= self.next || self.results[index].is_some() {
            return Err(ScheduleError::NotRunning);
        }
        proof {
            lemma_num_done_fill(self.results@, index as int, result);
            lemma_num_done_prefix(self.results@.update(index as int, Some(result)), self.next as int);
        }
        self.results.set(index, Some(result));
        self.running = self.running - 1;
        Ok(())
    }

    /// Whether every file has been probed.
    pub fn is_done(&self) -> (r: bool)
        requires
            self.wf(),
        ensures
            r == self.done(),
    {
        self.next == self.results.len() && self.running == 0
    }

    /// The results in file order once the run is done, or `None` while a
    /// file is queued or running.
    pub fn into_results(self) -> (r: Option<Vec<ProbeResult>>)
        requires
            self.wf(),
        ensures
            r is Some <==> self.done(),
            r matches Some(v) ==> {
                &&& v@.len() == self.results@.len()
                &&& forall|i: int| 0 <= i < v@.len() ==> self.results@[i] == Some(#[trigger] v@[i])
            },
    {
        if !(self.next == self.results.len() && self.running == 0) {
            return None;
        }
        proof {
            lemma_num_done_bounds(self.results@);
        }
        let mut v: Vec<ProbeResult> = Vec::new();
        let mut i: usize = 0;
        while i < self.results.len()
            invariant
                i <= self.results@.len(),
                v@.len() == i,
                forall|k: int| 0 <= k < self.results@.len() ==> #[trigger] self.results@[k] is Some,
                forall|k: int| 0 <= k < i ==> self.results@[k] == Some(#[trigger] v@[k]),
            decreases self.results@.len() - i,
        {
            match self.results[i] {
                Some(p) => v.push(p),
                None => {
                    assert(false);
                },
            }
            i = i + 1;
        }
        Some(v)
    }
}

/// A finished run accounts for every file exactly once: each file has one
/// result, whatever the bound and whatever order the probes finished in.
pub proof fn lemma_done_run_is_complete(s: Scheduler)
    requires
        s.wf(),
        s.done(),
    ensures
        forall|i: int| 0 <= i < s.results@.len() ==> #[trigger] s.results@[i] is Some,
        forall|i: int| 0 <= i < s.results@.len() ==> !s.is_running(i),
{
    lemma_num_done_bounds(s.results@);
}

/// A run that is not finished can always move on: a queued file can start,
/// or some file is running and its result can be taken. So every run reaches
/// the finished state, with one result per file, under any bound.
pub proof fn lemma_unfinished_run_progresses(s: Scheduler)
    requires
        s.wf(),
        !s.done(),
    ensures
        (s.running < s.bound && s.next < s.results@.len()) || exists|i: int| s.is_running(i),
{
    if s.running > 0 {
        if forall|i: int| 0 <= i < s.next ==> #[trigger] s.results@[i] is Some {
            lemma_num_done_all_some(s.results@, s.next as int);
        }
        let i = choose|i: int| 0 <= i < s.next && !(#[trigger] s.results@[i] is Some);
        assert(s.is_running(i));
    }
}

} // verus!

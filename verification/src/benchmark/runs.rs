//! The runs of one configuration.

use vstd::prelude::*;

verus! {

/// What is done with the time that a run takes.
#[derive(Clone, Copy, Debug, PartialEq, Eq, Structural)]
pub enum Run {
    /// The first run keeps one-time costs out of the measured mean.
    WarmUp,
    /// The run counts.
    Timed,
}

/// The runs of one configuration: one untimed, then those that are measured.
#[derive(Debug)]
pub struct RunSchedule {
    warm: bool,
    remaining: usize,
}

/// A number of timed runs.
pub open spec fn timed_runs(count: nat) -> Seq<Run> {
    Seq::new(count, |i: int| Run::Timed)
}

impl View for RunSchedule {
    type V = Seq<Run>;

    /// The runs that are left.
    closed spec fn view(&self) -> Seq<Run> {
        if self.warm {
            timed_runs(self.remaining as nat)
        } else {
            seq![Run::WarmUp] + timed_runs(self.remaining as nat)
        }
    }
}

impl RunSchedule {
    pub fn new(repetitions: usize) -> (schedule: Self)
        ensures
            schedule@ == seq![Run::WarmUp] + timed_runs(repetitions as nat),
    {
        Self { warm: false, remaining: repetitions }
    }

    /// The run that is due, which is then no longer left.
    pub fn advance(&mut self) -> (run: Option<Run>)
        ensures
            match run {
                Some(run) => old(self)@.len() > 0 && run == old(self)@[0] && final(self)@ == old(
                    self,
                )@.drop_first(),
                None => old(self)@.len() == 0 && final(self)@.len() == 0,
            },
    {
        if !self.warm {
            self.warm = true;
            Some(Run::WarmUp)
        } else if self.remaining > 0 {
            self.remaining -= 1;
            Some(Run::Timed)
        } else {
            None
        }
    }
}

/// What a run adds to the measured time, of which it took `elapsed`.
pub open spec fn counted(run: Run, elapsed: nat) -> nat {
    match run {
        Run::WarmUp => 0,
        Run::Timed => elapsed,
    }
}

/// The time of a timed run counts in full, and that of a warm-up not at all.
pub proof fn timed_runs_count_in_full(run: Run, elapsed: nat)
    ensures
        run == Run::Timed ==> counted(run, elapsed) == elapsed,
        run == Run::WarmUp ==> counted(run, elapsed) == 0,
{
}

/// The measured time, in nanoseconds, with that of another run.
pub fn add_run(total: u128, run: Run, elapsed: u128) -> (sum: u128)
    requires
        total + counted(run, elapsed as nat) <= u128::MAX,
    ensures
        sum == total + counted(run, elapsed as nat),
        run == Run::Timed ==> sum == total + elapsed,
        run == Run::WarmUp ==> sum == total,
{
    match run {
        Run::WarmUp => total,
        Run::Timed => total + elapsed,
    }
}

/// The measured time of a number of runs, where run `i` took `times[i]`.
pub open spec fn measured_time(runs: Seq<Run>, times: Seq<nat>) -> nat
    decreases runs.len(),
{
    if runs.len() == 0 {
        0
    } else {
        measured_time(runs.drop_last(), times) + counted(runs.last(), times[runs.len() - 1])
    }
}

} // verus!

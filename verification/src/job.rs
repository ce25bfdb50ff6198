use vstd::prelude::*;
use crate::error::AudioError;
use crate::pcm::PcmBuffer;
use crate::segmenter::{PassMode, Progress};
use crate::silence::SilenceParams;

verus! {

/// Where a job stands. `Cancelled` is part of the vocabulary, but no
/// operation here cancels: a job that runs, runs to its end.
#[derive(Clone, Copy, Debug, PartialEq, Eq, Structural)]
pub enum JobState {
    Idle,
    Running,
    Done,
    Cancelled,
}

/// The one background job of a session.
#[derive(Clone, Copy, Debug, PartialEq, Eq, Structural)]
pub struct Job {
    pub target: PassMode,
    pub progress: Progress,
    pub state: JobState,
}

/// What a worker needs to run a job: its own copy of the buffer, the
/// settings and the mode.
#[derive(Clone, Debug)]
pub struct JobRequest {
    pub buffer: PcmBuffer,
    pub params: SilenceParams,
    pub mode: PassMode,
}

/// Progress in thousandths: `done * 1000 / total`, never more than all of
/// it, and none of it while there is nothing to count.
pub open spec fn permille_of(progress: Progress) -> int {
    if progress.total == 0 {
        0
    } else if progress.done >= progress.total {
        1000
    } else {
        progress.done * 1000 / (progress.total as int)
    }
}

impl Progress {
    /// Progress in thousandths, from 0 to 1000.
    pub fn permille(&self) -> (share: u16)
        ensures
            share == permille_of(*self),
            share <= 1000,
    {
        if self.total == 0 {
            return 0;
        }
        if self.done >= self.total {
            return 1000;
        }
        let done: u128 = self.done as u128;
        let total: u128 = self.total as u128;
        assert(done * 1000 / (total as int) < 1000 && done * 1000 <= 0xffff_ffff_ffff_ffff_ffff)
            by (nonlinear_arith)
            requires
                done < total,
                total <= 0xffff_ffff_ffff_ffff,
        ;
        (done * 1000 / total) as u16
    }
}

impl Job {
    /// A job that has not been submitted.
    pub fn new() -> (job: Job)
        ensures
            job == (Job {
                target: PassMode::Detect,
                progress: Progress { done: 0, total: 0 },
                state: JobState::Idle,
            }),
    {
        Job {
            target: PassMode::Detect,
            progress: Progress { done: 0, total: 0 },
            state: JobState::Idle,
        }
    }

    /// Whether the job is running.
    pub fn is_running(&self) -> (running: bool)
        ensures
            running == (self.state == JobState::Running),
    {
        match self.state {
            JobState::Running => true,
            _ => false,
        }
    }

    /// Takes on a job over `total` frames. While a job is running a second
    /// one is turned down with `JobBusy`, and the running one, its
    /// progress included, stays as it is.
    pub fn submit(&mut self, target: PassMode, total: usize) -> (accepted: Result<(), AudioError>)
        ensures
            old(self).state == JobState::Running ==> accepted == Err::<(), AudioError>(
                AudioError::JobBusy,
            ) && *final(self) == *old(self),
            old(self).state != JobState::Running ==> accepted == Ok::<(), AudioError>(())
                && *final(self) == (Job {
                target,
                progress: Progress { done: 0, total },
                state: JobState::Running,
            }),
    {
        if self.is_running() {
            return Err(AudioError::JobBusy);
        }
        self.target = target;
        self.progress = Progress { done: 0, total };
        self.state = JobState::Running;
        Ok(())
    }

    /// Takes note of how far the worker has come. Only a running job has
    /// progress to report; reports may skip values.
    pub fn report(&mut self, progress: Progress)
        ensures
            *final(self) == if old(self).state == JobState::Running {
                Job { progress, ..*old(self) }
            } else {
                *old(self)
            },
    {
        if self.is_running() {
            self.progress = progress;
        }
    }

    /// Takes note that the worker has handed over its result. Returns
    /// whether there was a running job to complete; if so it is done. The
    /// progress stays as it was last reported.
    pub fn complete(&mut self) -> (completed: bool)
        ensures
            completed == (old(self).state == JobState::Running),
            *final(self) == if old(self).state == JobState::Running {
                Job { state: JobState::Done, ..*old(self) }
            } else {
                *old(self)
            },
    {
        if self.is_running() {
            self.state = JobState::Done;
            true
        } else {
            false
        }
    }

    /// The progress of the job in thousandths: none while the job is idle,
    /// else what was last reported.
    pub open spec fn permille_shown(&self) -> int {
        if self.state == JobState::Idle {
            0
        } else {
            permille_of(self.progress)
        }
    }

    /// The progress of the job in thousandths, from 0 to 1000: none while
    /// the job is idle, else what was last reported.
    pub fn permille(&self) -> (share: u16)
        ensures
            share == self.permille_shown(),
            share <= 1000,
    {
        match self.state {
            JobState::Idle => 0,
            _ => self.progress.permille(),
        }
    }
}

} // verus!

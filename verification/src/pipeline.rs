//! The asynchronous filter pipeline: scheduling, supersession and
//! publication of environment-map filter jobs.
//!
//! Filtering runs off the shading path.  A request validates its source
//! immediately — a face edge that is not a power of two schedules nothing —
//! and otherwise becomes a pending job.  Scheduling a new source for the
//! same owner supersedes the owner's pending job, and a superseded job
//! never publishes output: its result slot stays empty forever.  Running a
//! pending job publishes exactly the filtered maps of its source; callers
//! poll for completion, and shading simply omits a probe whose job has not
//! completed.

use crate::filter::{
    filter_environment_map, filtered_from, is_pow2, is_power_of_two, Cubemap, FilteredMaps,
};
use crate::LightProbeError;
use vstd::prelude::*;

verus! {

/// The lifecycle of one filter job.
#[derive(Clone, Copy, Debug, PartialEq, Eq, Structural)]
pub enum JobStatus {
    /// Scheduled, not yet run.
    Pending,
    /// Ran to completion; its output is published.
    Complete,
    /// Cancelled by a newer source for the same owner before it ran; its
    /// partial output is never published.
    Superseded,
}

/// One filter job: who asked, what to filter, and what was published.
pub struct FilterJob {
    pub id: u64,
    pub owner: u64,
    pub source: Cubemap,
    pub status: JobStatus,
    pub output: Option<FilteredMaps>,
}

/// A job only ever holds a validated source, and its output slot is
/// filled exactly when it is complete — and then with exactly the
/// filtered maps of its source.  A superseded job publishes nothing.
pub open spec fn job_wf(j: FilterJob) -> bool {
    &&& j.source.wf()
    &&& is_pow2(j.source.size as int)
    &&& (j.status is Pending ==> j.output is None)
    &&& (j.status is Superseded ==> j.output is None)
    &&& (j.status is Complete ==> match j.output {
        Option::Some(maps) => filtered_from(j.source, maps),
        Option::None => false,
    })
}

/// The filter pipeline: its jobs in scheduling order.
pub struct FilterPipeline {
    pub jobs: Vec<FilterJob>,
    pub next_job_id: u64,
}

impl FilterPipeline {
    /// Every job well formed; ids strictly grow with scheduling order and
    /// stay below the id counter.
    pub open spec fn wf(self) -> bool {
        &&& forall|i: int| 0 <= i < self.jobs@.len() ==> job_wf(#[trigger] self.jobs@[i])
        &&& forall|i: int, j: int|
            0 <= i < j < self.jobs@.len() ==> (#[trigger] self.jobs@[i].id)
                < (#[trigger] self.jobs@[j].id)
        &&& forall|i: int| 0 <= i < self.jobs@.len() ==> (#[trigger] self.jobs@[i].id) < self.next_job_id
    }

    /// An empty pipeline.
    pub fn new() -> (r: FilterPipeline)
        ensures
            r.jobs@ =~= Seq::<FilterJob>::empty(),
            r.next_job_id == 0,
            r.wf(),
    {
        FilterPipeline { jobs: Vec::new(), next_job_id: 0 }
    }

    /// Number of jobs ever scheduled and kept, whatever their status.
    pub fn job_count(&self) -> (n: usize)
        ensures
            n == self.jobs@.len(),
    {
        self.jobs.len()
    }

    /// Position of the job with the given id, if any.
    fn find_job(&self, job_id: u64) -> (r: Option<usize>)
        ensures
            match r {
                Option::Some(i) => i < self.jobs@.len() && self.jobs@[i as int].id == job_id,
                Option::None => forall|j: int|
                    0 <= j < self.jobs@.len() ==> (#[trigger] self.jobs@[j].id) != job_id,
            },
    {
        let mut i: usize = 0;
        while i < self.jobs.len()
            invariant
                0 <= i <= self.jobs@.len(),
                forall|j: int| 0 <= j < i ==> (#[trigger] self.jobs@[j].id) != job_id,
            decreases self.jobs@.len() - i,
        {
            if self.jobs[i].id == job_id {
                return Some(i);
            }
            i += 1;
        }
        None
    }

    /// Request filtering of `source` on behalf of `owner` (typically the
    /// handle of a generated environment map).  A source whose face edge
    /// is not a power of two is rejected and nothing is scheduled or
    /// published.  Otherwise any pending job of the same owner is
    /// superseded — its output slot stays empty for good — and a fresh
    /// pending job is appended under the returned id.  Re-scheduling is
    /// how a source change re-triggers filtering; intensity, rotation or
    /// flag changes never pass through here.
    pub fn schedule(&mut self, owner: u64, source: Cubemap) -> (r: Result<u64, LightProbeError>)
        requires
            old(self).wf(),
            source.wf(),
            old(self).next_job_id < u64::MAX,
        ensures
            final(self).wf(),
            !is_pow2(source.size as int) ==> r == Err::<u64, LightProbeError>(
                LightProbeError::InvalidSourceDimensions,
            ) && final(self).jobs@ == old(self).jobs@
                && final(self).next_job_id == old(self).next_job_id,
            is_pow2(source.size as int) ==> {
                &&& r == Ok::<u64, LightProbeError>(old(self).next_job_id)
                &&& final(self).next_job_id == old(self).next_job_id + 1
                &&& final(self).jobs@.len() == old(self).jobs@.len() + 1
                &&& final(self).jobs@.last().id == old(self).next_job_id
                &&& final(self).jobs@.last().owner == owner
                &&& final(self).jobs@.last().source == source
                &&& final(self).jobs@.last().status is Pending
                &&& final(self).jobs@.last().output is None
                &&& forall|i: int|
                    0 <= i < old(self).jobs@.len() && old(self).jobs@[i].owner == owner && (
                    #[trigger] old(self).jobs@[i]).status is Pending ==> final(self).jobs@[i].id
                        == old(self).jobs@[i].id && final(self).jobs@[i].owner == owner && final(self).jobs@[i].source == old(self).jobs@[i].source
                        && final(self).jobs@[i].status is Superseded
                        && final(self).jobs@[i].output is None
                &&& forall|i: int|
                    0 <= i < old(self).jobs@.len() && !(old(self).jobs@[i].owner == owner && (
                    #[trigger] old(self).jobs@[i]).status is Pending) ==> final(self).jobs@[i]
                        == old(self).jobs@[i]
            },
    {
        if !is_power_of_two(source.size) {
            return Err(LightProbeError::InvalidSourceDimensions);
        }
        let mut i: usize = 0;
        while i < self.jobs.len()
            invariant
                old(self).wf(),
                self.next_job_id == old(self).next_job_id,
                self.jobs@.len() == old(self).jobs@.len(),
                0 <= i <= self.jobs@.len(),
                forall|j: int|
                    0 <= j < i && old(self).jobs@[j].owner == owner && (#[trigger] old(self).jobs@[j]).status is Pending ==> self.jobs@[j].id == old(self).jobs@[j].id
                        && self.jobs@[j].owner == owner && self.jobs@[j].source == old(self).jobs@[j].source && self.jobs@[j].status is Superseded
                        && self.jobs@[j].output is None,
                forall|j: int|
                    0 <= j < i && !(old(self).jobs@[j].owner == owner && (#[trigger] old(self).jobs@[j]).status is Pending) ==> self.jobs@[j] == old(self).jobs@[j],
                forall|j: int| i <= j < self.jobs@.len() ==> self.jobs@[j] == old(self).jobs@[j],
            decreases self.jobs@.len() - i,
        {
            let is_pending = match self.jobs[i].status {
                JobStatus::Pending => true,
                _ => false,
            };
            if self.jobs[i].owner == owner && is_pending {
                let job = &mut self.jobs[i];
                job.status = JobStatus::Superseded;
            }
            i += 1;
        }
        let id = self.next_job_id;
        self.jobs.push(
            FilterJob { id, owner, source, status: JobStatus::Pending, output: None },
        );
        self.next_job_id = id + 1;
        proof {
            let n = self.jobs@.len();
            assert forall|k: int| 0 <= k < n implies job_wf(#[trigger] self.jobs@[k]) by {
                if k < n - 1 {
                    assert(job_wf(old(self).jobs@[k]));
                }
            }
            assert forall|k: int| 0 <= k < n - 1 implies (#[trigger] self.jobs@[k].id)
                == old(self).jobs@[k].id by {
                assert(old(self).jobs@[k].owner == owner && old(self).jobs@[k].status is Pending
                    || !(old(self).jobs@[k].owner == owner
                    && old(self).jobs@[k].status is Pending));
            }
        }
        Ok(id)
    }

    /// Run the job with the given id if it is still pending, publishing
    /// exactly the filtered maps of its source; reports whether anything
    /// was published.  A complete or superseded job, or an unknown id, is
    /// left untouched — in particular a superseded job can never publish.
    pub fn run_job(&mut self, job_id: u64) -> (r: bool)
        requires
            old(self).wf(),
        ensures
            final(self).wf(),
            final(self).next_job_id == old(self).next_job_id,
            final(self).jobs@.len() == old(self).jobs@.len(),
            r ==> exists|i: int|
                0 <= i < old(self).jobs@.len() && (#[trigger] old(self).jobs@[i]).id == job_id
                    && old(self).jobs@[i].status is Pending && final(self).jobs@[i].id == job_id
                    && final(self).jobs@[i].owner == old(self).jobs@[i].owner
                    && final(self).jobs@[i].source == old(self).jobs@[i].source
                    && final(self).jobs@[i].status is Complete && (match final(self).jobs@[i].output {
                    Option::Some(maps) => filtered_from(old(self).jobs@[i].source, maps),
                    Option::None => false,
                }) && forall|k: int|
                    0 <= k < old(self).jobs@.len() && k != i ==> final(self).jobs@[k] == old(self).jobs@[k],
            !r ==> final(self).jobs@ == old(self).jobs@ && forall|i: int|
                0 <= i < old(self).jobs@.len() ==> !((#[trigger] old(self).jobs@[i]).id == job_id
                    && old(self).jobs@[i].status is Pending),
    {
        match self.find_job(job_id) {
            Option::None => false,
            Option::Some(i) => {
                let is_pending = match self.jobs[i].status {
                    JobStatus::Pending => true,
                    _ => false,
                };
                if !is_pending {
                    return false;
                }
                match filter_environment_map(&self.jobs[i].source) {
                    Ok(maps) => {
                        let job = &mut self.jobs[i];
                        job.status = JobStatus::Complete;
                        job.output = Some(maps);
                        true
                    },
                    Err(_) => {
                        proof {
                            assert(false);
                        }
                        false
                    },
                }
            },
        }
    }

    /// The status of the job with the given id, if it exists.
    pub fn status_of(&self, job_id: u64) -> (r: Option<JobStatus>)
        requires
            self.wf(),
        ensures
            match r {
                Option::Some(st) => exists|i: int|
                    0 <= i < self.jobs@.len() && (#[trigger] self.jobs@[i]).id == job_id
                        && self.jobs@[i].status == st,
                Option::None => forall|i: int|
                    0 <= i < self.jobs@.len() ==> (#[trigger] self.jobs@[i].id) != job_id,
            },
    {
        match self.find_job(job_id) {
            Option::None => None,
            Option::Some(i) => Some(self.jobs[i].status),
        }
    }

    /// The published maps of the job with the given id: present exactly
    /// when that job completed, and then exactly the filtered maps of its
    /// source.
    pub fn output_of(&self, job_id: u64) -> (r: Option<&FilteredMaps>)
        requires
            self.wf(),
        ensures
            match r {
                Option::Some(maps) => exists|i: int|
                    0 <= i < self.jobs@.len() && (#[trigger] self.jobs@[i]).id == job_id
                        && self.jobs@[i].status is Complete && filtered_from(
                        self.jobs@[i].source,
                        *maps,
                    ),
                Option::None => forall|i: int|
                    0 <= i < self.jobs@.len() && (#[trigger] self.jobs@[i]).id == job_id
                        ==> !(self.jobs@[i].status is Complete),
            },
    {
        match self.find_job(job_id) {
            Option::None => None,
            Option::Some(i) => {
                match &self.jobs[i].output {
                    Option::Some(maps) => Some(maps),
                    Option::None => None,
                }
            },
        }
    }
}

} // verus!

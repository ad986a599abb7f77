//! The job-queue views' logic: one description line per job, jobs ordered
//! newest first, and the split into ongoing and terminated rows.

use vstd::prelude::*;
use vstd::string::*;

use crate::model::{RcloneJob, RcloneJobStatus, RcloneJobType};
use crate::path_tools::{has_filename_marker, parent_defined, spec_filename, spec_parent};
use crate::registry::is_ongoing;

verus! {

/// Messages of the queue overview: the job set changed, or the popover
/// was requested.
pub enum QueueViewInMsg {
    JobsUpdated,
    PopoverRequested,
}

/// Messages of one queue row: its job changed, or its removal was
/// requested.
pub enum QueueDetailInMsg {
    JobUpdated,
    JobDeletionRequested,
}

/// Messages of the queue dialog.
pub enum QueueDialogInput {
    JobsUpdated,
    CleanNonOngoingJobs,
}

/// The addresses inside the job give both a filename and a parent, so a
/// description line can be formed.
pub open spec fn describable(job: RcloneJob) -> bool {
    match job.job_type {
        RcloneJobType::Upload { local_path, remote_path } => has_filename_marker(local_path@)
            && parent_defined(remote_path@),
        RcloneJobType::Move { source_path, target_path } => has_filename_marker(source_path@)
            && parent_defined(target_path@),
        RcloneJobType::Copy { source_path, target_path } => has_filename_marker(source_path@)
            && parent_defined(target_path@),
        RcloneJobType::Rename(path) => has_filename_marker(path@) && parent_defined(path@),
        RcloneJobType::Delete(path) => has_filename_marker(path@) && parent_defined(path@),
        RcloneJobType::Open { remote_path, .. } => has_filename_marker(remote_path@)
            && parent_defined(remote_path@),
    }
}

/// The one-line human-readable summary of a job: its verb, the filename
/// it acts on, and the directory it relates to.
pub open spec fn spec_description(job: RcloneJob) -> Seq<char> {
    match job.job_type {
        RcloneJobType::Upload { local_path, remote_path } => "Upload "@ + spec_filename(
            local_path@,
        ) + " to "@ + spec_parent(remote_path@),
        RcloneJobType::Move { source_path, target_path } => "Move "@ + spec_filename(
            source_path@,
        ) + " to "@ + spec_parent(target_path@),
        RcloneJobType::Copy { source_path, target_path } => "Copy "@ + spec_filename(
            source_path@,
        ) + " to "@ + spec_parent(target_path@),
        RcloneJobType::Rename(path) => "Rename "@ + spec_filename(path@) + " in "@ + spec_parent(
            path@,
        ),
        RcloneJobType::Delete(path) => "Delete "@ + spec_filename(path@) + " from "@
            + spec_parent(path@),
        RcloneJobType::Open { remote_path, .. } => "Open "@ + spec_filename(
            remote_path@,
        ) + " from "@ + spec_parent(remote_path@),
    }
}

/// The description line shown for a job in the queue.
pub fn make_job_description(job: &RcloneJob) -> (r: String)
    requires
        describable(*job),
    ensures
        r@ == spec_description(*job),
{
    match &job.job_type {
        RcloneJobType::Upload { local_path, remote_path } => {
            let mut d = String::from_str("Upload ");
            d.append(local_path.filename().as_str());
            d.append(" to ");
            d.append(remote_path.resolve_to_parent().to_string().as_str());
            proof {
                assert(d@ =~= spec_description(*job));
            }
            d
        },
        RcloneJobType::Move { source_path, target_path } => {
            let mut d = String::from_str("Move ");
            d.append(source_path.filename().as_str());
            d.append(" to ");
            d.append(target_path.resolve_to_parent().to_string().as_str());
            proof {
                assert(d@ =~= spec_description(*job));
            }
            d
        },
        RcloneJobType::Copy { source_path, target_path } => {
            let mut d = String::from_str("Copy ");
            d.append(source_path.filename().as_str());
            d.append(" to ");
            d.append(target_path.resolve_to_parent().to_string().as_str());
            proof {
                assert(d@ =~= spec_description(*job));
            }
            d
        },
        RcloneJobType::Rename(path) => {
            let mut d = String::from_str("Rename ");
            d.append(path.filename().as_str());
            d.append(" in ");
            d.append(path.resolve_to_parent().to_string().as_str());
            proof {
                assert(d@ =~= spec_description(*job));
            }
            d
        },
        RcloneJobType::Delete(path) => {
            let mut d = String::from_str("Delete ");
            d.append(path.filename().as_str());
            d.append(" from ");
            d.append(path.resolve_to_parent().to_string().as_str());
            proof {
                assert(d@ =~= spec_description(*job));
            }
            d
        },
        RcloneJobType::Open { remote_path, .. } => {
            let mut d = String::from_str("Open ");
            d.append(remote_path.filename().as_str());
            d.append(" from ");
            d.append(remote_path.resolve_to_parent().to_string().as_str());
            proof {
                assert(d@ =~= spec_description(*job));
            }
            d
        },
    }
}

/// Newest jobs first.
pub open spec fn sorted_by_start_desc(jobs: Seq<RcloneJob>) -> bool {
    forall|i: int, j: int|
        0 <= i <= j < jobs.len() ==> #[trigger] jobs[i].started_at >= #[trigger] jobs[j].started_at
}

fn insert_job_sorted(out: &mut Vec<RcloneJob>, job: RcloneJob)
    requires
        sorted_by_start_desc(old(out)@),
    ensures
        sorted_by_start_desc(final(out)@),
        final(out)@.to_multiset() == old(out)@.to_multiset().insert(job),
{
    let mut k: usize = 0;
    while k < out.len() && out[k].started_at >= job.started_at
        invariant
            k <= out@.len(),
            sorted_by_start_desc(out@),
            forall|j: int| 0 <= j < k ==> #[trigger] out@[j].started_at >= job.started_at,
        decreases out@.len() - k,
    {
        k += 1;
    }
    let ghost before = out@;
    out.insert(k, job);
    proof {
        broadcast use vstd::seq_lib::group_to_multiset_ensures;

        assert(out@ == before.insert(k as int, job));
        assert(sorted_by_start_desc(out@)) by {
            assert forall|a: int, b: int|
                0 <= a <= b < out@.len() implies #[trigger] out@[a].started_at
                >= #[trigger] out@[b].started_at by {
                let ka = k as int;
                if a < ka && b < ka {
                } else if a < ka && b == ka {
                } else if a < ka && b > ka {
                    assert(out@[b] == before[b - 1]);
                } else if a == ka && b == ka {
                } else if a == ka && b > ka {
                    assert(out@[b] == before[b - 1]);
                    if ka < before.len() {
                        assert(before[ka].started_at >= before[b - 1].started_at);
                    }
                } else {
                    assert(out@[a] == before[a - 1]);
                    assert(out@[b] == before[b - 1]);
                }
            }
        }
    }
}

/// The jobs reordered newest first, as the queue displays them.
pub fn sort_jobs_by_start_desc(jobs: &Vec<RcloneJob>) -> (r: Vec<RcloneJob>)
    ensures
        r@.to_multiset() == jobs@.to_multiset(),
        sorted_by_start_desc(r@),
{
    let mut out: Vec<RcloneJob> = Vec::new();
    let mut i: usize = 0;
    proof {
        assert(jobs@.take(0) =~= out@);
    }
    while i < jobs.len()
        invariant
            i <= jobs@.len(),
            sorted_by_start_desc(out@),
            out@.to_multiset() == jobs@.take(i as int).to_multiset(),
        decreases jobs@.len() - i,
    {
        insert_job_sorted(&mut out, jobs[i].clone());
        proof {
            broadcast use vstd::seq_lib::group_to_multiset_ensures;

            assert(jobs@.take(i + 1) =~= jobs@.take(i as int).push(jobs@[i as int]));
        }
        i += 1;
    }
    proof {
        assert(jobs@.take(jobs@.len() as int) =~= jobs@);
    }
    out
}

pub open spec fn uuids_of(jobs: Seq<RcloneJob>) -> Seq<u128> {
    jobs.map_values(|j: RcloneJob| j.uuid)
}

/// The identifiers of the given jobs, split into still-running and
/// terminated, each side keeping the given order.
pub fn split_job_ids(jobs: &Vec<RcloneJob>) -> (r: (Vec<u128>, Vec<u128>))
    ensures
        r.0@ == uuids_of(jobs@.filter(|j: RcloneJob| is_ongoing(j))),
        r.1@ == uuids_of(jobs@.filter(|j: RcloneJob| !is_ongoing(j))),
{
    let mut ongoing: Vec<u128> = Vec::new();
    let mut terminated: Vec<u128> = Vec::new();
    let mut i: usize = 0;
    proof {
        reveal(Seq::filter);
    }
    while i < jobs.len()
        invariant
            i <= jobs@.len(),
            ongoing@ == uuids_of(jobs@.take(i as int).filter(|j: RcloneJob| is_ongoing(j))),
            terminated@ == uuids_of(jobs@.take(i as int).filter(|j: RcloneJob| !is_ongoing(j))),
        decreases jobs@.len() - i,
    {
        proof {
            reveal(Seq::filter);
            assert(jobs@.take(i + 1).drop_last() =~= jobs@.take(i as int));
            assert(jobs@.take(i + 1).last() == jobs@[i as int]);
        }
        let job = &jobs[i];
        let ghost on0 = jobs@.take(i as int).filter(|j: RcloneJob| is_ongoing(j));
        let ghost te0 = jobs@.take(i as int).filter(|j: RcloneJob| !is_ongoing(j));
        match job.status {
            RcloneJobStatus::Ongoing => {
                ongoing.push(job.uuid);
                proof {
                    assert(uuids_of(on0.push(jobs@[i as int])) =~= uuids_of(on0).push(
                        jobs@[i as int].uuid,
                    ));
                }
            },
            _ => {
                terminated.push(job.uuid);
                proof {
                    assert(uuids_of(te0.push(jobs@[i as int])) =~= uuids_of(te0).push(
                        jobs@[i as int].uuid,
                    ));
                }
            },
        }
        i += 1;
    }
    proof {
        assert(jobs@.take(jobs@.len() as int) =~= jobs@);
    }
    (ongoing, terminated)
}

} // verus!

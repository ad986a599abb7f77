//! Jobs: one record per user-requested file operation, from creation in
//! the `Ongoing` state to exactly one terminal transition.

use vstd::prelude::*;

use crate::path_tools::RclonePath;

verus! {

/// The closed set of operations a job can describe, each carrying the
/// addresses that describe it to the user.
#[derive(Debug)]
pub enum RcloneJobType {
    Upload { local_path: RclonePath, remote_path: RclonePath },
    Move { source_path: RclonePath, target_path: RclonePath },
    Copy { source_path: RclonePath, target_path: RclonePath },
    Rename(RclonePath),
    Delete(RclonePath),
    Open { remote_path: RclonePath, tmp_local_path: RclonePath },
}

/// A job starts `Ongoing` and ends `Finished` or `Failed`; the transition
/// happens once and is never reversed.
#[derive(Debug)]
pub enum RcloneJobStatus {
    Ongoing,
    Finished,
    Failed(String),
}

impl Clone for RcloneJobStatus {
    fn clone(&self) -> (r: Self)
        ensures
            r == *self,
    {
        match self {
            RcloneJobStatus::Ongoing => RcloneJobStatus::Ongoing,
            RcloneJobStatus::Finished => RcloneJobStatus::Finished,
            RcloneJobStatus::Failed(m) => RcloneJobStatus::Failed(m.clone()),
        }
    }
}

impl PartialEq for RcloneJobStatus {
    fn eq(&self, other: &Self) -> (r: bool) {
        match (self, other) {
            (RcloneJobStatus::Ongoing, RcloneJobStatus::Ongoing) => true,
            (RcloneJobStatus::Finished, RcloneJobStatus::Finished) => true,
            (RcloneJobStatus::Failed(a), RcloneJobStatus::Failed(b)) => a.eq(b),
            _ => false,
        }
    }
}

impl vstd::std_specs::cmp::PartialEqSpecImpl for RcloneJobStatus {
    open spec fn obeys_eq_spec() -> bool {
        true
    }

    open spec fn eq_spec(&self, other: &Self) -> bool {
        match (self, other) {
            (RcloneJobStatus::Ongoing, RcloneJobStatus::Ongoing) => true,
            (RcloneJobStatus::Finished, RcloneJobStatus::Finished) => true,
            (RcloneJobStatus::Failed(a), RcloneJobStatus::Failed(b)) => a@ == b@,
            _ => false,
        }
    }
}

impl Clone for RcloneJobType {
    fn clone(&self) -> (r: Self)
        ensures
            r == *self,
    {
        match self {
            RcloneJobType::Upload { local_path, remote_path } => RcloneJobType::Upload {
                local_path: local_path.clone(),
                remote_path: remote_path.clone(),
            },
            RcloneJobType::Move { source_path, target_path } => RcloneJobType::Move {
                source_path: source_path.clone(),
                target_path: target_path.clone(),
            },
            RcloneJobType::Copy { source_path, target_path } => RcloneJobType::Copy {
                source_path: source_path.clone(),
                target_path: target_path.clone(),
            },
            RcloneJobType::Rename(p) => RcloneJobType::Rename(p.clone()),
            RcloneJobType::Delete(p) => RcloneJobType::Delete(p.clone()),
            RcloneJobType::Open { remote_path, tmp_local_path } => RcloneJobType::Open {
                remote_path: remote_path.clone(),
                tmp_local_path: tmp_local_path.clone(),
            },
        }
    }
}

/// One requested operation: an identifier unique per draw, the operation,
/// its lifecycle status, and the wall-clock start instant in Unix
/// nanoseconds.
#[derive(Debug)]
pub struct RcloneJob {
    pub uuid: u128,
    pub status: RcloneJobStatus,
    pub job_type: RcloneJobType,
    pub started_at: i128,
}

impl Clone for RcloneJob {
    fn clone(&self) -> (r: Self)
        ensures
            r == *self,
    {
        RcloneJob {
            uuid: self.uuid,
            status: self.status.clone(),
            job_type: self.job_type.clone(),
            started_at: self.started_at,
        }
    }
}

/// Relies on uuid::Uuid::new_v4, a freshly drawn random identifier, read
/// out through Uuid::as_u128; the value is random, so nothing is promised
/// of it.
#[verifier::external_body]
fn fresh_uuid() -> u128 {
    uuid::Uuid::new_v4().as_u128()
}

/// Relies on time::OffsetDateTime::now_utc, the current wall-clock
/// instant, read out through unix_timestamp_nanos; the value depends on
/// the clock, so nothing is promised of it.
#[verifier::external_body]
fn now_unix_nanos() -> i128 {
    time::OffsetDateTime::now_utc().unix_timestamp_nanos()
}

impl RcloneJob {
    /// A new job always starts `Ongoing`, stamped with a fresh identifier
    /// and the current instant.
    pub fn new(job_type: RcloneJobType) -> (r: Self)
        ensures
            r.status is Ongoing,
            r.job_type == job_type,
    {
        RcloneJob {
            uuid: fresh_uuid(),
            status: RcloneJobStatus::Ongoing,
            job_type,
            started_at: now_unix_nanos(),
        }
    }

    /// Overwrites the status and nothing else. Callers uphold the
    /// lifecycle rule: only `Ongoing` jobs receive a terminal status, and
    /// a terminal status is never replaced.
    pub fn set_status(&mut self, new_status: RcloneJobStatus)
        ensures
            final(self).status == new_status,
            final(self).uuid == old(self).uuid,
            final(self).job_type == old(self).job_type,
            final(self).started_at == old(self).started_at,
    {
        self.status = new_status;
    }
}

/// The browsing interaction mode: plain browsing, or picking a
/// destination folder for a pending move or copy whose source was chosen
/// before the mode switch. Exactly one mode is active at a time; leaving
/// either picking mode always returns to `Select`.
#[derive(Debug)]
pub enum FilePickerMode {
    Select,
    Move(RclonePath),
    Copy(RclonePath),
}

impl Default for FilePickerMode {
    fn default() -> (r: Self)
        ensures
            r is Select,
    {
        FilePickerMode::Select
    }
}

impl Clone for FilePickerMode {
    fn clone(&self) -> (r: Self)
        ensures
            r == *self,
    {
        match self {
            FilePickerMode::Select => FilePickerMode::Select,
            FilePickerMode::Move(p) => FilePickerMode::Move(p.clone()),
            FilePickerMode::Copy(p) => FilePickerMode::Copy(p.clone()),
        }
    }
}

/// One configured remote, as listed in the sidebar.
pub struct RemoteView {
    pub name: String,
}

} // verus!

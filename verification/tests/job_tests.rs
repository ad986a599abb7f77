use rclone_shuttle::history::NavigationHistory;
use rclone_shuttle::model::{RcloneJob, RcloneJobStatus, RcloneJobType};
use rclone_shuttle::path_tools::RclonePath;
use rclone_shuttle::queue::{make_job_description, sort_jobs_by_start_desc, split_job_ids};
use rclone_shuttle::registry::{
    clean_non_ongoing_jobs, get_ongoing_jobs, has_failed_jobs, JobRegistry,
};

fn move_job(source: &str, target: &str) -> RcloneJob {
    RcloneJob::new(RcloneJobType::Move {
        source_path: RclonePath::from(source),
        target_path: RclonePath::from(target),
    })
}

#[test]
fn registry_insert_then_get() {
    let mut reg = JobRegistry::new();
    let job = move_job("foo:a/b.txt", "bar:x/b.txt");
    let id = job.uuid;
    reg.insert(job.clone());
    let held = reg.get(id).expect("job should be held after insert");
    assert_eq!(held.uuid, id);
    assert!(held.status == RcloneJobStatus::Ongoing);
    assert!(matches!(held.job_type, RcloneJobType::Move { .. }));
}

#[test]
fn registry_remove_then_get() {
    let mut reg = JobRegistry::new();
    let job = move_job("foo:a", "bar:b");
    let id = job.uuid;
    reg.insert(job);
    reg.remove(id);
    assert!(reg.get(id).is_none());
    assert_eq!(reg.iterate().len(), 0);
}

#[test]
fn registry_insert_same_id_replaces() {
    let mut reg = JobRegistry::new();
    let mut job = move_job("foo:a", "bar:b");
    let id = job.uuid;
    reg.insert(job.clone());
    job.status = RcloneJobStatus::Finished;
    reg.insert(job);
    assert_eq!(reg.iterate().len(), 1);
    assert!(reg.get(id).unwrap().status == RcloneJobStatus::Finished);
}

#[test]
fn registry_notifies_every_subscriber_once_per_mutation() {
    let mut reg = JobRegistry::new();
    reg.subscribe(7);
    reg.subscribe(9);
    let job = move_job("foo:a", "bar:b");
    let id = job.uuid;
    let mut rounds = Vec::new();
    rounds.push(reg.insert(job));
    rounds.push(reg.update_status(id, RcloneJobStatus::Finished).1);
    rounds.push(reg.remove(id));
    assert_eq!(rounds.len(), 3);
    for round in rounds {
        assert_eq!(round, vec![7, 9]);
    }
}

#[test]
fn registry_status_transition_scenario() {
    let mut reg = JobRegistry::new();
    let job = move_job("foo:a/b.txt", "bar:x/b.txt");
    let id = job.uuid;
    reg.insert(job);
    assert!(!has_failed_jobs(&reg));
    assert_eq!(get_ongoing_jobs(&reg).len(), 1);

    let (found, _) = reg.update_status(id, RcloneJobStatus::Failed(String::from("timeout")));
    assert!(found);

    let jobs = reg.iterate();
    assert_eq!(jobs.len(), 1);
    assert!(jobs[0].status == RcloneJobStatus::Failed(String::from("timeout")));
    assert!(has_failed_jobs(&reg));
    assert_eq!(get_ongoing_jobs(&reg).len(), 0);
}

#[test]
fn registry_clears_only_terminated_jobs() {
    let mut reg = JobRegistry::new();
    let ongoing = move_job("foo:a", "bar:b");
    let done = move_job("foo:c", "bar:d");
    let ongoing_id = ongoing.uuid;
    let done_id = done.uuid;
    reg.insert(ongoing);
    reg.insert(done);
    reg.update_status(done_id, RcloneJobStatus::Finished);
    clean_non_ongoing_jobs(&mut reg);
    assert_eq!(reg.iterate().len(), 1);
    assert!(reg.get(ongoing_id).is_some());
    assert!(reg.get(done_id).is_none());
}

#[test]
fn job_starts_ongoing_and_takes_one_transition() {
    let mut job = move_job("foo:a", "bar:b");
    assert!(job.status == RcloneJobStatus::Ongoing);
    job.set_status(RcloneJobStatus::Failed(String::from("boom")));
    assert!(job.status == RcloneJobStatus::Failed(String::from("boom")));
}

#[test]
fn job_descriptions_name_the_file_and_the_directory() {
    let mv = move_job("foo:a/b.txt", "bar:x/b.txt");
    assert_eq!(make_job_description(&mv), "Move b.txt to bar:x");

    let up = RcloneJob::new(RcloneJobType::Upload {
        local_path: RclonePath::from("/home/u/b.txt"),
        remote_path: RclonePath::from("remote:dir/b.txt"),
    });
    assert_eq!(make_job_description(&up), "Upload b.txt to remote:dir");

    let cp = RcloneJob::new(RcloneJobType::Copy {
        source_path: RclonePath::from("foo:a/b.txt"),
        target_path: RclonePath::from("bar:x/b.txt"),
    });
    assert_eq!(make_job_description(&cp), "Copy b.txt to bar:x");

    let rn = RcloneJob::new(RcloneJobType::Rename(RclonePath::from("foo:dir/new.txt")));
    assert_eq!(make_job_description(&rn), "Rename new.txt in foo:dir");

    let rm = RcloneJob::new(RcloneJobType::Delete(RclonePath::from("foo:dir/old.txt")));
    assert_eq!(make_job_description(&rm), "Delete old.txt from foo:dir");

    let op = RcloneJob::new(RcloneJobType::Open {
        remote_path: RclonePath::from("foo:dir/doc.pdf"),
        tmp_local_path: RclonePath::from("/tmp/doc.pdf"),
    });
    assert_eq!(make_job_description(&op), "Open doc.pdf from foo:dir");
}

#[test]
fn jobs_sort_newest_first() {
    let mut a = move_job("foo:a", "bar:a");
    let mut b = move_job("foo:b", "bar:b");
    let mut c = move_job("foo:c", "bar:c");
    a.started_at = 1;
    b.started_at = 3;
    c.started_at = 2;
    let sorted = sort_jobs_by_start_desc(&vec![a, b, c]);
    let stamps: Vec<i128> = sorted.iter().map(|j| j.started_at).collect();
    assert_eq!(stamps, vec![3, 2, 1]);
}

#[test]
fn job_ids_split_into_ongoing_and_terminated() {
    let ongoing = move_job("foo:a", "bar:a");
    let mut failed = move_job("foo:b", "bar:b");
    let mut finished = move_job("foo:c", "bar:c");
    failed.status = RcloneJobStatus::Failed(String::from("x"));
    finished.status = RcloneJobStatus::Finished;
    let (ongoing_id, failed_id, finished_id) = (ongoing.uuid, failed.uuid, finished.uuid);
    let (running, terminated) = split_job_ids(&vec![ongoing, failed, finished]);
    assert_eq!(running, vec![ongoing_id]);
    assert_eq!(terminated, vec![failed_id, finished_id]);
}

#[test]
fn navigation_round_trip_scenario() {
    let a = RclonePath::from("remote:a");
    let b = RclonePath::from("remote:b");
    let c = RclonePath::from("remote:c");
    let mut history = NavigationHistory::new();

    // navigate a -> b -> c
    history.push_current_and_clear_forward(a.clone());
    history.push_current_and_clear_forward(b.clone());
    let mut current = c.clone();

    // two undos return to a, with b then c as the redo targets
    let back_one = history.undo(&current).expect("one undo");
    assert_eq!(back_one, b);
    current = back_one;
    let back_two = history.undo(&current).expect("two undos");
    assert_eq!(back_two, a);
    current = back_two;
    assert!(!history.can_undo());

    // redos replay b then c in the original order
    let ahead_one = history.redo(&current).expect("one redo");
    assert_eq!(ahead_one, b);
    current = ahead_one;
    let ahead_two = history.redo(&current).expect("two redos");
    assert_eq!(ahead_two, c);
    assert!(!history.can_redo());
}

#[test]
fn undo_and_redo_on_empty_stacks_do_nothing() {
    let mut history = NavigationHistory::new();
    let here = RclonePath::from("remote:a");
    assert!(history.undo(&here).is_none());
    assert!(history.redo(&here).is_none());
    assert!(!history.can_undo());
    assert!(!history.can_redo());
}

#[test]
fn navigating_clears_redo_targets() {
    let mut history = NavigationHistory::new();
    history.push_current_and_clear_forward(RclonePath::from("remote:a"));
    let current = RclonePath::from("remote:b");
    history.undo(&current).expect("undo");
    assert!(history.can_redo());
    history.push_current_and_clear_forward(RclonePath::from("remote:a"));
    assert!(!history.can_redo());
}

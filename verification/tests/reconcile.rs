use gitrs::reconcile::{Action, Event, Reconciler};
use gitrs::report::{all_succeeded, none_kept, paths_with, FailureKind, Outcome, Record};
use gitrs::repo::Repo;
use gitrs::scan::{Entry, EntryKind, ScanError};
use std::collections::BTreeSet;

const ROOT: &str = "/root";

fn record(name: &str, pin: bool) -> Repo {
    Repo::new()
        .name(name.to_string())
        .expect("name failed")
        .pin(pin)
        .to_owned()
}

fn line(path: &str, outcome: Outcome) -> Record {
    Record {
        path: path.to_string(),
        outcome,
    }
}

fn disk(paths: &[&str]) -> BTreeSet<String> {
    paths.iter().map(|p| format!("{}/{}", ROOT, p)).collect()
}

fn walk(disk: &BTreeSet<String>) -> Vec<Entry> {
    disk.iter()
        .map(|p| Entry {
            path: p[ROOT.len() + 1..].to_string(),
            kind: EntryKind::Directory,
        })
        .collect()
}

/// Carries a run out on a set of paths that stands for the disk. A target in
/// `failing` fails when it is removed or cloned; one that ends in `.dirty`
/// holds local changes. Returns the report and the actions that were asked
/// for, without the questions.
fn drive(
    disk: &mut BTreeSet<String>,
    declared: &Vec<Repo>,
    clean_only: bool,
    failing: &[&str],
) -> (Vec<Record>, Vec<Action>) {
    let mut run = Reconciler::begin(ROOT, &walk(disk), declared, clean_only).expect("scan failed");
    let mut asked = Vec::new();
    let mut steps = 0;
    while !run.is_finished() {
        steps += 1;
        assert!(steps < 1000);
        let action = run.pending();
        match action {
            Action::Inspect { .. } | Action::Probe { .. } => {}
            _ => asked.push(action.clone()),
        }
        let event = match action {
            Action::Inspect { target } => {
                assert!(disk.contains(&target));
                if target.ends_with(".dirty") {
                    Event::Dirty
                } else {
                    Event::Clean
                }
            }
            Action::Remove { target } => {
                if failing.contains(&target.as_str()) {
                    Event::Failed(FailureKind::Removal)
                } else {
                    assert!(disk.remove(&target));
                    Event::Removed
                }
            }
            Action::Probe { target } => {
                if disk.contains(&target) {
                    Event::Present
                } else {
                    Event::Absent
                }
            }
            Action::Clone { url: _, target } => {
                if failing.contains(&target.as_str()) {
                    Event::Failed(FailureKind::Clone)
                } else {
                    assert!(disk.insert(target));
                    Event::Cloned
                }
            }
            Action::Finish => unreachable!(),
        };
        run = run.record(event);
    }
    assert_eq!(run.pending(), Action::Finish);
    (run.report(), asked)
}

#[test]
fn test_reconcile_clones_missing_then_second_run_is_noop() {
    let declared = vec![record("github.com/a/a", false)];
    let mut on_disk = disk(&[]);

    let (report, asked) = drive(&mut on_disk, &declared, false, &[]);
    assert_eq!(
        asked,
        vec![Action::Clone {
            url: "git@github.com:a/a.git".to_string(),
            target: "/root/github.com/a/a".to_string()
        }]
    );
    assert_eq!(report, vec![line("github.com/a/a", Outcome::Cloned)]);
    assert_eq!(on_disk, disk(&["github.com/a/a"]));

    let (report, asked) = drive(&mut on_disk, &declared, false, &[]);
    assert_eq!(asked, vec![]);
    assert_eq!(report, vec![]);
    assert_eq!(on_disk, disk(&["github.com/a/a"]));
}

#[test]
fn test_reconcile_deletes_undeclared() {
    let mut on_disk = disk(&["github.com/x/y"]);
    let (report, asked) = drive(&mut on_disk, &vec![], false, &[]);
    assert_eq!(
        asked,
        vec![Action::Remove {
            target: "/root/github.com/x/y".to_string()
        }]
    );
    assert_eq!(report, vec![line("github.com/x/y", Outcome::Removed)]);
    assert_eq!(on_disk, disk(&[]));
}

#[test]
fn test_reconcile_pinned_and_present_is_untouched() {
    let declared = vec![record("github.com/a/a", true)];
    let mut on_disk = disk(&["github.com/a/a"]);
    let (report, asked) = drive(&mut on_disk, &declared, false, &[]);
    assert_eq!(asked, vec![]);
    assert_eq!(report, vec![]);
    assert_eq!(on_disk, disk(&["github.com/a/a"]));
}

#[test]
fn test_reconcile_clean_only_never_clones() {
    let declared = vec![record("github.com/a/a", false), record("github.com/b/b", false)];
    let mut on_disk = disk(&["github.com/b/b", "github.com/x/y", "github.com/z/z"]);
    let (report, asked) = drive(&mut on_disk, &declared, true, &[]);
    assert_eq!(
        asked,
        vec![
            Action::Remove {
                target: "/root/github.com/x/y".to_string()
            },
            Action::Remove {
                target: "/root/github.com/z/z".to_string()
            },
        ]
    );
    assert_eq!(
        report,
        vec![
            line("github.com/x/y", Outcome::Removed),
            line("github.com/z/z", Outcome::Removed)
        ]
    );
    assert_eq!(on_disk, disk(&["github.com/b/b"]));
}

#[test]
fn test_reconcile_converges() {
    let declared = vec![
        record("github.com/a/a", false),
        record("github.com/b/b", true),
        record("gitlab.com/c/c", false),
    ];
    let mut on_disk = disk(&["github.com/b/b", "github.com/old/one", "example.org/old/two"]);
    let (report, _) = drive(&mut on_disk, &declared, false, &[]);
    assert!(all_succeeded(&report));
    assert!(none_kept(&report));
    assert_eq!(
        on_disk,
        disk(&["github.com/a/a", "github.com/b/b", "gitlab.com/c/c"])
    );
    assert_eq!(
        paths_with(&report, Outcome::Removed),
        vec!["example.org/old/two".to_string(), "github.com/old/one".to_string()]
    );
    assert_eq!(
        paths_with(&report, Outcome::Cloned),
        vec!["github.com/a/a".to_string(), "gitlab.com/c/c".to_string()]
    );
    assert_eq!(paths_with(&report, Outcome::Skipped), Vec::<String>::new());
}

#[test]
fn test_reconcile_is_idempotent() {
    let declared = vec![record("github.com/a/a", false), record("github.com/b/b", false)];
    for clean_only in [false, true] {
        let mut on_disk = disk(&["github.com/b/b", "github.com/x/y"]);
        let (first, _) = drive(&mut on_disk, &declared, clean_only, &[]);
        assert!(all_succeeded(&first));
        let after_first = on_disk.clone();
        let (second, asked) = drive(&mut on_disk, &declared, clean_only, &[]);
        assert_eq!(second, vec![]);
        assert_eq!(asked, vec![]);
        assert_eq!(on_disk, after_first);
    }
}

#[test]
fn test_reconcile_goes_on_after_a_failure() {
    let declared = vec![record("github.com/a/a", false), record("github.com/b/b", false)];
    let mut on_disk = disk(&["github.com/x/y", "github.com/z/z"]);
    let (report, _) = drive(
        &mut on_disk,
        &declared,
        false,
        &["/root/github.com/x/y", "/root/github.com/a/a"],
    );
    assert_eq!(
        report,
        vec![
            line("github.com/x/y", Outcome::Failed(FailureKind::Removal)),
            line("github.com/z/z", Outcome::Removed),
            line("github.com/a/a", Outcome::Failed(FailureKind::Clone)),
            line("github.com/b/b", Outcome::Cloned),
        ]
    );
    assert!(!all_succeeded(&report));
    assert_eq!(
        paths_with(&report, Outcome::Failed(FailureKind::Removal)),
        vec!["github.com/x/y".to_string()]
    );
    assert_eq!(
        paths_with(&report, Outcome::Failed(FailureKind::Clone)),
        vec!["github.com/a/a".to_string()]
    );
    assert_eq!(on_disk, disk(&["github.com/b/b", "github.com/x/y"]));
}

#[test]
fn test_reconcile_credential_failure_is_noted() {
    let declared = vec![record("github.com/a/a", false)];
    let run = Reconciler::new(ROOT, &vec![], &declared, false);
    let run = run.record(Event::Absent);
    assert_eq!(
        run.pending(),
        Action::Clone {
            url: "git@github.com:a/a.git".to_string(),
            target: "/root/github.com/a/a".to_string()
        }
    );
    let run = run.record(Event::Failed(FailureKind::Credential));
    assert!(run.is_finished());
    assert_eq!(
        run.report(),
        vec![line("github.com/a/a", Outcome::Failed(FailureKind::Credential))]
    );
}

#[test]
fn test_reconcile_existing_destination_is_skipped() {
    let declared = vec![record("github.com/a/a", false)];
    let run = Reconciler::new(ROOT, &vec![], &declared, false);
    assert_eq!(
        run.pending(),
        Action::Probe {
            target: "/root/github.com/a/a".to_string()
        }
    );
    let run = run.record(Event::Present);
    assert!(run.is_finished());
    let report = run.report();
    assert_eq!(report, vec![line("github.com/a/a", Outcome::Skipped)]);
    assert!(all_succeeded(&report));
}

#[test]
fn test_reconcile_ignores_events_that_do_not_answer() {
    let declared = vec![record("github.com/a/a", false)];
    let observed = vec!["github.com/x/y".to_string()];
    let mut run = Reconciler::new(ROOT, &observed, &declared, false);
    let inspect = Action::Inspect {
        target: "/root/github.com/x/y".to_string(),
    };
    for event in [
        Event::Removed,
        Event::Present,
        Event::Absent,
        Event::Cloned,
        Event::Failed(FailureKind::Clone),
        Event::Failed(FailureKind::Credential),
    ] {
        run = run.record(event);
        assert_eq!(run.pending(), inspect);
        assert_eq!(run.report(), vec![]);
    }
    run = run.record(Event::Clean);
    let remove = Action::Remove {
        target: "/root/github.com/x/y".to_string(),
    };
    for event in [
        Event::Clean,
        Event::Dirty,
        Event::Present,
        Event::Absent,
        Event::Cloned,
        Event::Failed(FailureKind::Clone),
        Event::Failed(FailureKind::Credential),
    ] {
        run = run.record(event);
        assert_eq!(run.pending(), remove);
        assert_eq!(run.report(), vec![]);
    }
    run = run.record(Event::Removed);
    let probe = Action::Probe {
        target: "/root/github.com/a/a".to_string(),
    };
    for event in [
        Event::Clean,
        Event::Dirty,
        Event::Removed,
        Event::Cloned,
        Event::Failed(FailureKind::Clone),
        Event::Failed(FailureKind::Removal),
    ] {
        run = run.record(event);
        assert_eq!(run.pending(), probe);
    }
    run = run.record(Event::Absent);
    let clone = Action::Clone {
        url: "git@github.com:a/a.git".to_string(),
        target: "/root/github.com/a/a".to_string(),
    };
    for event in [
        Event::Clean,
        Event::Dirty,
        Event::Removed,
        Event::Present,
        Event::Absent,
        Event::Failed(FailureKind::Removal),
    ] {
        run = run.record(event);
        assert_eq!(run.pending(), clone);
    }
    run = run.record(Event::Cloned);
    assert!(run.is_finished());
    for event in [Event::Removed, Event::Cloned, Event::Present, Event::Absent] {
        run = run.record(event);
        assert!(run.is_finished());
    }
    assert_eq!(
        run.report(),
        vec![
            line("github.com/x/y", Outcome::Removed),
            line("github.com/a/a", Outcome::Cloned)
        ]
    );
}

#[test]
fn test_reconcile_fails_when_the_scan_fails() {
    let walk = vec![
        Entry {
            path: "github.com/x/y".to_string(),
            kind: EntryKind::Directory,
        },
        Entry {
            path: "permission denied".to_string(),
            kind: EntryKind::Unreadable,
        },
    ];
    let got = Reconciler::begin(ROOT, &walk, &vec![], false);
    assert_eq!(
        got.err(),
        Some(ScanError {
            detail: "permission denied".to_string()
        })
    );
}

#[test]
fn test_reconcile_from_plan() {
    let plan = gitrs::plan::plan(
        &vec!["github.com/x/y".to_string()],
        &vec![record("github.com/a/a", false)],
        false,
    );
    let run = Reconciler::from_plan("/srv/", plan);
    assert_eq!(
        run.pending(),
        Action::Inspect {
            target: "/srv/github.com/x/y".to_string()
        }
    );
    assert!(!run.is_finished());
}

#[test]
fn test_reconcile_keeps_a_checkout_with_local_changes() {
    let declared = vec![record("github.com/a/a", false)];
    let mut on_disk = disk(&["github.com/x/y.dirty", "github.com/x/z"]);
    let (report, asked) = drive(&mut on_disk, &declared, false, &[]);
    assert_eq!(
        asked,
        vec![
            Action::Remove {
                target: "/root/github.com/x/z".to_string()
            },
            Action::Clone {
                url: "git@github.com:a/a.git".to_string(),
                target: "/root/github.com/a/a".to_string()
            },
        ]
    );
    assert_eq!(
        report,
        vec![
            line("github.com/x/y.dirty", Outcome::Kept),
            line("github.com/x/z", Outcome::Removed),
            line("github.com/a/a", Outcome::Cloned),
        ]
    );
    assert!(all_succeeded(&report));
    assert!(!none_kept(&report));
    assert_eq!(
        paths_with(&report, Outcome::Kept),
        vec!["github.com/x/y.dirty".to_string()]
    );
    assert_eq!(on_disk, disk(&["github.com/a/a", "github.com/x/y.dirty"]));
}

#[test]
fn test_reconcile_failed_inspection_fails_the_removal() {
    let observed = vec!["github.com/x/y".to_string()];
    let run = Reconciler::new(ROOT, &observed, &vec![], false);
    let run = run.record(Event::Failed(FailureKind::Removal));
    assert!(run.is_finished());
    assert_eq!(
        run.report(),
        vec![line("github.com/x/y", Outcome::Failed(FailureKind::Removal))]
    );
}

#[test]
fn test_reconcile_never_removes_unseen() {
    let observed = vec!["github.com/x/y".to_string(), "github.com/x/z".to_string()];
    let mut run = Reconciler::new(ROOT, &observed, &vec![], true);
    let mut last_clean: Option<String> = None;
    while !run.is_finished() {
        let event = match run.pending() {
            Action::Inspect { target } => {
                last_clean = Some(target);
                Event::Clean
            }
            Action::Remove { target } => {
                assert_eq!(last_clean.take(), Some(target));
                Event::Removed
            }
            other => panic!("unexpected action {:?}", other),
        };
        run = run.record(event);
    }
    assert_eq!(run.report().len(), 2);
}

#[test]
fn test_event_answers() {
    assert_eq!(Event::inspected(true, 0), Event::Clean);
    assert_eq!(Event::inspected(true, 1), Event::Dirty);
    assert_eq!(Event::inspected(true, usize::MAX), Event::Dirty);
    assert_eq!(Event::inspected(false, 0), Event::Clean);
    assert_eq!(Event::inspected(false, 3), Event::Clean);
    assert_eq!(Event::probed(true), Event::Present);
    assert_eq!(Event::probed(false), Event::Absent);
}

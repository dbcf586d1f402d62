use resha::digest::digest;
use resha::entry::{Action, Entry, Event, Phase, ReifyFail, ReifyResult, ReifySuccess, Step};
use resha::error::Error;

fn strings(items: &[&str]) -> Vec<String> {
    items.iter().map(|s| s.to_string()).collect()
}

fn entry(cmd: &str, required: &[&str], files: &[&str], sha: Option<&str>) -> Entry {
    Entry::new(
        Some("e".to_string()),
        cmd.to_string(),
        strings(required),
        strings(files),
        sha.map(|s| s.to_string()),
    )
}

fn finished(step: &Step) -> &Result<ReifyResult, Error> {
    assert_eq!(step.phase, Phase::Done);
    match &step.action {
        Action::Finish(r) => r,
        other => panic!("expected the end, got {:?}", other),
    }
}

#[test]
fn reify_runs_then_noop() {
    let e = entry("echo hi > out.txt", &[], &["out.txt"], None);
    let s = e.reify(Phase::Start, &Event::Begin);
    assert_eq!(s.phase, Phase::Gate);
    assert!(matches!(s.action, Action::Resolve));
    // out.txt does not exist yet: no digest was recorded, so the command runs
    let s = e.reify(s.phase, &Event::Resolved(vec![None], vec![]));
    assert_eq!(s.phase, Phase::Running);
    match &s.action {
        Action::Run(c) => {
            assert_eq!(c.script, "set -xe\necho hi > out.txt");
            assert_eq!(c.files, "out.txt");
            assert_eq!(c.required_files, "");
        }
        other => panic!("expected a run, got {:?}", other),
    }
    let s = e.reify(s.phase, &Event::Exited(0));
    assert_eq!(s.phase, Phase::Refreshing);
    let s = e.reify(s.phase, &Event::Resolved(vec![Some("/w/out.txt".to_string())], vec![]));
    assert_eq!(s.phase, Phase::Recording);
    match &s.action {
        Action::Read(paths) => assert_eq!(paths, &strings(&["/w/out.txt"])),
        other => panic!("expected a read, got {:?}", other),
    }
    let contents = vec![b"hi\n".to_vec()];
    let s = e.reify(s.phase, &Event::Read(contents.clone()));
    let d = match finished(&s) {
        Ok(Ok(ReifySuccess::ExecSuccess(d))) => d.clone(),
        other => panic!("expected a new digest, got {:?}", other),
    };
    assert_eq!(d, digest(&contents, "echo hi > out.txt"));
    assert_eq!(d.len(), 64);

    // second run: the digest now recorded still matches
    let e2 = entry("echo hi > out.txt", &[], &["out.txt"], Some(&d));
    let s = e2.reify(Phase::Start, &Event::Begin);
    let s = e2.reify(s.phase, &Event::Resolved(vec![Some("/w/out.txt".to_string())], vec![]));
    assert_eq!(s.phase, Phase::Comparing);
    let s = e2.reify(s.phase, &Event::Read(contents));
    assert!(matches!(finished(&s), Ok(Ok(ReifySuccess::Noop))));
}

#[test]
fn missing_required_files_stop_both_runs() {
    let e = entry("cat missing.txt", &["missing.txt"], &[], Some("abc"));
    for dry in [false, true] {
        let s = if dry { e.dry_run(Phase::Start, &Event::Begin) } else { e.reify(Phase::Start, &Event::Begin) };
        assert!(matches!(s.action, Action::Resolve));
        let ev = Event::Resolved(vec![], vec![None]);
        let s = if dry { e.dry_run(s.phase, &ev) } else { e.reify(s.phase, &ev) };
        assert!(matches!(finished(&s), Ok(Err(ReifyFail::MissingRequiredFiles))));
    }
}

#[test]
fn changed_file_makes_entry_stale() {
    let old = digest(&vec![b"one".to_vec()], "make");
    let e = entry("make", &["in.txt"], &[], Some(&old));
    let s = e.reify(Phase::Gate, &Event::Resolved(vec![], vec![Some("/w/in.txt".to_string())]));
    let s2 = e.reify(s.phase, &Event::Read(vec![b"two".to_vec()]));
    assert_eq!(s2.phase, Phase::Running);
    assert!(matches!(s2.action, Action::Run(_)));
    let same = e.reify(Phase::Comparing, &Event::Read(vec![b"one".to_vec()]));
    assert!(matches!(finished(&same), Ok(Ok(ReifySuccess::Noop))));
}

#[test]
fn dry_run_reports_stale_and_fresh() {
    let fresh = digest(&vec![b"x".to_vec()], "true");
    let e = entry("true", &[], &["a"], Some(&fresh));
    let s = e.dry_run(Phase::Comparing, &Event::Read(vec![b"x".to_vec()]));
    assert!(matches!(finished(&s), Ok(Ok(ReifySuccess::Noop))));
    let s = e.dry_run(Phase::Comparing, &Event::Read(vec![b"y".to_vec()]));
    assert!(matches!(finished(&s), Ok(Err(ReifyFail::DryFail))));
    let never = entry("true", &[], &["a"], None);
    let s = never.dry_run(Phase::Gate, &Event::Resolved(vec![None], vec![]));
    assert!(matches!(finished(&s), Ok(Err(ReifyFail::DryFail))));
}

#[test]
fn nonzero_exit_fails_with_its_code() {
    let e = entry("false", &[], &[], None);
    let s = e.reify(Phase::Running, &Event::Exited(3));
    assert!(matches!(finished(&s), Ok(Err(ReifyFail::ExecFail(3)))));
}

#[test]
fn unreadable_file_is_an_io_error() {
    let e = entry("true", &[], &[], Some("00"));
    let s = e.reify(Phase::Comparing, &Event::ReadFailed("denied".to_string()));
    match finished(&s) {
        Err(Error::Io(m)) => assert_eq!(m, "denied"),
        other => panic!("expected an I/O error, got {:?}", other),
    }
}

#[test]
fn phases_accept_only_their_events() {
    assert!(Phase::Start.accepts(&Event::Begin));
    assert!(!Phase::Start.accepts(&Event::Exited(0)));
    assert!(Phase::Running.accepts(&Event::Exited(0)));
    assert!(Phase::Comparing.accepts(&Event::ReadFailed(String::new())));
    assert!(!Phase::Done.accepts(&Event::Begin));
}

#[test]
fn command_joins_file_lists_with_newlines() {
    let e = entry("ls", &["a", "b"], &["c", "d", "e"], None);
    let c = e.command();
    assert_eq!(c.files, "c\nd\ne");
    assert_eq!(c.required_files, "a\nb");
    assert_eq!(c.script, "set -xe\nls");
}

#[test]
fn all_files_sorts_and_drops_repeats() {
    let e = entry("x", &["b", "a"], &["c", "missing", "a2"], None);
    let files = vec![Some("/p/c".to_string()), None, Some("/p/a".to_string())];
    let required = vec![Some("/p/b".to_string()), Some("/p/a".to_string())];
    assert_eq!(e.all_files(&files, &required), strings(&["/p/a", "/p/b", "/p/c"]));
    let reordered = vec![Some("/p/a".to_string()), Some("/p/b".to_string())];
    let others = vec![Some("/p/c".to_string())];
    assert_eq!(e.all_files(&others, &reordered), e.all_files(&files, &required));
}

#[test]
fn check_then_compares_recorded_digest() {
    let e = entry("x", &[], &[], Some("abc"));
    assert!(e.check_then(&"abc".to_string()));
    assert!(!e.check_then(&"abd".to_string()));
    let none = entry("x", &[], &[], None);
    assert!(!none.check_then(&"abc".to_string()));
}

#[test]
fn name_gives_label() {
    assert_eq!(entry("x", &[], &[], None).name(), &Some("e".to_string()));
    let unnamed = Entry::new(None, "x".to_string(), vec![], vec![], None);
    assert_eq!(unnamed.name(), &None);
}

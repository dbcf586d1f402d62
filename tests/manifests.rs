use resha::doc::{as_text, get, parse_entries, parse_manifest, str_vec, Value};
use resha::entry::{Entry, ReifyFail, ReifySuccess};
use resha::error::Error;
use resha::manifest::{decimal, header, Listing, Policy, ReifyStatus};
use resha::text::{join_with_newlines, lines};
use strict_yaml_rust::{StrictYaml, StrictYamlLoader};

fn to_value(y: &StrictYaml) -> Value {
    match y {
        StrictYaml::String(s) => Value::Str(s.clone()),
        StrictYaml::Array(items) => Value::List(items.iter().map(to_value).collect()),
        StrictYaml::Hash(h) => Value::Hash(h.iter().map(|(k, v)| (to_value(k), to_value(v))).collect()),
        StrictYaml::BadValue => Value::Other,
    }
}

fn load(text: &str) -> Result<Vec<Entry>, Error> {
    let docs = StrictYamlLoader::load_from_str(text).unwrap();
    parse_manifest(&docs.iter().map(to_value).collect())
}

fn named(name: &str, sha: Option<&str>) -> Entry {
    Entry::new(
        Some(name.to_string()),
        format!("make {name}"),
        vec![],
        vec![format!("{name}.out")],
        sha.map(|s| s.to_string()),
    )
}

fn dumped(e: &Entry, new_sha: Option<String>) -> String {
    let mut out = String::new();
    e.dump(&mut out, new_sha);
    out
}

#[test]
fn dump_writes_the_manifest_block() {
    let e = Entry::new(
        Some("gen".to_string()),
        "echo a\necho b\n".to_string(),
        vec!["in.txt".to_string()],
        vec!["out.txt".to_string(), "log.txt".to_string()],
        Some("00ff".to_string()),
    );
    assert_eq!(
        dumped(&e, None),
        "-\n  name: gen\n  cmd: |\n    echo a\n    echo b\n  required_files:\n  - in.txt\n  files:\n  - out.txt\n  - log.txt\n  digest: 00ff\n"
    );
    assert_eq!(
        dumped(&e, Some("abcd".to_string())),
        "-\n  name: gen\n  cmd: |\n    echo a\n    echo b\n  required_files:\n  - in.txt\n  files:\n  - out.txt\n  - log.txt\n  digest: abcd\n"
    );
    let bare = Entry::new(None, "true".to_string(), vec![], vec![], None);
    assert_eq!(dumped(&bare, None), "-\n  cmd: |\n    true\n");
}

#[test]
fn dump_then_parse_round_trips() {
    let e = Entry::new(
        Some("gen".to_string()),
        "echo a > out.txt\ncat in.txt >> out.txt".to_string(),
        vec!["in.txt".to_string()],
        vec!["out.txt".to_string()],
        Some("0123abcd".to_string()),
    );
    let text = dumped(&e, None);
    let parsed = load(&text).unwrap();
    assert_eq!(parsed.len(), 1);
    assert_eq!(dumped(&parsed[0], None), text);
    assert_eq!(parsed[0].sha, Some("0123abcd".to_string()));
}

#[test]
fn parse_reads_fields_and_coerces_lists() {
    let es = load("- cmd: make\n  files: one.txt\n  required_files:\n  - a\n  - b\n- name: second\n  cmd: |\n    x\n    y\n  digest: ff\n").unwrap();
    assert_eq!(es.len(), 2);
    assert_eq!(es[0].cmd, "make");
    assert_eq!(es[0].files, vec!["one.txt".to_string()]);
    assert_eq!(es[0].required_files, vec!["a".to_string(), "b".to_string()]);
    assert_eq!(es[0].name, None);
    assert_eq!(es[0].sha, None);
    assert_eq!(es[1].name, Some("second".to_string()));
    assert_eq!(es[1].cmd, "x\ny\n");
    assert_eq!(es[1].sha, Some("ff".to_string()));
    assert!(es[1].files.is_empty());
}

#[test]
fn parse_errors() {
    assert!(matches!(load("- name: x\n"), Err(Error::MissingCmd)));
    assert!(matches!(load("cmd: x\n"), Err(Error::ManifestMalformed)));
    assert!(matches!(parse_manifest(&vec![]), Err(Error::ManifestMalformed)));
    assert!(matches!(parse_entries(&Value::Other), Err(Error::ManifestMalformed)));
    assert!(matches!(parse_entries(&Value::List(vec![Value::Str("x".to_string())])), Err(Error::MissingCmd)));
}

#[test]
fn field_lookup_and_list_coercion() {
    let node = Value::Hash(vec![
        (Value::Str("files".to_string()), Value::List(vec![
            Value::Str("a".to_string()),
            Value::List(vec![]),
            Value::Str("b".to_string()),
        ])),
        (Value::Str("name".to_string()), Value::Str("n".to_string())),
        (Value::Str("name".to_string()), Value::Str("second".to_string())),
    ]);
    assert_eq!(str_vec(get(&node, "files")), vec!["a".to_string(), "b".to_string()]);
    assert_eq!(as_text(get(&node, "name")), Some("n".to_string()));
    assert!(get(&node, "cmd").is_none());
    assert_eq!(str_vec(get(&node, "name")), vec!["n".to_string()]);
    assert!(str_vec(None).is_empty());
}

#[test]
fn fail_fast_skips_rest_of_manifest() {
    let policy = Policy { fail_fast: true, dry_run: false };
    let entries = [named("one", Some("d1")), named("two", Some("d2")), named("three", Some("d3"))];
    let mut status = ReifyStatus::new();
    let mut lines_out = Vec::new();

    assert!(!status.skips(&policy));
    lines_out.push(status.record(&entries[0], 1, &policy, Ok(ReifySuccess::Noop)).line);
    assert!(!status.skips(&policy));
    lines_out.push(status.record(&entries[1], 2, &policy, Err(ReifyFail::ExecFail(2))).line);
    assert!(status.skips(&policy));
    lines_out.push(status.skip(&entries[2], 3, &policy).line);

    assert_eq!(lines_out, vec![
        "ok 1 - one  # noop".to_string(),
        "not ok 2 - two  # non-zero exit code".to_string(),
        "ok 3 - three  # SKIP (fail fast)".to_string(),
    ]);
    assert!(!status.success);
    assert!(!status.updated);
    let want: String = entries.iter().map(|e| dumped(e, None)).collect();
    assert_eq!(status.output, want);
    assert!(status.output.contains("digest: d1\n"));
    assert!(status.output.contains("digest: d2\n"));
    assert!(status.output.contains("digest: d3\n"));
}

#[test]
fn failed_run_keeps_digest() {
    let policy = Policy { fail_fast: false, dry_run: false };
    let e = named("x", Some("old"));
    let mut status = ReifyStatus::new();
    let rep = status.record(&e, 1, &policy, Err(ReifyFail::ExecFail(1)));
    assert!(!rep.reified);
    assert_eq!(status.output, dumped(&e, None));
    assert!(status.output.ends_with("  digest: old\n"));
    assert!(!status.needs_write(&policy));
}

#[test]
fn success_records_new_digest_and_asks_for_rewrite() {
    let policy = Policy { fail_fast: false, dry_run: false };
    let e = named("x", Some("old"));
    let mut status = ReifyStatus::new();
    let rep = status.record(&e, 12, &policy, Ok(ReifySuccess::ExecSuccess("new".to_string())));
    assert_eq!(rep.line, "ok 12 - x");
    assert!(rep.reified);
    assert!(status.output.ends_with("  digest: new\n"));
    assert!(status.success && status.updated);
    assert!(status.needs_write(&policy));
}

#[test]
fn without_fail_fast_later_entries_run() {
    let policy = Policy { fail_fast: false, dry_run: false };
    let mut status = ReifyStatus::new();
    status.record(&named("a", None), 1, &policy, Err(ReifyFail::MissingRequiredFiles));
    assert!(!status.skips(&policy));
    let rep = status.record(&named("b", None), 2, &policy, Ok(ReifySuccess::Noop));
    assert_eq!(rep.line, "ok 2 - b  # noop");
    assert!(!status.success);
}

#[test]
fn dry_run_writes_nothing() {
    let policy = Policy { fail_fast: true, dry_run: true };
    let mut status = ReifyStatus::new();
    let rep = status.record(&named("a", None), 1, &policy, Ok(ReifySuccess::Noop));
    assert_eq!(rep.line, "ok 1 - a  # dry run");
    let rep = status.record(&named("b", None), 2, &policy, Err(ReifyFail::DryFail));
    assert_eq!(rep.line, "not ok 2 - b  # dry run, things have changed");
    let rep = status.skip(&named("c", None), 3, &policy);
    assert_eq!(rep.line, "ok 3 - c  # SKIP (fail fast)");
    assert_eq!(status.output, "");
    assert!(status.updated && !status.success);
    assert!(!status.needs_write(&policy));
}

#[test]
fn unnamed_entries_get_a_placeholder() {
    let policy = Policy { fail_fast: false, dry_run: false };
    let e = Entry::new(None, "true".to_string(), vec![], vec![], None);
    let mut status = ReifyStatus::new();
    let rep = status.record(&e, 1, &policy, Err(ReifyFail::MissingRequiredFiles));
    assert_eq!(rep.line, "not ok 1 - <unnamed>  # missing required files");
}

#[test]
fn header_and_numbers() {
    assert_eq!(header(3, "dir/.resha.yml"), "1..3  # manifest dir/.resha.yml");
    assert_eq!(decimal(0), "0");
    assert_eq!(decimal(10), "10");
    assert_eq!(decimal(907), "907");
}

#[test]
fn text_helpers() {
    assert_eq!(lines("a\r\nb\n\nc"), vec!["a", "b", "", "c"]);
    assert_eq!(lines("a\n"), vec!["a"]);
    assert!(lines("").is_empty());
    assert_eq!(join_with_newlines(&vec!["x".to_string(), "y".to_string()]), "x\ny");
    assert_eq!(join_with_newlines(&vec![]), "");
}

#[test]
fn listing_flags() {
    let none = Listing { inputs: false, manifests: false, only_reified: false };
    assert!(none.shows_progress());
    assert!(!none.shows_inputs(true));
    let inputs = Listing { inputs: true, manifests: false, only_reified: true };
    assert!(!inputs.shows_progress());
    assert!(inputs.shows_inputs(true));
    assert!(!inputs.shows_inputs(false));
    let manifests = Listing { inputs: false, manifests: true, only_reified: false };
    assert!(manifests.shows_manifest(false));
}

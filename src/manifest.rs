//! Running the entries of one manifest in order, under the fail-fast and
//! dry-run policies: which entries are skipped, the progress line of each,
//! whether the run succeeded, and the manifest text to write back.
use vstd::prelude::*;
use crate::entry::{block_of, digest_to_record, Entry, ReifyFail, ReifyResult, ReifySuccess};

verus! {

/// How a manifest is run.
#[derive(Debug, Clone, Copy)]
pub struct Policy {
    /// After the first failed entry, skip the rest.
    pub fail_fast: bool,
    /// Only check each entry; run nothing, record nothing.
    pub dry_run: bool,
}

/// What is printed besides the commands' output.
#[derive(Debug, Clone, Copy)]
pub struct Listing {
    /// List the hashed paths of entries instead of progress lines.
    pub inputs: bool,
    /// List manifest paths instead of progress lines.
    pub manifests: bool,
    /// List only what was reified (or updated).
    pub only_reified: bool,
}

impl Listing {
    /// Progress lines are printed when no listing is asked for.
    pub fn shows_progress(&self) -> (r: bool)
        ensures
            r == (!self.inputs && !self.manifests),
    {
        !self.inputs && !self.manifests
    }

    /// Whether the hashed paths of an entry are listed.
    pub fn shows_inputs(&self, reified: bool) -> (r: bool)
        ensures
            r == (self.inputs && (!self.only_reified || reified)),
    {
        self.inputs && (!self.only_reified || reified)
    }

    /// Whether the path of a manifest is listed.
    pub fn shows_manifest(&self, updated: bool) -> (r: bool)
        ensures
            r == (self.manifests && (!self.only_reified || updated)),
    {
        self.manifests && (!self.only_reified || updated)
    }
}

/// What the run of a manifest has produced so far.
#[derive(Debug)]
pub struct ReifyStatus {
    /// The manifest text: the blocks of the entries recorded so far.
    pub output: String,
    /// No entry has failed.
    pub success: bool,
    /// Some entry got a new digest (or, in a dry run, would get one).
    pub updated: bool,
}

/// What is reported of one entry.
#[derive(Debug)]
pub struct Report {
    /// The progress line: `ok` or `not ok`, the index, the name, a comment.
    pub line: String,
    /// The entry was run and recorded a new digest (or, in a dry run, was
    /// found fresh).
    pub reified: bool,
}

/// The decimal digits of `n`.
pub open spec fn decimal_of(n: nat) -> Seq<char>
    decreases n,
{
    if n < 10 {
        seq!["0123456789"@[n as int]]
    } else {
        decimal_of(n / 10) + seq!["0123456789"@[(n % 10) as int]]
    }
}

/// Writes `n` in decimal.
pub fn decimal(n: usize) -> (r: String)
    ensures
        r@ == decimal_of(n as nat),
    decreases n,
{
    let digits = "0123456789";
    proof {
        reveal_strlit("0123456789");
    }
    let d: usize = n % 10;
    let last = digits.substring_char(d, d + 1);
    if n < 10 {
        proof {
            assert(last@ =~= seq!["0123456789"@[n as int]]);
        }
        String::from_str(last)
    } else {
        let r = decimal(n / 10).concat(last);
        proof {
            assert(last@ =~= seq!["0123456789"@[(n % 10) as int]]);
        }
        r
    }
}

/// The label of an entry in reports.
pub open spec fn label_of(e: Entry) -> Seq<char> {
    match e.name {
        Some(n) => n@,
        None => "<unnamed>"@,
    }
}

/// The progress line of entry number `index`: `ok` or `not ok`, the index,
/// the label, and the comment after `#`, if any.
pub open spec fn tap_line(ok: bool, index: nat, label: Seq<char>, comment: Option<Seq<char>>) -> Seq<
    char,
> {
    (if ok {
        "ok "@
    } else {
        "not ok "@
    }) + decimal_of(index) + " - "@ + label + match comment {
        Some(c) => "  # "@ + c,
        None => seq![],
    }
}

/// The text that reports a failure.
pub open spec fn fail_message(f: ReifyFail) -> Seq<char> {
    match f {
        ReifyFail::ExecFail(_) => "non-zero exit code"@,
        ReifyFail::MissingRequiredFiles => "missing required files"@,
        ReifyFail::DryFail => "dry run, things have changed"@,
    }
}

/// The header line of a manifest with `count` entries.
pub open spec fn header_of(count: nat, path: Seq<char>) -> Seq<char> {
    "1.."@ + decimal_of(count) + "  # manifest "@ + path
}

impl ReifyFail {
    /// The text that reports this failure.
    pub fn message(&self) -> (r: &'static str)
        ensures
            r@ == fail_message(*self),
    {
        match self {
            ReifyFail::ExecFail(_) => "non-zero exit code",
            ReifyFail::MissingRequiredFiles => "missing required files",
            ReifyFail::DryFail => "dry run, things have changed",
        }
    }
}

/// The header line of a manifest with `count` entries, found at `path`.
pub fn header(count: usize, path: &str) -> (r: String)
    ensures
        r@ == header_of(count as nat, path@),
{
    let r = String::from_str("1..").concat(decimal(count).as_str()).concat("  # manifest ").concat(
        path,
    );
    r
}

/// Writes a progress line.
fn tap(ok: bool, index: usize, e: &Entry, comment: Option<&str>) -> (r: String)
    ensures
        r@ == tap_line(ok, index as nat, label_of(*e), match comment {
            Some(c) => Some(c@),
            None => None,
        }),
{
    let start = if ok {
        "ok "
    } else {
        "not ok "
    };
    let label = match &e.name {
        Some(n) => n.as_str(),
        None => "<unnamed>",
    };
    let r = String::from_str(start).concat(decimal(index).as_str()).concat(" - ").concat(label);
    match comment {
        Some(c) => r.concat("  # ").concat(c),
        None => r,
    }
}

/// `after` and `rep` are what recording `e`, entry number `index`, with
/// `outcome`, makes of `before`.
pub open spec fn records(
    before: ReifyStatus,
    e: Entry,
    index: nat,
    policy: Policy,
    outcome: ReifyResult,
    after: ReifyStatus,
    rep: Report,
) -> bool {
    if policy.dry_run {
        &&& after.output@ == before.output@
        &&& match outcome {
            Ok(_) => {
                &&& after.success == before.success
                &&& after.updated == before.updated
                &&& rep.line@ == tap_line(true, index, label_of(e), Some("dry run"@))
                &&& rep.reified
            },
            Err(f) => {
                &&& !after.success
                &&& after.updated == (before.updated || f == ReifyFail::DryFail)
                &&& rep.line@ == tap_line(false, index, label_of(e), Some(fail_message(f)))
                &&& !rep.reified
            },
        }
    } else {
        match outcome {
            Ok(ReifySuccess::ExecSuccess(d)) => {
                &&& after.output@ == before.output@ + block_of(e, Some(d))
                &&& after.success == before.success
                &&& after.updated
                &&& rep.line@ == tap_line(true, index, label_of(e), None)
                &&& rep.reified
            },
            Ok(ReifySuccess::Noop) => {
                &&& after.output@ == before.output@ + block_of(e, None)
                &&& after.success == before.success
                &&& after.updated == before.updated
                &&& rep.line@ == tap_line(true, index, label_of(e), Some("noop"@))
                &&& !rep.reified
            },
            Err(f) => {
                &&& after.output@ == before.output@ + block_of(e, None)
                &&& !after.success
                &&& after.updated == before.updated
                &&& rep.line@ == tap_line(false, index, label_of(e), Some(fail_message(f)))
                &&& !rep.reified
            },
        }
    }
}

/// `after` and `rep` are what skipping `e`, entry number `index`, makes of
/// `before`: it is kept as it was, with the digest it had.
pub open spec fn skips_entry(
    before: ReifyStatus,
    e: Entry,
    index: nat,
    policy: Policy,
    after: ReifyStatus,
    rep: Report,
) -> bool {
    &&& after.output@ == before.output@ + (if policy.dry_run {
        seq![]
    } else {
        block_of(e, None)
    })
    &&& after.success == before.success
    &&& after.updated == before.updated
    &&& rep.line@ == tap_line(true, index, label_of(e), Some("SKIP (fail fast)"@))
    &&& !rep.reified
}

/// Under `policy`, the next entry is skipped.
pub open spec fn skipping(status: ReifyStatus, policy: Policy) -> bool {
    policy.fail_fast && !status.success
}

/// When a command fails, the entry is written back with the digest it
/// had before: a failed run records nothing.
pub proof fn lemma_failed_run_keeps_digest(
    before: ReifyStatus,
    e: Entry,
    index: nat,
    policy: Policy,
    code: i32,
    after: ReifyStatus,
    rep: Report,
)
    requires
        !policy.dry_run,
        records(before, e, index, policy, Err(ReifyFail::ExecFail(code)), after, rep),
    ensures
        after.output@ == before.output@ + block_of(e, None),
        digest_to_record(e, None) == match e.sha {
            Some(s) => Some(s@),
            None => None,
        },
        !after.success,
{
}

/// Under fail-fast, once an entry has failed every later entry is skipped:
/// a failure makes the next entry skipped, and a skipped entry leaves the
/// next one skipped too. A skipped entry is written back with the digest it
/// had before (nothing in a dry run), whatever its files hold.
pub proof fn lemma_fail_fast_skips_rest(
    s0: ReifyStatus,
    e: Entry,
    index: nat,
    policy: Policy,
    outcome: ReifyResult,
    s1: ReifyStatus,
    rep: Report,
    later: Entry,
    later_index: nat,
    s2: ReifyStatus,
    later_rep: Report,
)
    requires
        policy.fail_fast,
        outcome is Err,
        records(s0, e, index, policy, outcome, s1, rep),
        skips_entry(s1, later, later_index, policy, s2, later_rep),
    ensures
        skipping(s1, policy),
        skipping(s2, policy),
        !policy.dry_run ==> s2.output@ == s1.output@ + block_of(later, None),
        digest_to_record(later, None) == match later.sha {
            Some(s) => Some(s@),
            None => None,
        },
{
}

impl ReifyStatus {
    /// The state before the first entry.
    pub fn new() -> (r: ReifyStatus)
        ensures
            r.output@ == Seq::<char>::empty(),
            r.success,
            !r.updated,
    {
        ReifyStatus { output: String::new(), success: true, updated: false }
    }

    /// Whether the next entry is skipped: fail-fast is on and an entry has
    /// failed.
    pub fn skips(&self, policy: &Policy) -> (r: bool)
        ensures
            r == skipping(*self, *policy),
    {
        policy.fail_fast && !self.success
    }

    /// Skips entry number `index`: it is written back unchanged (nothing is
    /// written in a dry run) and reported as skipped.
    pub fn skip(&mut self, e: &Entry, index: usize, policy: &Policy) -> (rep: Report)
        ensures
            skips_entry(*old(self), *e, index as nat, *policy, *final(self), rep),
    {
        if !policy.dry_run {
            e.dump(&mut self.output, None);
        } else {
            proof {
                assert(self.output@ =~= self.output@ + Seq::<char>::empty());
            }
        }
        Report { line: tap(true, index, e, Some("SKIP (fail fast)")), reified: false }
    }

    /// Records entry number `index` with what came of it. A run that
    /// succeeded writes the entry with its new digest; any other outcome
    /// writes it with the digest it had. A failure clears `success`. In a
    /// dry run nothing is written, and a stale entry sets `updated`.
    pub fn record(&mut self, e: &Entry, index: usize, policy: &Policy, outcome: ReifyResult) -> (rep:
        Report)
        ensures
            records(*old(self), *e, index as nat, *policy, outcome, *final(self), rep),
    {
        if policy.dry_run {
            match outcome {
                Ok(_) => Report { line: tap(true, index, e, Some("dry run")), reified: true },
                Err(f) => {
                    self.success = false;
                    if f == ReifyFail::DryFail {
                        self.updated = true;
                    }
                    Report { line: tap(false, index, e, Some(f.message())), reified: false }
                },
            }
        } else {
            match outcome {
                Ok(ReifySuccess::ExecSuccess(d)) => {
                    self.updated = true;
                    e.dump(&mut self.output, Some(d));
                    Report { line: tap(true, index, e, None), reified: true }
                },
                Ok(ReifySuccess::Noop) => {
                    e.dump(&mut self.output, None);
                    Report { line: tap(true, index, e, Some("noop")), reified: false }
                },
                Err(f) => {
                    self.success = false;
                    e.dump(&mut self.output, None);
                    Report { line: tap(false, index, e, Some(f.message())), reified: false }
                },
            }
        }
    }

    /// Whether the manifest file is to be rewritten with `output`: some
    /// entry got a new digest, and this is no dry run.
    pub fn needs_write(&self, policy: &Policy) -> (r: bool)
        ensures
            r == (self.updated && !policy.dry_run),
    {
        self.updated && !policy.dry_run
    }
}

} // verus!

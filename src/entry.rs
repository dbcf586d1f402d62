//! One manifest entry and the decisions that bring it up to date: the
//! required-files gate, the comparison of digests, running the command and
//! recording the new digest.
//!
//! Whatever touches the system (resolving paths, reading files, running the
//! shell) is done by the caller. The entry tells it what to do next as an
//! `Action`, and takes back what came of it as an `Event`.
use vstd::prelude::*;
use crate::digest::{buffers, digest, digest_of};
use crate::error::Error;
use crate::order::{lemma_sorted_union_ignores_order, resolves_to, sorted_paths, sorted_union, views};
use crate::text::{join_lines, join_with_newlines, lines, lines_of, str_views};

verus! {

/// How an entry that did not fail was brought up to date.
#[derive(Debug)]
pub enum ReifySuccess {
    /// The command ran and succeeded; the digest of the entry afterwards.
    ExecSuccess(String),
    /// The recorded digest still matched: nothing ran.
    Noop,
}

/// Why an entry was not brought up to date.
#[derive(Debug, Clone, Copy, PartialEq, Eq, Structural)]
pub enum ReifyFail {
    /// The command exited with this non-zero code.
    ExecFail(i32),
    /// A required file does not exist.
    MissingRequiredFiles,
    /// A dry run found the entry stale: it would run.
    DryFail,
}

pub type ReifyResult = Result<ReifySuccess, ReifyFail>;

/// One manifest record: a shell command, the files it reads and writes, and
/// the digest recorded when it last ran.
#[derive(Debug)]
pub struct Entry {
    /// A label for reports.
    pub name: Option<String>,
    /// The shell command.
    pub cmd: String,
    /// Paths that must exist before anything is hashed or run.
    pub required_files: Vec<String>,
    /// Paths that may be absent (outputs not yet made).
    pub files: Vec<String>,
    /// The digest recorded by the last successful run, if any.
    pub sha: Option<String>,
}

/// Where an entry's reification stands.
#[derive(Debug, Clone, Copy, PartialEq, Eq, Structural)]
pub enum Phase {
    /// Nothing done yet.
    Start,
    /// Waiting for the resolution of the entry's paths, to check the
    /// required files.
    Gate,
    /// Waiting for the file contents, to compare digests.
    Comparing,
    /// Waiting for the command's exit code.
    Running,
    /// Waiting for the resolution of the entry's paths after a successful run.
    Refreshing,
    /// Waiting for the file contents after a successful run.
    Recording,
    /// The outcome has been given.
    Done,
}

/// What a shell is handed to run an entry's command.
#[derive(Debug)]
pub struct Command {
    /// The script: trace and exit-on-error options, then the command.
    pub script: String,
    /// The value of the `files` variable: the entry's files, one per line.
    pub files: String,
    /// The value of the `required_files` variable, one per line.
    pub required_files: String,
}

/// What the caller is to do next.
#[derive(Debug)]
pub enum Action {
    /// Resolve each of the entry's `files` and `required_files` to a
    /// canonical absolute path, and report `Event::Resolved`.
    Resolve,
    /// Read these files whole, in this order, and report `Event::Read`, or
    /// `Event::ReadFailed` if one cannot be read.
    Read(Vec<String>),
    /// Run the command, streaming its output, and report `Event::Exited`.
    Run(Command),
    /// Stop: this is the outcome.
    Finish(Result<ReifyResult, Error>),
}

/// What came of the last action.
#[derive(Debug)]
pub enum Event {
    /// The operation starts.
    Begin,
    /// The resolution of each of `files` and of `required_files`, in order:
    /// `None` where a path does not resolve.
    Resolved(Vec<Option<String>>, Vec<Option<String>>),
    /// The contents of the files asked for, in the order asked.
    Read(Vec<Vec<u8>>),
    /// A file could not be read; the system's message.
    ReadFailed(String),
    /// The command exited with this code.
    Exited(i32),
}

/// The next phase, and what to do to get there.
#[derive(Debug)]
pub struct Step {
    pub phase: Phase,
    pub action: Action,
}

/// The events that each phase waits for.
pub open spec fn phase_accepts(phase: Phase, ev: Event) -> bool {
    match phase {
        Phase::Start => ev is Begin,
        Phase::Gate | Phase::Refreshing => ev is Resolved,
        Phase::Comparing | Phase::Recording => ev is Read || ev is ReadFailed,
        Phase::Running => ev is Exited,
        Phase::Done => false,
    }
}

/// Every path of the list resolved.
pub open spec fn all_resolved(q: Seq<Option<String>>) -> bool {
    forall|i: int| 0 <= i < q.len() ==> (#[trigger] q[i]) is Some
}

/// `set -xe` and a newline: trace each statement, stop at the first failure.
pub open spec fn script_prefix() -> Seq<char> {
    seq!['s', 'e', 't', ' ', '-', 'x', 'e', '\n']
}

/// `c` is what a shell is handed to run `e`.
pub open spec fn command_of(e: Entry, c: Command) -> bool {
    &&& c.script@ == script_prefix() + e.cmd@
    &&& c.files@ == join_lines(views(e.files@))
    &&& c.required_files@ == join_lines(views(e.required_files@))
}

/// The action finishes with the entry-level failure `f`.
pub open spec fn finishes_failed(a: Action, f: ReifyFail) -> bool {
    match a {
        Action::Finish(Ok(Err(g))) => g == f,
        _ => false,
    }
}

/// The action finishes with `Noop`.
pub open spec fn finishes_noop(a: Action) -> bool {
    match a {
        Action::Finish(Ok(Ok(ReifySuccess::Noop))) => true,
        _ => false,
    }
}

/// The action finishes with `ExecSuccess`, recording the digest `d`.
pub open spec fn finishes_recorded(a: Action, d: Seq<char>) -> bool {
    match a {
        Action::Finish(Ok(Ok(ReifySuccess::ExecSuccess(s)))) => s@ == d,
        _ => false,
    }
}

/// The action finishes with an I/O error carrying the message `m`.
pub open spec fn finishes_io(a: Action, m: Seq<char>) -> bool {
    match a {
        Action::Finish(Err(Error::Io(s))) => s@ == m,
        _ => false,
    }
}

/// The action asks for the contents of the paths `p`, in that order.
pub open spec fn reads(a: Action, p: Seq<Seq<char>>) -> bool {
    match a {
        Action::Read(v) => views(v@) == p,
        _ => false,
    }
}

/// The action runs `e`'s command.
pub open spec fn runs(e: Entry, a: Action) -> bool {
    match a {
        Action::Run(c) => command_of(e, c),
        _ => false,
    }
}

/// The recorded digest of `e` is `d`.
pub open spec fn recorded(e: Entry, d: Seq<char>) -> bool {
    e.sha is Some && e.sha->Some_0@ == d
}

/// What follows once `e` is found stale: a dry run stops and says so, a
/// real one runs the command.
pub open spec fn on_stale(e: Entry, dry: bool, r: Step) -> bool {
    if dry {
        r.phase == Phase::Done && finishes_failed(r.action, ReifyFail::DryFail)
    } else {
        r.phase == Phase::Running && runs(e, r.action)
    }
}

/// One transition of the reification of `e` (a dry run when `dry`): from
/// `phase`, on `ev`, to `r`.
pub open spec fn reify_step(e: Entry, dry: bool, phase: Phase, ev: Event, r: Step) -> bool {
    match phase {
        Phase::Start => r.phase == Phase::Gate && r.action is Resolve,
        Phase::Gate => match ev {
            Event::Resolved(f, q) => if !all_resolved(q@) {
                r.phase == Phase::Done && finishes_failed(
                    r.action,
                    ReifyFail::MissingRequiredFiles,
                )
            } else if e.sha is None {
                on_stale(e, dry, r)
            } else {
                r.phase == Phase::Comparing && reads(r.action, sorted_union(f@, q@))
            },
            _ => false,
        },
        Phase::Comparing => match ev {
            Event::Read(c) => if recorded(e, digest_of(buffers(c@), e.cmd@)) {
                r.phase == Phase::Done && finishes_noop(r.action)
            } else {
                on_stale(e, dry, r)
            },
            Event::ReadFailed(m) => r.phase == Phase::Done && finishes_io(r.action, m@),
            _ => false,
        },
        Phase::Running => match ev {
            Event::Exited(code) => if code == 0 {
                r.phase == Phase::Refreshing && r.action is Resolve
            } else {
                r.phase == Phase::Done && finishes_failed(r.action, ReifyFail::ExecFail(code))
            },
            _ => false,
        },
        Phase::Refreshing => match ev {
            Event::Resolved(f, q) => r.phase == Phase::Recording && reads(
                r.action,
                sorted_union(f@, q@),
            ),
            _ => false,
        },
        Phase::Recording => match ev {
            Event::Read(c) => r.phase == Phase::Done && finishes_recorded(
                r.action,
                digest_of(buffers(c@), e.cmd@),
            ),
            Event::ReadFailed(m) => r.phase == Phase::Done && finishes_io(r.action, m@),
            _ => false,
        },
        Phase::Done => false,
    }
}

/// Each of `items` on a line of its own after `prefix`.
pub open spec fn prefixed_lines(prefix: Seq<char>, items: Seq<Seq<char>>) -> Seq<char>
    decreases items.len(),
{
    if items.len() == 0 {
        seq![]
    } else {
        prefixed_lines(prefix, items.drop_last()) + prefix + items.last() + "\n"@
    }
}

/// A list field: its header line and one `- item` line per item; nothing
/// at all for an empty list.
pub open spec fn list_section(header: Seq<char>, items: Seq<Seq<char>>) -> Seq<char> {
    if items.len() == 0 {
        seq![]
    } else {
        header + prefixed_lines("  - "@, items)
    }
}

/// The digest that a serialized entry records: `new_sha` if given, else
/// the one recorded before, if any.
pub open spec fn digest_to_record(e: Entry, new_sha: Option<String>) -> Option<Seq<char>> {
    match new_sha {
        Some(s) => Some(s@),
        None => match e.sha {
            Some(s) => Some(s@),
            None => None,
        },
    }
}

/// The manifest block of `e`: a list item with its name, its command as a
/// literal block, its non-empty file lists, and the digest to record.
pub open spec fn block_of(e: Entry, new_sha: Option<String>) -> Seq<char> {
    "-\n"@ + match e.name {
        Some(n) => "  name: "@ + n@ + "\n"@,
        None => seq![],
    } + "  cmd: |\n"@ + prefixed_lines("    "@, lines_of(e.cmd@)) + list_section(
        "  required_files:\n"@,
        views(e.required_files@),
    ) + list_section("  files:\n"@, views(e.files@)) + match digest_to_record(e, new_sha) {
        Some(d) => "  digest: "@ + d + "\n"@,
        None => seq![],
    }
}

/// Appends each item on a line of its own after `prefix`.
fn write_prefixed(out: &mut String, prefix: &str, items: &Vec<&str>)
    ensures
        final(out)@ == old(out)@ + prefixed_lines(prefix@, str_views(items@)),
{
    let ghost start = out@;
    let ghost all = str_views(items@);
    let mut i: usize = 0;
    proof {
        assert(all.subrange(0, 0) =~= Seq::<Seq<char>>::empty());
        assert(out@ =~= start + prefixed_lines(prefix@, all.subrange(0, 0)));
    }
    while i < items.len()
        invariant
            i <= items.len(),
            all == str_views(items@),
            out@ == start + prefixed_lines(prefix@, all.subrange(0, i as int)),
        decreases items.len() - i,
    {
        out.append(prefix);
        out.append(items[i]);
        out.append("\n");
        proof {
            let next = all.subrange(0, i + 1);
            assert(next.drop_last() =~= all.subrange(0, i as int));
            assert(next.last() == items@[i as int]@);
            assert(out@ =~= start + prefixed_lines(prefix@, next));
        }
        i = i + 1;
    }
    proof {
        assert(all.subrange(0, items@.len() as int) =~= all);
    }
}

/// Borrows each string of a list.
fn borrow_all(v: &Vec<String>) -> (r: Vec<&str>)
    ensures
        str_views(r@) == views(v@),
{
    let mut r: Vec<&str> = Vec::new();
    let mut i: usize = 0;
    while i < v.len()
        invariant
            i <= v.len(),
            r@.len() == i,
            str_views(r@) == views(v@).subrange(0, i as int),
        decreases v.len() - i,
    {
        let ghost before = r@;
        let item: &str = v[i].as_str();
        r.push(item);
        proof {
            assert(r@ == before.push(item));
            assert(item@ == v@[i as int]@);
            assert(str_views(before) =~= views(v@).subrange(0, i as int));
            assert forall|j: int| 0 <= j <= i implies str_views(r@)[j]
                == views(v@).subrange(0, i + 1)[j] by {
                if j < i {
                    assert(r@[j] == before[j]);
                }
            }
            assert(str_views(r@) =~= views(v@).subrange(0, i + 1));
        }
        i = i + 1;
    }
    proof {
        assert(views(v@).subrange(0, v@.len() as int) =~= views(v@));
    }
    r
}

/// Appends a list field, or nothing for an empty list.
fn write_section(out: &mut String, header: &str, items: &Vec<String>)
    ensures
        final(out)@ == old(out)@ + list_section(header@, views(items@)),
{
    if items.len() == 0 {
        proof {
            assert(out@ =~= out@ + list_section(header@, views(items@)));
        }
    } else {
        let ghost start = out@;
        out.append(header);
        write_prefixed(out, "  - ", &borrow_all(items));
        proof {
            assert(out@ =~= start + list_section(header@, views(items@)));
        }
    }
}

/// The digest of an entry depends on its command and on the contents of
/// the paths its files resolve to, and on nothing else: two entries with
/// the same command, whose files resolve to the same paths in whatever
/// order and list, ask for the same files in the same order, and the same
/// contents give them the same digest.
pub proof fn lemma_digest_deterministic(
    e1: Entry,
    f1: Seq<Option<String>>,
    q1: Seq<Option<String>>,
    c1: Seq<Vec<u8>>,
    e2: Entry,
    f2: Seq<Option<String>>,
    q2: Seq<Option<String>>,
    c2: Seq<Vec<u8>>,
)
    requires
        e1.cmd@ == e2.cmd@,
        forall|k: Seq<char>|
            (resolves_to(f1, k) || resolves_to(q1, k)) <==> (resolves_to(f2, k) || resolves_to(
                q2,
                k,
            )),
        buffers(c1) == buffers(c2),
    ensures
        sorted_union(f1, q1) == sorted_union(f2, q2),
        digest_of(buffers(c1), e1.cmd@) == digest_of(buffers(c2), e2.cmd@),
{
    lemma_sorted_union_ignores_order(f1, q1, f2, q2);
}

/// Right after a run that recorded a new digest, reifying the entry again,
/// with nothing changed on disk, is a no-op, and the digest stays as
/// recorded.
pub proof fn lemma_reify_twice_is_noop(
    e1: Entry,
    c1: Vec<Vec<u8>>,
    r1: Step,
    e2: Entry,
    f: Vec<Option<String>>,
    q: Vec<Option<String>>,
    g: Step,
    c2: Vec<Vec<u8>>,
    r2: Step,
)
    requires
        reify_step(e1, false, Phase::Recording, Event::Read(c1), r1),
        e2.cmd@ == e1.cmd@,
        e2.sha is Some,
        finishes_recorded(r1.action, e2.sha->Some_0@),
        all_resolved(q@),
        reify_step(e2, false, Phase::Gate, Event::Resolved(f, q), g),
        buffers(c2@) == buffers(c1@),
        reify_step(e2, false, Phase::Comparing, Event::Read(c2), r2),
    ensures
        g.phase == Phase::Comparing,
        r2.phase == Phase::Done,
        finishes_noop(r2.action),
        digest_to_record(e2, None) == Some(e2.sha->Some_0@),
{
}

/// When a required file does not resolve, a reification and a dry run both
/// stop with `MissingRequiredFiles` before any file is hashed or the
/// command is started.
pub proof fn lemma_required_files_gate(
    e: Entry,
    f: Vec<Option<String>>,
    q: Vec<Option<String>>,
    r1: Step,
    r2: Step,
)
    requires
        exists|i: int| 0 <= i < q@.len() && q@[i] is None,
        reify_step(e, false, Phase::Gate, Event::Resolved(f, q), r1),
        reify_step(e, true, Phase::Gate, Event::Resolved(f, q), r2),
    ensures
        r1.phase == Phase::Done,
        finishes_failed(r1.action, ReifyFail::MissingRequiredFiles),
        r2.phase == Phase::Done,
        finishes_failed(r2.action, ReifyFail::MissingRequiredFiles),
        forall|ev: Event| !phase_accepts(r1.phase, ev) && !phase_accepts(r2.phase, ev),
{
}

impl Phase {
    /// Whether this phase waits for `ev`.
    pub fn accepts(&self, ev: &Event) -> (r: bool)
        ensures
            r == phase_accepts(*self, *ev),
    {
        match self {
            Phase::Start => matches!(ev, Event::Begin),
            Phase::Gate | Phase::Refreshing => matches!(ev, Event::Resolved(_, _)),
            Phase::Comparing | Phase::Recording => matches!(ev, Event::Read(_) | Event::ReadFailed(_)),
            Phase::Running => matches!(ev, Event::Exited(_)),
            Phase::Done => false,
        }
    }
}

/// Whether every path of the list resolved.
fn every_resolved(q: &Vec<Option<String>>) -> (r: bool)
    ensures
        r == all_resolved(q@),
{
    let mut i: usize = 0;
    while i < q.len()
        invariant
            i <= q.len(),
            forall|j: int| 0 <= j < i ==> (#[trigger] q@[j]) is Some,
        decreases q.len() - i,
    {
        if q[i].is_none() {
            return false;
        }
        i = i + 1;
    }
    true
}

impl Entry {
    pub fn new(
        name: Option<String>,
        cmd: String,
        required_files: Vec<String>,
        files: Vec<String>,
        sha: Option<String>,
    ) -> (r: Entry)
        ensures
            r == (Entry { name, cmd, required_files, files, sha }),
    {
        Entry { name, cmd, required_files, files, sha }
    }

    /// The entry's label, if it has one.
    pub fn name(&self) -> (r: &Option<String>)
        ensures
            r == &self.name,
    {
        &self.name
    }

    /// The paths that a digest of this entry is taken over, given how each
    /// of `files` and of `required_files` resolved: every resolved path,
    /// sorted, each once.
    pub fn all_files(&self, files: &Vec<Option<String>>, required: &Vec<Option<String>>) -> (r:
        Vec<String>)
        ensures
            views(r@) == sorted_union(files@, required@),
    {
        sorted_paths(files, required)
    }

    /// Whether the recorded digest is `current`: the entry is fresh.
    pub fn check_then(&self, current: &String) -> (fresh: bool)
        ensures
            fresh == recorded(*self, current@),
    {
        match &self.sha {
            Some(old) => *old == *current,
            None => false,
        }
    }

    /// What a shell is handed to run this entry.
    pub fn command(&self) -> (r: Command)
        ensures
            command_of(*self, r),
    {
        let prefix = "set -xe\n";
        proof {
            reveal_strlit("set -xe\n");
            assert(prefix@ =~= script_prefix());
        }
        let script = String::from_str(prefix).concat(self.cmd.as_str());
        Command {
            script,
            files: join_with_newlines(&self.files),
            required_files: join_with_newlines(&self.required_files),
        }
    }

    fn on_stale(&self, dry: bool) -> (r: Step)
        ensures
            on_stale(*self, dry, r),
    {
        if dry {
            Step { phase: Phase::Done, action: Action::Finish(Ok(Err(ReifyFail::DryFail))) }
        } else {
            Step { phase: Phase::Running, action: Action::Run(self.command()) }
        }
    }

    fn step(&self, dry: bool, phase: Phase, ev: &Event) -> (r: Step)
        requires
            phase_accepts(phase, *ev),
        ensures
            reify_step(*self, dry, phase, *ev, r),
    {
        match phase {
            Phase::Start => Step { phase: Phase::Gate, action: Action::Resolve },
            Phase::Gate => match ev {
                Event::Resolved(f, q) => {
                    if !every_resolved(q) {
                        Step {
                            phase: Phase::Done,
                            action: Action::Finish(Ok(Err(ReifyFail::MissingRequiredFiles))),
                        }
                    } else if self.sha.is_none() {
                        self.on_stale(dry)
                    } else {
                        Step { phase: Phase::Comparing, action: Action::Read(self.all_files(f, q)) }
                    }
                },
                _ => Step { phase: Phase::Done, action: Action::Resolve },
            },
            Phase::Comparing => match ev {
                Event::Read(c) => {
                    let now = digest(c, self.cmd.as_str());
                    if self.check_then(&now) {
                        Step { phase: Phase::Done, action: Action::Finish(Ok(Ok(ReifySuccess::Noop))) }
                    } else {
                        self.on_stale(dry)
                    }
                },
                Event::ReadFailed(m) => Step {
                    phase: Phase::Done,
                    action: Action::Finish(Err(Error::Io(m.clone()))),
                },
                _ => Step { phase: Phase::Done, action: Action::Resolve },
            },
            Phase::Running => match ev {
                Event::Exited(code) => {
                    if *code == 0 {
                        Step { phase: Phase::Refreshing, action: Action::Resolve }
                    } else {
                        Step {
                            phase: Phase::Done,
                            action: Action::Finish(Ok(Err(ReifyFail::ExecFail(*code)))),
                        }
                    }
                },
                _ => Step { phase: Phase::Done, action: Action::Resolve },
            },
            Phase::Refreshing => match ev {
                Event::Resolved(f, q) => Step {
                    phase: Phase::Recording,
                    action: Action::Read(self.all_files(f, q)),
                },
                _ => Step { phase: Phase::Done, action: Action::Resolve },
            },
            Phase::Recording => match ev {
                Event::Read(c) => Step {
                    phase: Phase::Done,
                    action: Action::Finish(Ok(Ok(ReifySuccess::ExecSuccess(digest(c, self.cmd.as_str()))))),
                },
                Event::ReadFailed(m) => Step {
                    phase: Phase::Done,
                    action: Action::Finish(Err(Error::Io(m.clone()))),
                },
                _ => Step { phase: Phase::Done, action: Action::Resolve },
            },
            Phase::Done => Step { phase: Phase::Done, action: Action::Resolve },
        }
    }

    /// Appends the entry's manifest block to `out`, recording `new_sha` if
    /// given, else the digest recorded before.
    pub fn dump(&self, out: &mut String, new_sha: Option<String>)
        ensures
            final(out)@ == old(out)@ + block_of(*self, new_sha),
    {
        let ghost start = out@;
        out.append("-\n");
        let ghost after_dash = out@;
        match &self.name {
            Some(n) => {
                out.append("  name: ");
                out.append(n.as_str());
                out.append("\n");
            },
            None => {},
        }
        let ghost after_name = out@;
        out.append("  cmd: |\n");
        let ghost after_key = out@;
        write_prefixed(out, "    ", &lines(self.cmd.as_str()));
        let ghost after_cmd = out@;
        write_section(out, "  required_files:\n", &self.required_files);
        let ghost after_required = out@;
        write_section(out, "  files:\n", &self.files);
        let ghost after_files = out@;
        let recorded = match new_sha {
            Some(s) => Some(s),
            None => self.sha.clone(),
        };
        match &recorded {
            Some(d) => {
                out.append("  digest: ");
                out.append(d.as_str());
                out.append("\n");
            },
            None => {},
        }
        proof {
            let name_part = match &self.name {
                Some(n) => "  name: "@ + n@ + "\n"@,
                None => seq![],
            };
            assert(after_name =~= after_dash + name_part);
            let d_part = match digest_to_record(*self, new_sha) {
                Some(d) => "  digest: "@ + d + "\n"@,
                None => seq![],
            };
            assert(out@ =~= after_files + d_part);
            assert(out@ =~= start + block_of(*self, new_sha));
        }
    }

    /// One step of bringing the entry up to date: from `phase`, on what came
    /// of the last action, to the next phase and action. Starting from
    /// `Phase::Start` with `Event::Begin`, the steps check that the required
    /// files exist, compare the recorded digest with the current one, run
    /// the command when they differ (or none was recorded), and end with
    /// the new digest, `Noop`, or the failure.
    pub fn reify(&self, phase: Phase, ev: &Event) -> (r: Step)
        requires
            phase_accepts(phase, *ev),
        ensures
            reify_step(*self, false, phase, *ev, r),
    {
        self.step(false, phase, ev)
    }

    /// One step of a dry run: the same checks as `reify`, but a stale entry
    /// ends with `DryFail` and nothing runs.
    pub fn dry_run(&self, phase: Phase, ev: &Event) -> (r: Step)
        requires
            phase_accepts(phase, *ev),
        ensures
            reify_step(*self, true, phase, *ev, r),
    {
        self.step(true, phase, ev)
    }
}

} // verus!

//! The snapshot committer: the issue export of the central database is
//! committed to git whenever it has changed, for audit and backup.
//!
//! Debounced: on each tick, commit only if the export changed since the last
//! commit. A commit that fails is tried again on the next tick.

use vstd::prelude::*;
use vstd::utf8::*;

use crate::paths::{
    absolute_path, counts, path_join, proper, relative_path, relative_paths_lead_there, AbsPath,
    SLASH,
};
use crate::process::{lossy_text, to_text, Finished, Output};
use crate::text::{contains, occurrences_stand_between, occurs_in};

verus! {

/// One argument of a command line: a text, or a path.
#[derive(Debug)]
pub enum Arg {
    Text(String),
    Path(Vec<u8>),
}

/// The model of an [`Arg`].
pub enum ArgView {
    Text(Seq<char>),
    Path(Seq<u8>),
}

impl View for Arg {
    type V = ArgView;

    open spec fn view(&self) -> ArgView {
        match self {
            Arg::Text(s) => ArgView::Text(s@),
            Arg::Path(p) => ArgView::Path(p@),
        }
    }
}

/// The models of a list of arguments.
pub open spec fn arg_views(list: Seq<Arg>) -> Seq<ArgView> {
    list.map_values(|a: Arg| a@)
}

/// The file next to the database that the issues are exported to.
pub fn export_path(db: &AbsPath) -> (path: Option<AbsPath>)
    ensures
        path is Some <==> db@.len() > 0,
        path matches Some(p) ==> p@ == db@.drop_last().push(encode_utf8("issues.jsonl"@)) && (
        proper(db@) ==> proper(p@)),
{
    match db.parent() {
        Some(dir) => {
            let path: AbsPath = dir.child("issues.jsonl");
            proof {
                export_name_is_proper();
            }
            Some(path)
        },
        None => None,
    }
}

/// The name of the export is a name like any other.
proof fn export_name_is_proper()
    ensures
        counts(encode_utf8("issues.jsonl"@)),
        !encode_utf8("issues.jsonl"@).contains(SLASH),
{
    let name = "issues.jsonl"@;
    reveal_strlit("issues.jsonl");
    assert(is_ascii_chars(name));
    is_ascii_chars_encode_utf8(name);
    let bytes = encode_utf8(name);
    assert(bytes.len() == 12);
    assert forall|i: int| 0 <= i < bytes.len() implies bytes[i] != SLASH by {
        assert(bytes[i] == name[i] as u8);
    }
}

/// The two git commands of a snapshot.
#[derive(Debug)]
pub enum Step {
    /// Stages the export.
    Add,
    /// Commits the export, and nothing else.
    Commit,
}

/// What comes next in a snapshot.
#[derive(Debug)]
pub enum Next {
    /// Run this program for this step, with these arguments, and with an empty
    /// standard input where `stdin_empty` says so.
    Run { step: Step, program: String, args: Vec<Arg>, stdin_empty: bool },
    /// The snapshot is over: whether a commit was made, or why it failed.
    Done(Result<bool, String>),
}

/// The model of a [`Next`].
pub enum NextView {
    Run { step: Step, program: Seq<char>, args: Seq<ArgView>, stdin_empty: bool },
    Done(Result<bool, Seq<char>>),
}

impl View for Next {
    type V = NextView;

    open spec fn view(&self) -> NextView {
        match self {
            Next::Run { step, program, args, stdin_empty } => NextView::Run {
                step: *step,
                program: program@,
                args: arg_views(args@),
                stdin_empty: *stdin_empty,
            },
            Next::Done(result) => NextView::Done(result_view(*result)),
        }
    }
}

/// A run of git for a step, with nothing to read.
pub open spec fn git_run(step: Step, args: Seq<ArgView>) -> NextView {
    NextView::Run { step, program: "git"@, args, stdin_empty: true }
}

/// The model of a snapshot's result.
pub open spec fn result_view(result: Result<bool, String>) -> Result<bool, Seq<char>> {
    match result {
        Ok(made) => Ok(made),
        Err(message) => Err(message@),
    }
}

/// Whether git's words say that there was nothing to commit.
pub open spec fn says_nothing_to_commit(words: Seq<char>) -> bool {
    ||| occurs_in("nothing to commit"@, words)
    ||| occurs_in("no changes added"@, words)
    ||| occurs_in("nothing added to commit"@, words)
}

/// What `git commit` came to, by its success and its words.
pub open spec fn commit_verdict(success: bool, words: Seq<char>) -> Result<bool, Seq<char>> {
    if success {
        Ok(true)
    } else if says_nothing_to_commit(words) {
        Ok(false)
    } else {
        Err("git commit failed: "@ + words)
    }
}

/// What `git commit` came to, by its success and its words: having nothing to
/// commit is no failure.
pub fn judge_commit(success: bool, words: &str) -> (result: Result<bool, String>)
    ensures
        result_view(result) == commit_verdict(success, words@),
        success ==> result == Ok::<bool, String>(true),
        !success && result is Ok ==> result->Ok_0 == false,
        !success ==> (result is Ok <==> {
            ||| exists|a: Seq<char>, b: Seq<char>| #[trigger]
                (a + "nothing to commit"@ + b) == words@
            ||| exists|a: Seq<char>, b: Seq<char>| #[trigger]
                (a + "no changes added"@ + b) == words@
            ||| exists|a: Seq<char>, b: Seq<char>| #[trigger]
                (a + "nothing added to commit"@ + b) == words@
        }),
        result matches Err(message) ==> message@ == "git commit failed: "@ + words@,
{
    proof {
        occurrences_stand_between("nothing to commit"@, words@);
        occurrences_stand_between("no changes added"@, words@);
        occurrences_stand_between("nothing added to commit"@, words@);
    }
    if success {
        return Ok(true);
    }
    if contains(words, "nothing to commit") || contains(words, "no changes added") || contains(
        words,
        "nothing added to commit",
    ) {
        return Ok(false);
    }
    let mut message: String = "git commit failed: ".to_owned();
    message.append(words);
    Err(message)
}

/// The committer of one project's export.
#[derive(Debug)]
pub struct Committer {
    /// The central repository.
    pub repo: Vec<u8>,
    /// The export, as git is told of it.
    pub rel: Vec<u8>,
    /// The commit message.
    pub message: String,
    pub author_name: String,
    pub author_email: String,
    /// When the export that was last dealt with was modified, in nanoseconds
    /// from the epoch.
    pub last: Option<i128>,
}

/// How git is told of the export: from the repository, where it lies in it.
pub open spec fn export_rel(repo: Seq<Seq<u8>>, export: Seq<Seq<u8>>) -> Seq<u8> {
    if repo.is_prefix_of(export) {
        relative_path(export.skip(repo.len() as int))
    } else {
        absolute_path(export)
    }
}

/// The project's name: the first name of the path that git is told. An export
/// outside the repository begins with the root.
pub open spec fn project_name(repo: Seq<Seq<u8>>, export: Seq<Seq<u8>>) -> Seq<char> {
    if !repo.is_prefix_of(export) {
        "/"@
    } else if repo.len() == export.len() {
        "project"@
    } else {
        lossy_text(export[repo.len() as int])
    }
}

impl Committer {
    /// The arguments that stage the export.
    pub open spec fn add_args(self) -> Seq<ArgView> {
        seq![
            ArgView::Text("-C"@),
            ArgView::Path(self.repo@),
            ArgView::Text("add"@),
            ArgView::Text("--"@),
            ArgView::Path(self.rel@),
        ]
    }

    /// The arguments that commit the export and nothing else, in the
    /// committer's own name.
    pub open spec fn commit_args(self) -> Seq<ArgView> {
        seq![
            ArgView::Text("-C"@),
            ArgView::Path(self.repo@),
            ArgView::Text("-c"@),
            ArgView::Text("user.name="@ + self.author_name@),
            ArgView::Text("-c"@),
            ArgView::Text("user.email="@ + self.author_email@),
            ArgView::Text("commit"@),
            ArgView::Text("-m"@),
            ArgView::Text(self.message@),
            ArgView::Text("--only"@),
            ArgView::Text("--"@),
            ArgView::Path(self.rel@),
        ]
    }

    /// What comes next in a snapshot after a step came to `finished`.
    pub open spec fn after(self, step: Step, finished: Finished) -> NextView {
        match finished {
            Finished::NotStarted { message } => NextView::Done(Err(message@)),
            Finished::Exited(output) => match step {
                Step::Add => if output.succeeded() {
                    git_run(Step::Commit, self.commit_args())
                } else {
                    NextView::Done(Err("git add failed: "@ + output.stderr_text()))
                },
                Step::Commit => NextView::Done(
                    commit_verdict(
                        output.succeeded(),
                        output.stdout_text() + output.stderr_text(),
                    ),
                ),
            },
        }
    }

    /// Whether the committer has a snapshot to make, where the export was
    /// modified at `mtime`. An export that cannot be looked at has none.
    pub open spec fn owes(self, mtime: Option<i128>) -> bool {
        mtime is Some && self.last != mtime
    }

    /// The committer after a snapshot of the export of `mtime` came to
    /// `result`.
    pub open spec fn settled(self, mtime: i128, result: Result<bool, String>) -> Committer {
        match result {
            Ok(_) => Committer { last: Some(mtime), ..self },
            Err(_) => self,
        }
    }

    /// The committer after some ticks. Of each tick it is told when the export
    /// had been modified, where that could be looked at, and what a snapshot
    /// came to, which counts only where one was owed.
    pub open spec fn after_ticks(
        self,
        ticks: Seq<(Option<i128>, Result<bool, String>)>,
    ) -> Committer
        decreases ticks.len(),
    {
        if ticks.len() == 0 {
            self
        } else {
            let before = self.after_ticks(ticks.drop_last());
            if before.owes(ticks.last().0) {
                before.settled(ticks.last().0->0, ticks.last().1)
            } else {
                before
            }
        }
    }

    /// A committer of the export at `export` to the repository at `repo`.
    pub fn new(
        repo: AbsPath,
        export: AbsPath,
        author_name: String,
        author_email: String,
    ) -> (committer: Committer)
        ensures
            committer.repo@ == absolute_path(repo@),
            committer.rel@ == export_rel(repo@, export@),
            committer.message@ == "beadsd: snapshot "@ + project_name(repo@, export@),
            repo@.is_prefix_of(export@) && repo@.len() < export@.len() && valid_utf8(
                export@[repo@.len() as int],
            ) ==> committer.message@ == "beadsd: snapshot "@ + decode_utf8(
                export@[repo@.len() as int],
            ),
            committer.author_name@ == author_name@,
            committer.author_email@ == author_email@,
            committer.last is None,
    {
        let inside: bool = export.is_under(&repo);
        let depth: usize = repo.names.len();
        let rel: Vec<u8> = if inside {
            export.relative_from(depth)
        } else {
            export.to_bytes()
        };
        let project: String = if !inside {
            "/".to_owned()
        } else if depth == export.names.len() {
            "project".to_owned()
        } else {
            to_text(&export.names[depth])
        };
        let mut message: String = "beadsd: snapshot ".to_owned();
        message.append(project.as_str());
        Committer { repo: repo.to_bytes(), rel, message, author_name, author_email, last: None }
    }

    /// The arguments of `git add`.
    fn stage(&self) -> (args: Vec<Arg>)
        ensures
            arg_views(args@) == self.add_args(),
    {
        let mut args: Vec<Arg> = Vec::new();
        args.push(Arg::Text("-C".to_owned()));
        args.push(Arg::Path(self.repo.clone()));
        args.push(Arg::Text("add".to_owned()));
        args.push(Arg::Text("--".to_owned()));
        args.push(Arg::Path(self.rel.clone()));
        assert(arg_views(args@) == self.add_args());
        args
    }

    /// The arguments of `git commit`.
    fn commit(&self) -> (args: Vec<Arg>)
        ensures
            arg_views(args@) == self.commit_args(),
    {
        let mut name: String = "user.name=".to_owned();
        name.append(self.author_name.as_str());
        let mut email: String = "user.email=".to_owned();
        email.append(self.author_email.as_str());
        let mut args: Vec<Arg> = Vec::new();
        args.push(Arg::Text("-C".to_owned()));
        args.push(Arg::Path(self.repo.clone()));
        args.push(Arg::Text("-c".to_owned()));
        args.push(Arg::Text(name));
        args.push(Arg::Text("-c".to_owned()));
        args.push(Arg::Text(email));
        args.push(Arg::Text("commit".to_owned()));
        args.push(Arg::Text("-m".to_owned()));
        args.push(Arg::Text(self.message.clone()));
        args.push(Arg::Text("--only".to_owned()));
        args.push(Arg::Text("--".to_owned()));
        args.push(Arg::Path(self.rel.clone()));
        assert(arg_views(args@) == self.commit_args());
        args
    }

    /// One snapshot, step by step: what to do first, and what to do after each
    /// step.
    pub fn git_commit_once(&self, ran: Option<(Step, Finished)>) -> (next: Next)
        ensures
            next@ == (match ran {
                None => git_run(Step::Add, self.add_args()),
                Some(pair) => self.after(pair.0, pair.1),
            }),
            ran matches Some((Step::Add, Finished::Exited(output))) ==> !output.succeeded()
                && valid_utf8(output.stderr@) ==> next@ == NextView::Done(
                Err("git add failed: "@ + decode_utf8(output.stderr@)),
            ),
            ran matches Some((Step::Commit, Finished::Exited(output))) ==> valid_utf8(
                output.stdout@,
            ) && valid_utf8(output.stderr@) ==> next@ == NextView::Done(
                commit_verdict(
                    output.succeeded(),
                    decode_utf8(output.stdout@) + decode_utf8(output.stderr@),
                ),
            ),
    {
        match ran {
            None => Next::Run {
                step: Step::Add,
                program: "git".to_owned(),
                args: self.stage(),
                stdin_empty: true,
            },
            Some((_, Finished::NotStarted { message })) => Next::Done(Err(message)),
            Some((Step::Add, Finished::Exited(output))) => {
                if output.success() {
                    Next::Run {
                        step: Step::Commit,
                        program: "git".to_owned(),
                        args: self.commit(),
                        stdin_empty: true,
                    }
                } else {
                    let mut message: String = "git add failed: ".to_owned();
                    message.append(to_text(&output.stderr).as_str());
                    Next::Done(Err(message))
                }
            },
            Some((Step::Commit, Finished::Exited(output))) => {
                let mut words: String = to_text(&output.stdout);
                words.append(to_text(&output.stderr).as_str());
                Next::Done(judge_commit(output.success(), words.as_str()))
            },
        }
    }

    /// Whether there is a snapshot to make on this tick.
    pub fn is_due(&self, mtime: Option<i128>) -> (due: bool)
        ensures
            due == self.owes(mtime),
    {
        match (mtime, self.last) {
            (Some(now), Some(then)) => now != then,
            (Some(_), None) => true,
            (None, _) => false,
        }
    }

    /// Takes note of what a snapshot came to.
    pub fn settle(&mut self, mtime: i128, result: &Result<bool, String>)
        ensures
            *final(self) == old(self).settled(mtime, *result),
    {
        if result.is_ok() {
            self.last = Some(mtime);
        }
    }
}

/// Git, told of an export in the repository, finds the export: from where the
/// repository is, the path leads to it.
pub proof fn git_is_told_of_the_export(repo: Seq<Seq<u8>>, export: Seq<Seq<u8>>)
    requires
        proper(repo),
        repo.is_prefix_of(export),
        repo.len() < export.len(),
    ensures
        path_join(absolute_path(repo), export_rel(repo, export)) == absolute_path(export),
{
    let rest = export.skip(repo.len() as int);
    relative_paths_lead_there(repo, rest);
    assert(repo + rest == export);
}

/// A snapshot that did not fail is not made again while the export stays as it
/// is, and is owed again once the export changes.
pub proof fn snapshots_are_debounced(
    committer: Committer,
    mtime: i128,
    result: Result<bool, String>,
    later: i128,
)
    requires
        result is Ok,
    ensures
        committer.settled(mtime, result).owes(Some(later)) <==> later != mtime,
{
}

/// A snapshot that failed is owed as it was before.
pub proof fn failed_snapshots_are_retried(
    committer: Committer,
    mtime: i128,
    result: Result<bool, String>,
    later: Option<i128>,
)
    requires
        result is Err,
    ensures
        committer.settled(mtime, result).owes(later) == committer.owes(later),
{
}

/// Once a snapshot of an export did not fail, no tick makes another one until
/// the export changes, however many ticks pass, whether or not the export can be
/// looked at on them.
pub proof fn unchanged_exports_are_left_alone(
    committer: Committer,
    ticks: Seq<(Option<i128>, Result<bool, String>)>,
    i: int,
    j: int,
)
    requires
        0 <= i < j < ticks.len(),
        ticks[i].0 is Some,
        ticks[i].1 is Ok,
        forall|k: int|
            i < k <= j ==> (#[trigger] ticks[k]).0 is None || ticks[k].0 == ticks[i].0,
    ensures
        !committer.after_ticks(ticks.take(j)).owes(ticks[j].0),
        committer.after_ticks(ticks.take(j)).last == ticks[i].0,
    decreases j,
{
    let past = ticks.take(j);
    assert(past.drop_last() == ticks.take(j - 1));
    assert(past.last() == ticks[j - 1]);
    if j - 1 > i {
        unchanged_exports_are_left_alone(committer, ticks, i, j - 1);
    }
}

/// As long as every snapshot fails, each tick owes what the first one owed: the
/// snapshot is tried again and again.
pub proof fn failing_snapshots_stay_owed(
    committer: Committer,
    ticks: Seq<(Option<i128>, Result<bool, String>)>,
    mtime: Option<i128>,
)
    requires
        forall|k: int| 0 <= k < ticks.len() ==> (#[trigger] ticks[k]).1 is Err,
    ensures
        committer.after_ticks(ticks).owes(mtime) == committer.owes(mtime),
        committer.after_ticks(ticks) == committer,
    decreases ticks.len(),
{
    if ticks.len() > 0 {
        assert(ticks.last().1 is Err);
        failing_snapshots_stay_owed(committer, ticks.drop_last(), mtime);
    }
}

/// A commit is only tried after the export was staged, and a snapshot says that
/// a commit was made only where `git commit` succeeded.
pub proof fn commits_are_made_by_git(committer: Committer, step: Step, finished: Finished)
    ensures
        committer.after(step, finished) is Run ==> step is Add && finished is Exited
            && finished->Exited_0.succeeded(),
        committer.after(step, finished) == NextView::Done(Ok(true)) <==> step is Commit
            && finished is Exited && finished->Exited_0.succeeded(),
{
}

/// A `git commit` that did not succeed counts as having had nothing to do only
/// where git's words have `nothing to commit`, `no changes added` or `nothing
/// added to commit` in them. Any other words, such as those on a lock that is
/// held, are told as a failure, and the committer owes what it owed before.
pub proof fn other_git_failures_stay_owed(
    committer: Committer,
    words: &str,
    result: Result<bool, String>,
    mtime: i128,
    later: Option<i128>,
)
    requires
        call_ensures(judge_commit, (false, words), result),
        forall|a: Seq<char>, b: Seq<char>|
            #![trigger a + "nothing to commit"@ + b]
            a + "nothing to commit"@ + b != words@,
        forall|a: Seq<char>, b: Seq<char>|
            #![trigger a + "no changes added"@ + b]
            a + "no changes added"@ + b != words@,
        forall|a: Seq<char>, b: Seq<char>|
            #![trigger a + "nothing added to commit"@ + b]
            a + "nothing added to commit"@ + b != words@,
    ensures
        result matches Err(message) && message@ == "git commit failed: "@ + words@,
        committer.settled(mtime, result).owes(later) <==> later is Some && committer.last != later,
{
    occurrences_stand_between("nothing to commit"@, words@);
    occurrences_stand_between("no changes added"@, words@);
    occurrences_stand_between("nothing added to commit"@, words@);
}

/// A `git commit` whose words have one of git's phrases for it in them had
/// nothing to do, which is no failure; one that succeeded made a commit,
/// whatever its words.
pub proof fn having_nothing_to_commit_is_no_failure(
    success: bool,
    words: &str,
    result: Result<bool, String>,
    a: Seq<char>,
    b: Seq<char>,
)
    requires
        call_ensures(judge_commit, (success, words), result),
        success || words@ == a + "nothing to commit"@ + b || words@ == a + "no changes added"@ + b
            || words@ == a + "nothing added to commit"@ + b,
    ensures
        result == Ok::<bool, String>(success),
{
    occurrences_stand_between("nothing to commit"@, words@);
    occurrences_stand_between("no changes added"@, words@);
    occurrences_stand_between("nothing added to commit"@, words@);
}

/// A snapshot begins with `git -C <repo> add -- <export>`, and git has nothing to
/// read.
pub proof fn snapshots_begin_by_staging_the_export(committer: Committer, next: Next)
    requires
        call_ensures(Committer::git_commit_once, (&committer, None), next),
    ensures
        next matches Next::Run { step: Step::Add, program, args, stdin_empty } && {
            &&& program@ == "git"@
            &&& stdin_empty
            &&& args@.len() == 5
            &&& args@[0] matches Arg::Text(s) && s@ == "-C"@
            &&& args@[1] matches Arg::Path(p) && p@ == committer.repo@
            &&& args@[2] matches Arg::Text(s) && s@ == "add"@
            &&& args@[3] matches Arg::Text(s) && s@ == "--"@
            &&& args@[4] matches Arg::Path(p) && p@ == committer.rel@
        },
{
    match next {
        Next::Run { step, program, args, stdin_empty } => {
            let views = arg_views(args@);
            assert(next@ == git_run(Step::Add, committer.add_args()));
            assert(views == committer.add_args());
            assert(views.len() == args@.len());
            assert(committer.add_args().len() == 5);
            assert(views[0] == args@[0]@);
            assert(views[1] == args@[1]@);
            assert(views[2] == args@[2]@);
            assert(views[3] == args@[3]@);
            assert(views[4] == args@[4]@);
        },
        _ => {},
    }
}

/// Once the export is staged, a snapshot goes on with a commit of the export and
/// nothing else, in the committer's own name: `git -C <repo> -c user.name=<name>
/// -c user.email=<email> commit -m <message> --only -- <export>`, and git has
/// nothing to read.
pub proof fn snapshots_commit_what_was_staged(committer: Committer, output: Output, next: Next)
    requires
        output.code == Some(0i32),
        call_ensures(
            Committer::git_commit_once,
            (&committer, Some((Step::Add, Finished::Exited(output)))),
            next,
        ),
    ensures
        next matches Next::Run { step: Step::Commit, program, args, stdin_empty } && {
            &&& program@ == "git"@
            &&& stdin_empty
            &&& args@.len() == 12
            &&& args@[0] matches Arg::Text(s) && s@ == "-C"@
            &&& args@[1] matches Arg::Path(p) && p@ == committer.repo@
            &&& args@[2] matches Arg::Text(s) && s@ == "-c"@
            &&& args@[3] matches Arg::Text(s) && s@ == "user.name="@ + committer.author_name@
            &&& args@[4] matches Arg::Text(s) && s@ == "-c"@
            &&& args@[5] matches Arg::Text(s) && s@ == "user.email="@ + committer.author_email@
            &&& args@[6] matches Arg::Text(s) && s@ == "commit"@
            &&& args@[7] matches Arg::Text(s) && s@ == "-m"@
            &&& args@[8] matches Arg::Text(s) && s@ == committer.message@
            &&& args@[9] matches Arg::Text(s) && s@ == "--only"@
            &&& args@[10] matches Arg::Text(s) && s@ == "--"@
            &&& args@[11] matches Arg::Path(p) && p@ == committer.rel@
        },
{
    match next {
        Next::Run { step, program, args, stdin_empty } => {
            let views = arg_views(args@);
            assert(next@ == git_run(Step::Commit, committer.commit_args()));
            assert(views == committer.commit_args());
            assert(views.len() == args@.len());
            assert(committer.commit_args().len() == 12);
            assert(views[0] == args@[0]@);
            assert(views[1] == args@[1]@);
            assert(views[2] == args@[2]@);
            assert(views[3] == args@[3]@);
            assert(views[4] == args@[4]@);
            assert(views[5] == args@[5]@);
            assert(views[6] == args@[6]@);
            assert(views[7] == args@[7]@);
            assert(views[8] == args@[8]@);
            assert(views[9] == args@[9]@);
            assert(views[10] == args@[10]@);
            assert(views[11] == args@[11]@);
        },
        _ => {},
    }
}

/// A snapshot whose git command could not be started is over, with the reason;
/// so is one whose export could not be staged, with git's errors; and one whose
/// commit was tried, with what is made of git's output and errors, one after the
/// other.
pub proof fn snapshots_end_as_git_says(
    committer: Committer,
    step: Step,
    finished: Finished,
    next: Next,
    words: &str,
    verdict: Result<bool, String>,
)
    requires
        call_ensures(Committer::git_commit_once, (&committer, Some((step, finished))), next),
        finished matches Finished::Exited(output) ==> words@ == lossy_text(output.stdout@)
            + lossy_text(output.stderr@) && call_ensures(
            judge_commit,
            (output.code == Some(0i32), words),
            verdict,
        ),
    ensures
        finished matches Finished::NotStarted { message } ==> (next matches Next::Done(Err(m)) && m@
            == message@),
        finished matches Finished::Exited(output) ==> {
            &&& step is Add && output.code != Some(0i32) ==> (next matches Next::Done(Err(m)) && m@
                == "git add failed: "@ + lossy_text(output.stderr@))
            &&& step is Commit ==> (next matches Next::Done(result) && {
                &&& result is Ok <==> verdict is Ok
                &&& result is Ok ==> result->Ok_0 == verdict->Ok_0
                &&& result is Err ==> result->Err_0@ == verdict->Err_0@
            })
        },
{
    match finished {
        Finished::Exited(output) => {
            assert(output.succeeded() == (output.code == Some(0i32)));
            if step is Commit {
                assert(next@ == NextView::Done(result_view(verdict)));
            }
        },
        _ => {},
    }
}

/// There is a snapshot to make exactly where the export can be looked at and was
/// not modified when the one last dealt with was.
pub proof fn changed_exports_are_due(committer: Committer, mtime: Option<i128>, due: bool)
    requires
        call_ensures(Committer::is_due, (&committer, mtime), due),
    ensures
        due <==> mtime is Some && committer.last != mtime,
{
}

/// After a snapshot that did not fail, whether or not a commit was made, the
/// export has been dealt with; after one that failed, everything is as before.
pub proof fn only_failures_are_forgotten(
    before: Committer,
    mtime: i128,
    result: Result<bool, String>,
    after: Committer,
)
    requires
        exists|committer: &mut Committer| #[trigger]
            call_ensures(Committer::settle, (committer, mtime, &result), ()) && *committer == before
                && *final(committer) == after,
    ensures
        result is Ok ==> after.last == Some(mtime),
        result is Err ==> after.last == before.last,
        after.repo == before.repo,
        after.rel == before.rel,
        after.message == before.message,
        after.author_name == before.author_name,
        after.author_email == before.author_email,
{
}

/// The committer of an export in the repository tells git the path of the export
/// from there, which joined to the repository is the export, and its message
/// names the directory below the repository that the export is in.
pub proof fn exports_in_the_repository_are_told_from_there(
    repo: AbsPath,
    export: AbsPath,
    author_name: String,
    author_email: String,
    committer: Committer,
)
    requires
        call_ensures(Committer::new, (repo, export, author_name, author_email), committer),
        proper(repo@),
        repo.names@.len() < export.names@.len(),
        forall|i: int|
            0 <= i < repo.names@.len() ==> (#[trigger] repo.names@[i])@ == export.names@[i]@,
    ensures
        path_join(committer.repo@, committer.rel@) == absolute_path(export@),
        committer.repo@ == absolute_path(repo@),
        committer.message@ == "beadsd: snapshot "@ + lossy_text(
            export.names@[repo.names@.len() as int]@,
        ),
        committer.author_name@ == author_name@,
        committer.author_email@ == author_email@,
        committer.last is None,
{
    assert forall|i: int| 0 <= i < repo@.len() implies repo@[i] == export@[i] by {
        assert(repo.names@[i]@ == export.names@[i]@);
    }
    assert(repo@ == export@.take(repo@.len() as int));
    assert(repo@.is_prefix_of(export@));
    git_is_told_of_the_export(repo@, export@);
    assert(export@[repo@.len() as int] == export.names@[repo.names@.len() as int]@);
}

/// An export that is not in the repository is told git by its own path, and the
/// message names the root. One that is the repository itself has the message's
/// stand-in name.
pub proof fn exports_elsewhere_are_told_by_their_own_path(
    repo: AbsPath,
    export: AbsPath,
    author_name: String,
    author_email: String,
    committer: Committer,
    k: int,
)
    requires
        call_ensures(Committer::new, (repo, export, author_name, author_email), committer),
        repo@ == export@ || (0 <= k < repo.names@.len() && (k >= export.names@.len()
            || repo.names@[k]@ != export.names@[k]@)),
    ensures
        repo@ != export@ ==> committer.rel@ == absolute_path(export@) && committer.message@
            == "beadsd: snapshot /"@,
        repo@ == export@ ==> committer.rel@.len() == 0 && committer.message@
            == "beadsd: snapshot project"@,
        committer.last is None,
{
    reveal_strlit("beadsd: snapshot ");
    reveal_strlit("/");
    reveal_strlit("project");
    reveal_strlit("beadsd: snapshot /");
    reveal_strlit("beadsd: snapshot project");
    if repo@ == export@ {
        assert(repo@.is_prefix_of(export@)) by {
            assert(export@.take(repo@.len() as int) == repo@);
        }
        assert("beadsd: snapshot "@ + "project"@ == "beadsd: snapshot project"@);
    } else {
        assert(!repo@.is_prefix_of(export@)) by {
            if repo@.is_prefix_of(export@) {
                assert(repo@[k] == repo.names@[k]@);
                assert(export@[k] == export.names@[k]@);
                assert(export@.subrange(0, repo@.len() as int)[k] == export@[k]);
            }
        }
        assert("beadsd: snapshot "@ + "/"@ == "beadsd: snapshot /"@);
    }
}

/// The export is the file `issues.jsonl` in the directory of the database. The
/// root is no database.
pub proof fn exports_lie_next_to_the_database(db: AbsPath, path: Option<AbsPath>)
    requires
        call_ensures(export_path, (&db,), path),
    ensures
        path is None <==> db.names@.len() == 0,
        path matches Some(p) ==> {
            &&& p.names@.len() == db.names@.len()
            &&& forall|i: int|
                0 <= i < db.names@.len() - 1 ==> (#[trigger] p.names@[i])@ == db.names@[i]@
            &&& p.names@.last()@ == encode_utf8("issues.jsonl"@)
        },
{
    match path {
        Some(p) => {
            let n = db.names@.len();
            assert(p@.len() == p.names@.len());
            assert forall|i: int| 0 <= i < n - 1 implies (#[trigger] p.names@[i])@
                == db.names@[i]@ by {
                assert(p@[i] == db@[i]);
            }
            assert(p@[n - 1] == p.names@[n - 1]@);
        },
        None => {},
    }
}

} // verus!

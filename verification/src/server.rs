//! The service: each request becomes one run of `br` on the central database,
//! and each way such a run can end becomes a reply.

use vstd::prelude::*;
use vstd::utf8::*;

use crate::args::{
    args_without_db_are_kept, chooses_db, db_choices_are_dropped, force_db, options_end,
    options_end_at_the_first_dashes, push, push_flag, strip_db_args, stripped_args_choose_no_db,
    with_db, without_db,
};
use crate::client::{conclude, Cmd};
use crate::json::{
    code_tree, code_value, empty_object, flat, insert, object_value, parsed, plain, render, rendered,
    text_member, text_trees, text_value, texts_value, Json,
};
use crate::process::{lossy_text, to_text, Finished, Output};
use crate::reply::{failure, replicated, reported, Outcome, OutcomeView};
use crate::requests::{
    ClaimReq, CloseReq, CreateReq, ExecReq, ListReq, ReadyReq, ShowReq, UnclaimReq, UpdateReq,
};
use crate::text::{decimal, texts, texts_are_those_of_the_strings, to_decimal};

verus! {

/// One run of a program.
#[derive(Debug)]
pub struct Invocation {
    pub program: String,
    pub args: Vec<String>,
    /// What is set in its environment, over what it inherits.
    pub env: Vec<(String, String)>,
    /// Whether its standard input is empty; else it inherits one.
    pub stdin_empty: bool,
    /// Whether it has to hold the write lock.
    pub exclusive: bool,
}

/// The model of an [`Invocation`].
pub struct InvocationView {
    pub program: Seq<char>,
    pub args: Seq<Seq<char>>,
    pub env: Seq<(Seq<char>, Seq<char>)>,
    pub stdin_empty: bool,
    pub exclusive: bool,
}

impl View for Invocation {
    type V = InvocationView;

    open spec fn view(&self) -> InvocationView {
        InvocationView {
            program: self.program@,
            args: texts(self.args@),
            env: self.env@.map_values(|pair: (String, String)| (pair.0@, pair.1@)),
            stdin_empty: self.stdin_empty,
            exclusive: self.exclusive,
        }
    }
}

/// The single writer: the `br` binary it runs, and the one database it owns.
#[derive(Debug, Clone)]
pub struct BeadsServer {
    pub br_bin: String,
    pub db_path: String,
}

impl BeadsServer {
    /// A run of `br` on `args`, quiet but for errors and with nothing to read.
    pub open spec fn br(self, args: Seq<Seq<char>>, exclusive: bool) -> InvocationView {
        InvocationView {
            program: self.br_bin@,
            args,
            env: seq![("RUST_LOG"@, "error"@)],
            stdin_empty: true,
            exclusive,
        }
    }

    /// The run of `br` that a typed request asks for: `args` on the central
    /// database, with JSON output.
    pub open spec fn br_json(self, args: Seq<Seq<char>>, mutation: bool) -> InvocationView {
        self.br(args + seq!["--db"@, self.db_path@, "--json"@], mutation)
    }

    /// The run of `br` that passes `args` through: without any database of the
    /// caller's, on the central database, which is chosen before any `--`.
    pub open spec fn br_passthrough(self, args: Seq<Seq<char>>) -> InvocationView {
        self.br(with_db(without_db(args), self.db_path@), true)
    }
}

/// The members of the reply to a run of `br` that failed.
pub open spec fn failed_members(args: Seq<Seq<char>>, output: Output) -> Map<Seq<char>, Json> {
    map![
        "error"@ => Json::Text("br_failed"@),
        "exit_code"@ => code_tree(output.code),
        "stderr"@ => Json::Text(output.stderr_text()),
        "stdout"@ => Json::Text(output.stdout_text()),
        "args"@ => Json::Array(text_trees(args)),
    ]
}

/// The members of the reply where `br` could not be started.
pub open spec fn spawn_failed_members(message: Seq<char>, br_bin: Seq<char>) -> Map<
    Seq<char>,
    Json,
> {
    map![
        "error"@ => Json::Text("br_spawn_failed"@),
        "message"@ => Json::Text(message),
        "br_bin"@ => Json::Text(br_bin),
    ]
}

/// The members of the reply to a passed-through command.
pub open spec fn exec_members(stdout: Seq<char>, stderr: Seq<char>, code: i32) -> Map<
    Seq<char>,
    Json,
> {
    map![
        "stdout"@ => Json::Text(stdout),
        "stderr"@ => Json::Text(stderr),
        "exit_code"@ => Json::Integer(code as int),
    ]
}

/// What a passed-through command tells the caller: the text of its output, the
/// text of its errors, and its status.
pub open spec fn exec_result(br_bin: Seq<char>, finished: Finished) -> OutcomeView {
    match finished {
        Finished::Exited(output) => OutcomeView {
            stdout: output.stdout_text(),
            stderr: output.stderr_text(),
            exit_code: match output.code {
                Some(n) => n,
                None => (-1int) as i32,
            },
        },
        Finished::NotStarted { message } => OutcomeView {
            stdout: Seq::empty(),
            stderr: "beadsd: failed to spawn br ("@ + br_bin + "): "@ + message@,
            exit_code: 127,
        },
    }
}

/// Whether a run of `br` succeeded.
pub open spec fn succeeded(finished: Finished) -> bool {
    finished is Exited && finished->Exited_0.succeeded()
}

/// The tree of the reply to a typed request whose run of `br` did not succeed.
pub open spec fn failure_tree(
    br_bin: Seq<char>,
    args: Seq<Seq<char>>,
    finished: Finished,
) -> Json {
    match finished {
        Finished::Exited(output) => Json::Object(failed_members(args, output)),
        Finished::NotStarted { message } => Json::Object(spawn_failed_members(message@, br_bin)),
    }
}

/// The members that replies have are told apart by their keys.
proof fn keys_differ()
    ensures
        "stdout"@ != "stderr"@,
        "stdout"@ != "exit_code"@,
        "stderr"@ != "exit_code"@,
        "error"@ != "exit_code"@,
        "error"@ != "stderr"@,
        "error"@ != "stdout"@,
        "error"@ != "args"@,
        "stdout"@ != "args"@,
        "stderr"@ != "args"@,
        "error"@ != "message"@,
        "error"@ != "br_bin"@,
        "exit_code"@ != "args"@,
        "message"@ != "br_bin"@,
        forall|key: Seq<char>| #[trigger]
            is_reply_key(key) ==> !(key.len() > 0 && key[0] == '$'),
{
    reveal_strlit("stdout");
    reveal_strlit("stderr");
    reveal_strlit("exit_code");
    reveal_strlit("error");
    reveal_strlit("args");
    reveal_strlit("message");
    reveal_strlit("br_bin");
    assert("stdout"@.len() == 6 && "stderr"@.len() == 6 && "exit_code"@.len() == 9);
    assert("error"@.len() == 5 && "args"@.len() == 4 && "message"@.len() == 7);
    assert("br_bin"@.len() == 6);
    assert("stdout"@[3] != "stderr"@[3]);
}

/// The keys that replies use.
spec fn is_reply_key(key: Seq<char>) -> bool {
    ||| key == "stdout"@
    ||| key == "stderr"@
    ||| key == "exit_code"@
    ||| key == "error"@
    ||| key == "args"@
    ||| key == "message"@
    ||| key == "br_bin"@
}

/// The client ends a passed-through command with the output and status that
/// the reply was made from, whatever the reply's text.
pub proof fn replies_are_replicated(
    stdout: Seq<char>,
    stderr: Seq<char>,
    code: i32,
    text: Seq<char>,
)
    ensures
        replicated(Some(Json::Object(exec_members(stdout, stderr, code))), text) == (OutcomeView {
            stdout,
            stderr,
            exit_code: code,
        }),
{
    keys_differ();
}

/// The client ends a verb with a failure on every reply that tells of a run of
/// `br` that did not succeed.
pub proof fn failures_are_reported(
    br_bin: Seq<char>,
    args: Seq<Seq<char>>,
    finished: Finished,
    text: Seq<char>,
)
    ensures
        reported(Some(failure_tree(br_bin, args, finished)), text) == failure(text),
{
    keys_differ();
}

/// The replies that tell of a failure hold no deep trees and no reserved keys.
proof fn failure_trees_are_flat(br_bin: Seq<char>, args: Seq<Seq<char>>, finished: Finished)
    ensures
        failure_tree(br_bin, args, finished) is Object,
        flat(failure_tree(br_bin, args, finished)->Object_0),
{
    keys_differ();
    let members = failure_tree(br_bin, args, finished)->Object_0;
    assert(plain(Json::Array(text_trees(args))));
    assert forall|key: Seq<char>| #[trigger] members.contains_key(key) implies is_reply_key(key)
        && plain(members[key]) by {}
}

/// The replies to passed-through commands hold no deep trees and no reserved
/// keys.
proof fn exec_trees_are_flat(stdout: Seq<char>, stderr: Seq<char>, code: i32)
    ensures
        flat(exec_members(stdout, stderr, code)),
{
    keys_differ();
    let members = exec_members(stdout, stderr, code);
    assert forall|key: Seq<char>| #[trigger] members.contains_key(key) implies is_reply_key(key)
        && plain(members[key]) by {}
}

impl BeadsServer {
    /// A service for the database at `db_path`.
    pub fn new(br_bin: String, db_path: String) -> (server: Self)
        ensures
            server.br_bin@ == br_bin@,
            server.db_path@ == db_path@,
    {
        BeadsServer { br_bin, db_path }
    }

    /// A run of `br` on `args`.
    fn invoke(&self, args: Vec<String>, exclusive: bool) -> (run: Invocation)
        ensures
            run@ == self.br(texts(args@), exclusive),
    {
        let mut env: Vec<(String, String)> = Vec::new();
        env.push(("RUST_LOG".to_owned(), "error".to_owned()));
        let run = Invocation {
            program: self.br_bin.clone(),
            args,
            env,
            stdin_empty: true,
            exclusive,
        };
        assert(run@.env == seq![("RUST_LOG"@, "error"@)]);
        run
    }

    /// The run `br <args> --db <central> --json`. Mutating runs hold the write
    /// lock; reads run without it.
    pub fn run_br(&self, args: Vec<String>, mutation: bool) -> (run: Invocation)
        ensures
            run@ == self.br_json(texts(args@), mutation),
    {
        let mut all: Vec<String> = args;
        push(&mut all, "--db".to_owned());
        push(&mut all, self.db_path.clone());
        push(&mut all, "--json".to_owned());
        assert(texts(all@) == texts(args@) + seq!["--db"@, self.db_path@, "--json"@]);
        self.invoke(all, mutation)
    }

    /// The reply to a typed request whose run of `br` had the arguments `args`
    /// and came to `finished`: what `br` printed where it succeeded, and else a
    /// JSON object with an `error`, which the client reports as a failure.
    pub fn run_br_reply(&self, args: Vec<String>, finished: Finished) -> (reply: String)
        ensures
            succeeded(finished) ==> reply@ == finished->Exited_0.stdout_text(),
            succeeded(finished) && valid_utf8(finished->Exited_0.stdout@) ==> reply@
                == decode_utf8(finished->Exited_0.stdout@),
            !succeeded(finished) ==> {
                let tree = failure_tree(self.br_bin@, texts(args@), finished);
                &&& reply@ == rendered(tree)
                &&& parsed(reply@) == Some(tree)
                &&& reported(parsed(reply@), reply@) == failure(reply@)
            },
            !succeeded(finished) && finished is Exited && valid_utf8(finished->Exited_0.stderr@)
                ==> text_member(parsed(reply@)->0, "stderr"@) == Some(
                decode_utf8(finished->Exited_0.stderr@),
            ),
            !succeeded(finished) && finished is Exited && valid_utf8(finished->Exited_0.stdout@)
                ==> text_member(parsed(reply@)->0, "stdout"@) == Some(
                decode_utf8(finished->Exited_0.stdout@),
            ),
    {
        let mut members = empty_object();
        match finished {
            Finished::Exited(output) => {
                if output.success() {
                    return to_text(&output.stdout);
                }
                insert(&mut members, "error".to_owned(), text_value("br_failed".to_owned()));
                insert(&mut members, "exit_code".to_owned(), code_value(output.code));
                insert(&mut members, "stderr".to_owned(), text_value(to_text(&output.stderr)));
                insert(&mut members, "stdout".to_owned(), text_value(to_text(&output.stdout)));
                insert(&mut members, "args".to_owned(), texts_value(args));
            },
            Finished::NotStarted { message } => {
                insert(&mut members, "error".to_owned(), text_value("br_spawn_failed".to_owned()));
                insert(&mut members, "message".to_owned(), text_value(message));
                insert(&mut members, "br_bin".to_owned(), text_value(self.br_bin.clone()));
            },
        }
        let tree = object_value(members);
        proof {
            failure_trees_are_flat(self.br_bin@, texts(args@), finished);
        }
        let reply: String = render(&tree);
        proof {
            failures_are_reported(self.br_bin@, texts(args@), finished, reply@);
            keys_differ();
        }
        reply
    }

    /// Lists ready issues.
    pub fn beads_ready(&self, req: ReadyReq) -> (run: Invocation)
        ensures
            run@ == self.br_json(req.br_args(), false),
    {
        let mut args: Vec<String> = Vec::new();
        push(&mut args, "ready".to_owned());
        if req.unassigned {
            push(&mut args, "--unassigned".to_owned());
        } else {
            push_flag(&mut args, "--assignee", req.assignee);
        }
        match req.limit {
            Some(n) => push_flag(&mut args, "--limit", Some(to_decimal(n))),
            None => {},
        }
        assert(texts(args@) == req.br_args());
        self.run_br(args, false)
    }

    /// Shows one issue.
    pub fn beads_show(&self, req: ShowReq) -> (run: Invocation)
        ensures
            run@ == self.br_json(req.br_args(), false),
    {
        let mut args: Vec<String> = Vec::new();
        push(&mut args, "show".to_owned());
        push(&mut args, req.id);
        assert(texts(args@) == req.br_args());
        self.run_br(args, false)
    }

    /// Lists issues with optional filters.
    pub fn beads_list(&self, req: ListReq) -> (run: Invocation)
        ensures
            run@ == self.br_json(req.br_args(), false),
    {
        let mut args: Vec<String> = Vec::new();
        push(&mut args, "list".to_owned());
        push_flag(&mut args, "--status", req.status);
        push_flag(&mut args, "--assignee", req.assignee);
        match req.priority_min {
            Some(n) => push_flag(&mut args, "--priority-min", Some(to_decimal(n as u32))),
            None => {},
        }
        match req.priority_max {
            Some(n) => push_flag(&mut args, "--priority-max", Some(to_decimal(n as u32))),
            None => {},
        }
        assert(texts(args@) == req.br_args());
        self.run_br(args, false)
    }

    /// Creates an issue.
    pub fn beads_create(&self, req: CreateReq) -> (run: Invocation)
        ensures
            run@ == self.br_json(req.br_args(), true),
    {
        let mut args: Vec<String> = Vec::new();
        push(&mut args, "create".to_owned());
        push(&mut args, req.title);
        push_flag(&mut args, "--type", req.issue_type);
        push_flag(&mut args, "--priority", req.priority);
        push_flag(&mut args, "--description", req.description);
        push_flag(&mut args, "--actor", req.actor);
        assert(texts(args@) == req.br_args());
        self.run_br(args, true)
    }

    /// Updates an issue's status, assignee or priority.
    pub fn beads_update(&self, req: UpdateReq) -> (run: Invocation)
        ensures
            run@ == self.br_json(req.br_args(), true),
    {
        let mut args: Vec<String> = Vec::new();
        push(&mut args, "update".to_owned());
        push(&mut args, req.id);
        push_flag(&mut args, "--status", req.status);
        push_flag(&mut args, "--assignee", req.assignee);
        push_flag(&mut args, "--priority", req.priority);
        push_flag(&mut args, "--actor", req.actor);
        assert(texts(args@) == req.br_args());
        self.run_br(args, true)
    }

    /// Claims an issue for an actor.
    pub fn beads_claim(&self, req: ClaimReq) -> (run: Invocation)
        ensures
            run@ == self.br_json(req.br_args(), true),
    {
        let mut args: Vec<String> = Vec::new();
        push(&mut args, "update".to_owned());
        push(&mut args, req.id);
        push(&mut args, "--claim".to_owned());
        push(&mut args, "--actor".to_owned());
        push(&mut args, req.actor);
        assert(texts(args@) == req.br_args());
        self.run_br(args, true)
    }

    /// Releases a claim: clears the assignee and sets the status back to open.
    pub fn beads_unclaim(&self, req: UnclaimReq) -> (run: Invocation)
        ensures
            run@ == self.br_json(req.br_args(), true),
    {
        let mut args: Vec<String> = Vec::new();
        push(&mut args, "update".to_owned());
        push(&mut args, req.id);
        push(&mut args, "--assignee".to_owned());
        push(&mut args, String::new());
        push(&mut args, "--status".to_owned());
        push(&mut args, "open".to_owned());
        push_flag(&mut args, "--actor", req.actor);
        assert(texts(args@) == req.br_args());
        self.run_br(args, true)
    }

    /// Closes an issue.
    pub fn beads_close(&self, req: CloseReq) -> (run: Invocation)
        ensures
            run@ == self.br_json(req.br_args(), true),
    {
        let mut args: Vec<String> = Vec::new();
        push(&mut args, "close".to_owned());
        push(&mut args, req.id);
        push_flag(&mut args, "--reason", req.reason);
        push_flag(&mut args, "--actor", req.actor);
        assert(texts(args@) == req.br_args());
        self.run_br(args, true)
    }

    /// Runs an arbitrary `br` command line on the central database. Every such
    /// run holds the write lock: reads cannot be told from writes by the
    /// arguments.
    pub fn br_exec(&self, req: ExecReq) -> (run: Invocation)
        ensures
            run@ == self.br_passthrough(texts(req.args@)),
    {
        let kept: Vec<String> = strip_db_args(req.args);
        self.invoke(force_db(kept, self.db_path.as_str()), true)
    }

    /// The reply to a passed-through command that came to `finished`: a JSON
    /// object from which the client replicates the command's output and status.
    pub fn br_exec_reply(&self, finished: Finished) -> (reply: String)
        ensures
            ({
                let result = exec_result(self.br_bin@, finished);
                let tree = Json::Object(
                    exec_members(result.stdout, result.stderr, result.exit_code),
                );
                &&& reply@ == rendered(tree)
                &&& parsed(reply@) == Some(tree)
                &&& replicated(parsed(reply@), reply@) == result
            }),
            finished matches Finished::Exited(output) ==> (output.code matches Some(n)
                ==> replicated(parsed(reply@), reply@).exit_code == n),
            finished is Exited && valid_utf8(finished->Exited_0.stdout@) ==> replicated(
                parsed(reply@),
                reply@,
            ).stdout == decode_utf8(finished->Exited_0.stdout@),
            finished is Exited && valid_utf8(finished->Exited_0.stderr@) ==> replicated(
                parsed(reply@),
                reply@,
            ).stderr == decode_utf8(finished->Exited_0.stderr@),
    {
        let ghost result = exec_result(self.br_bin@, finished);
        let stdout: String;
        let stderr: String;
        let code: i32;
        match finished {
            Finished::Exited(output) => {
                stdout = to_text(&output.stdout);
                stderr = to_text(&output.stderr);
                code = match output.code {
                    Some(n) => n,
                    None => -1,
                };
            },
            Finished::NotStarted { message } => {
                stdout = String::new();
                let mut s: String = "beadsd: failed to spawn br (".to_owned();
                s.append(self.br_bin.as_str());
                s.append("): ");
                s.append(message.as_str());
                stderr = s;
                code = 127;
            },
        }
        let mut members = empty_object();
        insert(&mut members, "stdout".to_owned(), text_value(stdout));
        insert(&mut members, "stderr".to_owned(), text_value(stderr));
        insert(&mut members, "exit_code".to_owned(), code_value(Some(code)));
        let tree = object_value(members);
        proof {
            exec_trees_are_flat(result.stdout, result.stderr, result.exit_code);
        }
        let reply: String = render(&tree);
        proof {
            replies_are_replicated(result.stdout, result.stderr, result.exit_code, reply@);
        }
        reply
    }
}

/// Every typed request asks for the central database and JSON output: its own
/// arguments come first, unchanged, and then the database and the format.
pub proof fn typed_runs_name_the_central_db(
    server: BeadsServer,
    args: Seq<Seq<char>>,
    mutation: bool,
)
    ensures
        ({
            let run = server.br_json(args, mutation).args;
            let n = run.len();
            &&& n == args.len() + 3
            &&& run.take(n - 3) == args
            &&& run[n - 3] == "--db"@
            &&& run[n - 2] == server.db_path@
            &&& run[n - 1] == "--json"@
        }),
{
    let run = server.br_json(args, mutation).args;
    assert(run.take(run.len() - 3) == args);
}

/// A passed-through command chooses the central database and no other: one place
/// among its arguments chooses a database, the next argument is the central one,
/// and both stand before every `--`, where they count as options.
pub proof fn passthrough_stays_on_the_central_db(server: BeadsServer, args: Seq<Seq<char>>)
    ensures
        ({
            let run = server.br_passthrough(args).args;
            let n = options_end(without_db(args));
            &&& 0 <= n <= run.len() - 2
            &&& run[n] == "--db"@
            &&& run[n + 1] == server.db_path@
            &&& forall|i: int|
                0 <= i < run.len() && i != n && i != n + 1 ==> !chooses_db(#[trigger] run[i])
            &&& forall|i: int| 0 <= i < n ==> #[trigger] run[i] != "--"@
            &&& n + 2 < run.len() ==> run[n + 2] == "--"@
        }),
{
    let kept = without_db(args);
    let run = server.br_passthrough(args).args;
    let n = options_end(kept);
    stripped_args_choose_no_db(args);
    options_end_at_the_first_dashes(kept);
    assert forall|i: int| 0 <= i < run.len() && i != n && i != n + 1 implies !chooses_db(
        #[trigger] run[i],
    ) by {
        if i < n {
            assert(run[i] == kept[i]);
        } else {
            assert(run[i] == kept[i - 2]);
        }
    }
    assert forall|i: int| 0 <= i < n implies #[trigger] run[i] != "--"@ by {
        assert(run[i] == kept[i]);
    }
    if n + 2 < run.len() {
        assert(run[n + 2] == kept[n]);
    }
}

/// Apart from the central database, a passed-through command runs on its own
/// arguments, in their order, where they choose no database themselves.
pub proof fn passthrough_is_verbatim(server: BeadsServer, args: Seq<Seq<char>>)
    requires
        forall|i: int| 0 <= i < args.len() ==> !chooses_db(#[trigger] args[i]),
    ensures
        ({
            let run = server.br_passthrough(args).args;
            let n = options_end(args);
            &&& 0 <= n <= args.len()
            &&& run.take(n) + run.skip(n + 2) == args
        }),
{
    args_without_db_are_kept(args);
    options_end_at_the_first_dashes(args);
    let run = server.br_passthrough(args).args;
    let n = options_end(args);
    assert(run.take(n) == args.take(n));
    assert(run.skip(n + 2) == args.skip(n));
    assert(args.take(n) + args.skip(n) == args);
}

/// A caller's own choice of a database, in any form and in any place, makes no
/// difference to what runs.
pub proof fn caller_db_makes_no_difference(
    server: BeadsServer,
    before: Seq<Seq<char>>,
    db: Seq<char>,
    after: Seq<Seq<char>>,
)
    requires
        before.len() > 0 ==> before.last() != "--db"@,
    ensures
        server.br_passthrough(before + seq!["--db"@, db] + after) == server.br_passthrough(
            before + after,
        ),
        server.br_passthrough(before + seq!["--db="@ + db] + after) == server.br_passthrough(
            before + after,
        ),
        server.br_passthrough(before + seq!["--no-db"@] + after) == server.br_passthrough(
            before + after,
        ),
{
    db_choices_are_dropped(before, db, after);
}

/// A typed request runs `br` on the arguments it is given, unchanged and in their
/// order, then on the central database and with JSON output; `br` is quiet but
/// for errors and has nothing to read, and holds the lock where it changes
/// something.
pub proof fn typed_runs_are_on_the_central_db(
    server: BeadsServer,
    args: Vec<String>,
    mutation: bool,
    run: Invocation,
)
    requires
        call_ensures(BeadsServer::run_br, (&server, args, mutation), run),
    ensures
        run.program@ == server.br_bin@,
        run.args@.len() == args@.len() + 3,
        forall|i: int| 0 <= i < args@.len() ==> (#[trigger] run.args@[i])@ == args@[i]@,
        run.args@[args@.len() as int]@ == "--db"@,
        run.args@[args@.len() as int + 1]@ == server.db_path@,
        run.args@[args@.len() as int + 2]@ == "--json"@,
        run.env@.len() == 1,
        run.env@[0].0@ == "RUST_LOG"@,
        run.env@[0].1@ == "error"@,
        run.stdin_empty,
        run.exclusive == mutation,
{
    let all = texts(run.args@);
    let given = texts(args@);
    texts_are_those_of_the_strings(run.args@);
    texts_are_those_of_the_strings(args@);
    assert(run@ == server.br_json(given, mutation));
    assert(all == given + seq!["--db"@, server.db_path@, "--json"@]);
    assert forall|i: int| 0 <= i < args@.len() implies (#[trigger] run.args@[i])@ == args@[i]@ by {
        assert(all[i] == given[i]);
    }
    assert(all[args@.len() as int] == "--db"@);
    assert(all[args@.len() as int + 1] == server.db_path@);
    assert(all[args@.len() as int + 2] == "--json"@);
    environment_is_quiet(server, run, run@.args, mutation);
}

/// The environment of every run of `br`.
proof fn environment_is_quiet(
    server: BeadsServer,
    run: Invocation,
    args: Seq<Seq<char>>,
    exclusive: bool,
)
    requires
        run@ == server.br(args, exclusive),
    ensures
        run.env@.len() == 1,
        run.env@[0].0@ == "RUST_LOG"@,
        run.env@[0].1@ == "error"@,
{
    let env = run@.env;
    assert(env == seq![("RUST_LOG"@, "error"@)]);
    assert(env.len() == run.env@.len());
    assert(env[0] == (run.env@[0].0@, run.env@[0].1@));
}

/// A request for ready issues becomes `ready` with one filter at most: the
/// unassigned issues where those are asked for, else those of the assignee that
/// is given; and the limit reaches `br` where there is one.
pub proof fn ready_filters_reach_br(server: BeadsServer, req: ReadyReq, run: Invocation)
    requires
        call_ensures(BeadsServer::beads_ready, (&server, req), run),
    ensures
        !run.exclusive,
        run.stdin_empty,
        run.program@ == server.br_bin@,
        run.env@.len() == 1 && run.env@[0].0@ == "RUST_LOG"@ && run.env@[0].1@ == "error"@,
        ({
            let n0: int = if req.unassigned {
                1
            } else if req.assignee is Some {
                2
            } else {
                0
            };
            let n1: int = if req.limit is Some {
                2
            } else {
                0
            };
            let n: int = 1 + n0 + n1;
            &&& run.args@.len() == n + 3
            &&& run.args@[0]@ == "ready"@
            &&& req.unassigned ==> run.args@[1]@ == "--unassigned"@
            &&& !req.unassigned && req.assignee is Some ==> run.args@[1]@ == "--assignee"@
                && run.args@[2]@ == req.assignee->0@
            &&& req.limit matches Some(v) ==> {
                &&& run.args@[1 + n0]@ == "--limit"@
                &&& run.args@[2
                + n0]@ == decimal(v as nat)
            }
            &&& run.args@[n]@ == "--db"@
            &&& run.args@[n + 1]@ == server.db_path@
            &&& run.args@[n + 2]@ == "--json"@
        }),
{
    let all = texts(run.args@);
    texts_are_those_of_the_strings(run.args@);
    assert(run@ == server.br_json(req.br_args(), false));
    environment_is_quiet(server, run, run@.args, false);
    assert(all == req.br_args() + seq!["--db"@, server.db_path@, "--json"@]);
    let n0: int = if req.unassigned {
        1
    } else if req.assignee is Some {
        2
    } else {
        0
    };
    let n1: int = if req.limit is Some {
        2
    } else {
        0
    };
    let n: int = 1 + n0 + n1;
    assert(req.br_args().len() == n);
    assert(all[0] == run.args@[0]@);
    if req.unassigned {
        assert(all[1] == "--unassigned"@);
    } else if req.assignee is Some {
        assert(all[1] == "--assignee"@);
        assert(all[2] == req.assignee->0@);
    }
    if req.limit is Some {
        assert(all[1 + n0] == "--limit"@);
        assert(all[2 + n0] == decimal(req.limit->0 as nat));
    }
    assert(all[n] == run.args@[n]@);
    assert(all[n + 1] == run.args@[n + 1]@);
    assert(all[n + 2] == run.args@[n + 2]@);
}

/// A request to show an issue becomes `show` and the issue on the central
/// database, as JSON, without the lock.
pub proof fn shows_reach_br(server: BeadsServer, req: ShowReq, run: Invocation)
    requires
        call_ensures(BeadsServer::beads_show, (&server, req), run),
    ensures
        run.exclusive == false,
        run.stdin_empty,
        run.program@ == server.br_bin@,
        run.env@.len() == 1 && run.env@[0].0@ == "RUST_LOG"@ && run.env@[0].1@ == "error"@,
        ({
            let n: int = 2;
            &&& run.args@.len() == n + 3
            &&& run.args@[0]@ == "show"@
            &&& run.args@[1]@ == req.id@
            &&& run.args@[n]@ == "--db"@
            &&& run.args@[n + 1]@ == server.db_path@
            &&& run.args@[n + 2]@ == "--json"@
        }),
{
    let all = texts(run.args@);
    texts_are_those_of_the_strings(run.args@);
    assert(run@ == server.br_json(req.br_args(), false));
    environment_is_quiet(server, run, run@.args, false);
    assert(all == req.br_args() + seq!["--db"@, server.db_path@, "--json"@]);
    let n: int = 2;
    assert(req.br_args().len() == n);
    assert(all[0] == run.args@[0]@);
    assert(all[1] == run.args@[1]@);
    assert(all[n] == run.args@[n]@);
    assert(all[n + 1] == run.args@[n + 1]@);
    assert(all[n + 2] == run.args@[n + 2]@);
}

/// A request to list issues becomes the command that `br` has for it, and each
/// field reaches `br` on its own: where it has a value, its flag stands in its
/// place and is directly followed by that value, and where it has none, its flag
/// stands in no place of a flag, whatever the other fields are.
pub proof fn filters_reach_br(server: BeadsServer, req: ListReq, run: Invocation)
    requires
        call_ensures(BeadsServer::beads_list, (&server, req), run),
    ensures
        run.exclusive == false,
        run.stdin_empty,
        run.program@ == server.br_bin@,
        run.env@.len() == 1 && run.env@[0].0@ == "RUST_LOG"@ && run.env@[0].1@ == "error"@,
        ({
            let n0: int = if req.status is Some {
                2
            } else {
                0
            };
            let n1: int = if req.assignee is Some {
                2
            } else {
                0
            };
            let n2: int = if req.priority_min is Some {
                2
            } else {
                0
            };
            let n3: int = if req.priority_max is Some {
                2
            } else {
                0
            };
            let n: int = 1 + n0 + n1 + n2 + n3;
            &&& run.args@.len() == n + 3
            &&& run.args@[0]@ == "list"@
            &&& req.status matches Some(v) ==> {
                &&& run.args@[1]@ == "--status"@
                &&& run.args@[2]@ == v@
            }
            &&& req.assignee matches Some(v) ==> {
                &&& run.args@[1 + n0]@ == "--assignee"@
                &&& run.args@[2 + n0]@ == v@
            }
            &&& req.priority_min matches Some(v) ==> {
                &&& run.args@[1 + n0 + n1]@ == "--priority-min"@
                &&& run.args@[2 + n0 + n1]@ == decimal(v as nat)
            }
            &&& req.priority_max matches Some(v) ==> {
                &&& run.args@[1 + n0 + n1 + n2]@ == "--priority-max"@
                &&& run.args@[2 + n0 + n1 + n2]@ == decimal(v as nat)
            }
            &&& run.args@[n]@ == "--db"@
            &&& run.args@[n + 1]@ == server.db_path@
            &&& run.args@[n + 2]@ == "--json"@
            &&& req.status is None ==> forall|i: int|
                1 <= i < n && i % 2 == 1 ==> (#[trigger] run.args@[i])@ != "--status"@
            &&& req.assignee is None ==> forall|i: int|
                1 <= i < n && i % 2 == 1 ==> (#[trigger] run.args@[i])@ != "--assignee"@
            &&& req.priority_min is None ==> forall|i: int|
                1 <= i < n && i % 2 == 1 ==> (#[trigger] run.args@[i])@ != "--priority-min"@
            &&& req.priority_max is None ==> forall|i: int|
                1 <= i < n && i % 2 == 1 ==> (#[trigger] run.args@[i])@ != "--priority-max"@
        }),
{
    let all = texts(run.args@);
    texts_are_those_of_the_strings(run.args@);
    assert(run@ == server.br_json(req.br_args(), false));
    environment_is_quiet(server, run, run@.args, false);
    assert(all == req.br_args() + seq!["--db"@, server.db_path@, "--json"@]);
    let n0: int = if req.status is Some {
        2
    } else {
        0
    };
    let n1: int = if req.assignee is Some {
        2
    } else {
        0
    };
    let n2: int = if req.priority_min is Some {
        2
    } else {
        0
    };
    let n3: int = if req.priority_max is Some {
        2
    } else {
        0
    };
    let n: int = 1 + n0 + n1 + n2 + n3;
    assert(req.br_args().len() == n);
    assert(all[0] == run.args@[0]@);
    if req.status is Some {
        assert(all[1] == "--status"@);
        assert(all[2] == req.status->0@);
    }
    if req.assignee is Some {
        assert(all[1 + n0] == "--assignee"@);
        assert(all[2 + n0] == req.assignee->0@);
    }
    if req.priority_min is Some {
        assert(all[1 + n0 + n1] == "--priority-min"@);
        assert(all[2 + n0 + n1] == decimal(req.priority_min->0 as nat));
    }
    if req.priority_max is Some {
        assert(all[1 + n0 + n1 + n2] == "--priority-max"@);
        assert(all[2 + n0 + n1 + n2] == decimal(req.priority_max->0 as nat));
    }
    assert(all[n] == run.args@[n]@);
    assert(all[n + 1] == run.args@[n + 1]@);
    assert(all[n + 2] == run.args@[n + 2]@);
    flags_differ();
    assert forall|i: int| 1 <= i < n && i % 2 == 1 implies {
        ||| req.status is Some && #[trigger] all[i] == "--status"@
        ||| req.assignee is Some && all[i] == "--assignee"@
        ||| req.priority_min is Some && all[i] == "--priority-min"@
        ||| req.priority_max is Some && all[i] == "--priority-max"@
    } by {
        assert({
            ||| req.status is Some && i == 1
            ||| req.assignee is Some && i == 1 + n0
            ||| req.priority_min is Some && i == 1 + n0 + n1
            ||| req.priority_max is Some && i == 1 + n0 + n1 + n2
        });
    }
    if req.status is None {
        assert forall|i: int| 1 <= i < n && i % 2 == 1 implies (#[trigger] run.args@[i])@
            != "--status"@ by {
            assert(all[i] == run.args@[i]@);
        }
    }
    if req.assignee is None {
        assert forall|i: int| 1 <= i < n && i % 2 == 1 implies (#[trigger] run.args@[i])@
            != "--assignee"@ by {
            assert(all[i] == run.args@[i]@);
        }
    }
    if req.priority_min is None {
        assert forall|i: int| 1 <= i < n && i % 2 == 1 implies (#[trigger] run.args@[i])@
            != "--priority-min"@ by {
            assert(all[i] == run.args@[i]@);
        }
    }
    if req.priority_max is None {
        assert forall|i: int| 1 <= i < n && i % 2 == 1 implies (#[trigger] run.args@[i])@
            != "--priority-max"@ by {
            assert(all[i] == run.args@[i]@);
        }
    }
}

/// A request for a new issue becomes the command that `br` has for it, and each
/// field reaches `br` on its own: where it has a value, its flag stands in its
/// place and is directly followed by that value, and where it has none, its flag
/// stands in no place of a flag, whatever the other fields are.
pub proof fn new_issues_reach_br(server: BeadsServer, req: CreateReq, run: Invocation)
    requires
        call_ensures(BeadsServer::beads_create, (&server, req), run),
    ensures
        run.exclusive == true,
        run.stdin_empty,
        run.program@ == server.br_bin@,
        run.env@.len() == 1 && run.env@[0].0@ == "RUST_LOG"@ && run.env@[0].1@ == "error"@,
        ({
            let n0: int = if req.issue_type is Some {
                2
            } else {
                0
            };
            let n1: int = if req.priority is Some {
                2
            } else {
                0
            };
            let n2: int = if req.description is Some {
                2
            } else {
                0
            };
            let n3: int = if req.actor is Some {
                2
            } else {
                0
            };
            let n: int = 2 + n0 + n1 + n2 + n3;
            &&& run.args@.len() == n + 3
            &&& run.args@[0]@ == "create"@
            &&& run.args@[1]@ == req.title@
            &&& req.issue_type matches Some(v) ==> {
                &&& run.args@[2]@ == "--type"@
                &&& run.args@[3]@ == v@
            }
            &&& req.priority matches Some(v) ==> {
                &&& run.args@[2 + n0]@ == "--priority"@
                &&& run.args@[3 + n0]@ == v@
            }
            &&& req.description matches Some(v) ==> {
                &&& run.args@[2 + n0 + n1]@ == "--description"@
                &&& run.args@[3 + n0 + n1]@ == v@
            }
            &&& req.actor matches Some(v) ==> {
                &&& run.args@[2 + n0 + n1 + n2]@ == "--actor"@
                &&& run.args@[3 + n0 + n1 + n2]@ == v@
            }
            &&& run.args@[n]@ == "--db"@
            &&& run.args@[n + 1]@ == server.db_path@
            &&& run.args@[n + 2]@ == "--json"@
            &&& req.issue_type is None ==> forall|i: int|
                2 <= i < n && i % 2 == 0 ==> (#[trigger] run.args@[i])@ != "--type"@
            &&& req.priority is None ==> forall|i: int|
                2 <= i < n && i % 2 == 0 ==> (#[trigger] run.args@[i])@ != "--priority"@
            &&& req.description is None ==> forall|i: int|
                2 <= i < n && i % 2 == 0 ==> (#[trigger] run.args@[i])@ != "--description"@
            &&& req.actor is None ==> forall|i: int|
                2 <= i < n && i % 2 == 0 ==> (#[trigger] run.args@[i])@ != "--actor"@
        }),
{
    let all = texts(run.args@);
    texts_are_those_of_the_strings(run.args@);
    assert(run@ == server.br_json(req.br_args(), true));
    environment_is_quiet(server, run, run@.args, true);
    assert(all == req.br_args() + seq!["--db"@, server.db_path@, "--json"@]);
    let n0: int = if req.issue_type is Some {
        2
    } else {
        0
    };
    let n1: int = if req.priority is Some {
        2
    } else {
        0
    };
    let n2: int = if req.description is Some {
        2
    } else {
        0
    };
    let n3: int = if req.actor is Some {
        2
    } else {
        0
    };
    let n: int = 2 + n0 + n1 + n2 + n3;
    assert(req.br_args().len() == n);
    assert(all[0] == run.args@[0]@);
    assert(all[1] == run.args@[1]@);
    if req.issue_type is Some {
        assert(all[2] == "--type"@);
        assert(all[3] == req.issue_type->0@);
    }
    if req.priority is Some {
        assert(all[2 + n0] == "--priority"@);
        assert(all[3 + n0] == req.priority->0@);
    }
    if req.description is Some {
        assert(all[2 + n0 + n1] == "--description"@);
        assert(all[3 + n0 + n1] == req.description->0@);
    }
    if req.actor is Some {
        assert(all[2 + n0 + n1 + n2] == "--actor"@);
        assert(all[3 + n0 + n1 + n2] == req.actor->0@);
    }
    assert(all[n] == run.args@[n]@);
    assert(all[n + 1] == run.args@[n + 1]@);
    assert(all[n + 2] == run.args@[n + 2]@);
    flags_differ();
    assert forall|i: int| 2 <= i < n && i % 2 == 0 implies {
        ||| req.issue_type is Some && #[trigger] all[i] == "--type"@
        ||| req.priority is Some && all[i] == "--priority"@
        ||| req.description is Some && all[i] == "--description"@
        ||| req.actor is Some && all[i] == "--actor"@
    } by {
        assert({
            ||| req.issue_type is Some && i == 2
            ||| req.priority is Some && i == 2 + n0
            ||| req.description is Some && i == 2 + n0 + n1
            ||| req.actor is Some && i == 2 + n0 + n1 + n2
        });
    }
    if req.issue_type is None {
        assert forall|i: int| 2 <= i < n && i % 2 == 0 implies (#[trigger] run.args@[i])@
            != "--type"@ by {
            assert(all[i] == run.args@[i]@);
        }
    }
    if req.priority is None {
        assert forall|i: int| 2 <= i < n && i % 2 == 0 implies (#[trigger] run.args@[i])@
            != "--priority"@ by {
            assert(all[i] == run.args@[i]@);
        }
    }
    if req.description is None {
        assert forall|i: int| 2 <= i < n && i % 2 == 0 implies (#[trigger] run.args@[i])@
            != "--description"@ by {
            assert(all[i] == run.args@[i]@);
        }
    }
    if req.actor is None {
        assert forall|i: int| 2 <= i < n && i % 2 == 0 implies (#[trigger] run.args@[i])@
            != "--actor"@ by {
            assert(all[i] == run.args@[i]@);
        }
    }
}

/// A request to update an issue becomes the command that `br` has for it, and each
/// field reaches `br` on its own: where it has a value, its flag stands in its
/// place and is directly followed by that value, and where it has none, its flag
/// stands in no place of a flag, whatever the other fields are.
pub proof fn updates_reach_br(server: BeadsServer, req: UpdateReq, run: Invocation)
    requires
        call_ensures(BeadsServer::beads_update, (&server, req), run),
    ensures
        run.exclusive == true,
        run.stdin_empty,
        run.program@ == server.br_bin@,
        run.env@.len() == 1 && run.env@[0].0@ == "RUST_LOG"@ && run.env@[0].1@ == "error"@,
        ({
            let n0: int = if req.status is Some {
                2
            } else {
                0
            };
            let n1: int = if req.assignee is Some {
                2
            } else {
                0
            };
            let n2: int = if req.priority is Some {
                2
            } else {
                0
            };
            let n3: int = if req.actor is Some {
                2
            } else {
                0
            };
            let n: int = 2 + n0 + n1 + n2 + n3;
            &&& run.args@.len() == n + 3
            &&& run.args@[0]@ == "update"@
            &&& run.args@[1]@ == req.id@
            &&& req.status matches Some(v) ==> {
                &&& run.args@[2]@ == "--status"@
                &&& run.args@[3]@ == v@
            }
            &&& req.assignee matches Some(v) ==> {
                &&& run.args@[2 + n0]@ == "--assignee"@
                &&& run.args@[3 + n0]@ == v@
            }
            &&& req.priority matches Some(v) ==> {
                &&& run.args@[2 + n0 + n1]@ == "--priority"@
                &&& run.args@[3 + n0 + n1]@ == v@
            }
            &&& req.actor matches Some(v) ==> {
                &&& run.args@[2 + n0 + n1 + n2]@ == "--actor"@
                &&& run.args@[3 + n0 + n1 + n2]@ == v@
            }
            &&& run.args@[n]@ == "--db"@
            &&& run.args@[n + 1]@ == server.db_path@
            &&& run.args@[n + 2]@ == "--json"@
            &&& req.status is None ==> forall|i: int|
                2 <= i < n && i % 2 == 0 ==> (#[trigger] run.args@[i])@ != "--status"@
            &&& req.assignee is None ==> forall|i: int|
                2 <= i < n && i % 2 == 0 ==> (#[trigger] run.args@[i])@ != "--assignee"@
            &&& req.priority is None ==> forall|i: int|
                2 <= i < n && i % 2 == 0 ==> (#[trigger] run.args@[i])@ != "--priority"@
            &&& req.actor is None ==> forall|i: int|
                2 <= i < n && i % 2 == 0 ==> (#[trigger] run.args@[i])@ != "--actor"@
        }),
{
    let all = texts(run.args@);
    texts_are_those_of_the_strings(run.args@);
    assert(run@ == server.br_json(req.br_args(), true));
    environment_is_quiet(server, run, run@.args, true);
    assert(all == req.br_args() + seq!["--db"@, server.db_path@, "--json"@]);
    let n0: int = if req.status is Some {
        2
    } else {
        0
    };
    let n1: int = if req.assignee is Some {
        2
    } else {
        0
    };
    let n2: int = if req.priority is Some {
        2
    } else {
        0
    };
    let n3: int = if req.actor is Some {
        2
    } else {
        0
    };
    let n: int = 2 + n0 + n1 + n2 + n3;
    assert(req.br_args().len() == n);
    assert(all[0] == run.args@[0]@);
    assert(all[1] == run.args@[1]@);
    if req.status is Some {
        assert(all[2] == "--status"@);
        assert(all[3] == req.status->0@);
    }
    if req.assignee is Some {
        assert(all[2 + n0] == "--assignee"@);
        assert(all[3 + n0] == req.assignee->0@);
    }
    if req.priority is Some {
        assert(all[2 + n0 + n1] == "--priority"@);
        assert(all[3 + n0 + n1] == req.priority->0@);
    }
    if req.actor is Some {
        assert(all[2 + n0 + n1 + n2] == "--actor"@);
        assert(all[3 + n0 + n1 + n2] == req.actor->0@);
    }
    assert(all[n] == run.args@[n]@);
    assert(all[n + 1] == run.args@[n + 1]@);
    assert(all[n + 2] == run.args@[n + 2]@);
    flags_differ();
    assert forall|i: int| 2 <= i < n && i % 2 == 0 implies {
        ||| req.status is Some && #[trigger] all[i] == "--status"@
        ||| req.assignee is Some && all[i] == "--assignee"@
        ||| req.priority is Some && all[i] == "--priority"@
        ||| req.actor is Some && all[i] == "--actor"@
    } by {
        assert({
            ||| req.status is Some && i == 2
            ||| req.assignee is Some && i == 2 + n0
            ||| req.priority is Some && i == 2 + n0 + n1
            ||| req.actor is Some && i == 2 + n0 + n1 + n2
        });
    }
    if req.status is None {
        assert forall|i: int| 2 <= i < n && i % 2 == 0 implies (#[trigger] run.args@[i])@
            != "--status"@ by {
            assert(all[i] == run.args@[i]@);
        }
    }
    if req.assignee is None {
        assert forall|i: int| 2 <= i < n && i % 2 == 0 implies (#[trigger] run.args@[i])@
            != "--assignee"@ by {
            assert(all[i] == run.args@[i]@);
        }
    }
    if req.priority is None {
        assert forall|i: int| 2 <= i < n && i % 2 == 0 implies (#[trigger] run.args@[i])@
            != "--priority"@ by {
            assert(all[i] == run.args@[i]@);
        }
    }
    if req.actor is None {
        assert forall|i: int| 2 <= i < n && i % 2 == 0 implies (#[trigger] run.args@[i])@
            != "--actor"@ by {
            assert(all[i] == run.args@[i]@);
        }
    }
}

/// A request to claim an issue becomes an update of that issue that claims it in
/// the actor's name.
pub proof fn claims_reach_br(server: BeadsServer, req: ClaimReq, run: Invocation)
    requires
        call_ensures(BeadsServer::beads_claim, (&server, req), run),
    ensures
        run.exclusive == true,
        run.stdin_empty,
        run.program@ == server.br_bin@,
        run.env@.len() == 1 && run.env@[0].0@ == "RUST_LOG"@ && run.env@[0].1@ == "error"@,
        ({
            let n: int = 5;
            &&& run.args@.len() == n + 3
            &&& run.args@[0]@ == "update"@
            &&& run.args@[1]@ == req.id@
            &&& run.args@[2]@ == "--claim"@
            &&& run.args@[3]@ == "--actor"@
            &&& run.args@[4]@ == req.actor@
            &&& run.args@[n]@ == "--db"@
            &&& run.args@[n + 1]@ == server.db_path@
            &&& run.args@[n + 2]@ == "--json"@
        }),
{
    let all = texts(run.args@);
    texts_are_those_of_the_strings(run.args@);
    assert(run@ == server.br_json(req.br_args(), true));
    environment_is_quiet(server, run, run@.args, true);
    assert(all == req.br_args() + seq!["--db"@, server.db_path@, "--json"@]);
    let n: int = 5;
    assert(req.br_args().len() == n);
    assert(all[0] == run.args@[0]@);
    assert(all[1] == run.args@[1]@);
    assert(all[2] == run.args@[2]@);
    assert(all[3] == run.args@[3]@);
    assert(all[4] == run.args@[4]@);
    assert(all[n] == run.args@[n]@);
    assert(all[n + 1] == run.args@[n + 1]@);
    assert(all[n + 2] == run.args@[n + 2]@);
}

/// A request to release an issue becomes an update of that issue that clears its
/// assignee and sets it back to `open`. The actor reaches `br` where there is one.
pub proof fn releases_reach_br(server: BeadsServer, req: UnclaimReq, run: Invocation)
    requires
        call_ensures(BeadsServer::beads_unclaim, (&server, req), run),
    ensures
        run.exclusive == true,
        run.stdin_empty,
        run.program@ == server.br_bin@,
        run.env@.len() == 1 && run.env@[0].0@ == "RUST_LOG"@ && run.env@[0].1@ == "error"@,
        ({
            let n0: int = if req.actor is Some {
                2
            } else {
                0
            };
            let n: int = 6 + n0;
            &&& run.args@.len() == n + 3
            &&& run.args@[0]@ == "update"@
            &&& run.args@[1]@ == req.id@
            &&& run.args@[2]@ == "--assignee"@
            &&& run.args@[3]@.len() == 0
            &&& run.args@[4]@ == "--status"@
            &&& run.args@[5]@ == "open"@
            &&& req.actor matches Some(v) ==> {
                &&& run.args@[6]@ == "--actor"@
                &&& run.args@[7]@ == v@
            }
            &&& run.args@[n]@ == "--db"@
            &&& run.args@[n + 1]@ == server.db_path@
            &&& run.args@[n + 2]@ == "--json"@
            &&& req.actor is None ==> forall|i: int|
                6 <= i < n && i % 2 == 0 ==> (#[trigger] run.args@[i])@ != "--actor"@
        }),
{
    let all = texts(run.args@);
    texts_are_those_of_the_strings(run.args@);
    assert(run@ == server.br_json(req.br_args(), true));
    environment_is_quiet(server, run, run@.args, true);
    assert(all == req.br_args() + seq!["--db"@, server.db_path@, "--json"@]);
    let n0: int = if req.actor is Some {
        2
    } else {
        0
    };
    let n: int = 6 + n0;
    assert(req.br_args().len() == n);
    assert(all[0] == run.args@[0]@);
    assert(all[1] == run.args@[1]@);
    assert(all[2] == run.args@[2]@);
    assert(all[3] == run.args@[3]@);
    assert(all[4] == run.args@[4]@);
    assert(all[5] == run.args@[5]@);
    assert(all[3] == Seq::<char>::empty());
    if req.actor is Some {
        assert(all[6] == "--actor"@);
        assert(all[7] == req.actor->0@);
    }
    assert(all[n] == run.args@[n]@);
    assert(all[n + 1] == run.args@[n + 1]@);
    assert(all[n + 2] == run.args@[n + 2]@);
    flags_differ();
    if req.actor is None {
        assert forall|i: int| 6 <= i < n && i % 2 == 0 implies (#[trigger] run.args@[i])@
            != "--actor"@ by {
            assert(all[i] == run.args@[i]@);
        }
    }
}

/// A request to close an issue becomes the command that `br` has for it, and each
/// field reaches `br` on its own: where it has a value, its flag stands in its
/// place and is directly followed by that value, and where it has none, its flag
/// stands in no place of a flag, whatever the other fields are.
pub proof fn closings_reach_br(server: BeadsServer, req: CloseReq, run: Invocation)
    requires
        call_ensures(BeadsServer::beads_close, (&server, req), run),
    ensures
        run.exclusive == true,
        run.stdin_empty,
        run.program@ == server.br_bin@,
        run.env@.len() == 1 && run.env@[0].0@ == "RUST_LOG"@ && run.env@[0].1@ == "error"@,
        ({
            let n0: int = if req.reason is Some {
                2
            } else {
                0
            };
            let n1: int = if req.actor is Some {
                2
            } else {
                0
            };
            let n: int = 2 + n0 + n1;
            &&& run.args@.len() == n + 3
            &&& run.args@[0]@ == "close"@
            &&& run.args@[1]@ == req.id@
            &&& req.reason matches Some(v) ==> {
                &&& run.args@[2]@ == "--reason"@
                &&& run.args@[3]@ == v@
            }
            &&& req.actor matches Some(v) ==> {
                &&& run.args@[2 + n0]@ == "--actor"@
                &&& run.args@[3 + n0]@ == v@
            }
            &&& run.args@[n]@ == "--db"@
            &&& run.args@[n + 1]@ == server.db_path@
            &&& run.args@[n + 2]@ == "--json"@
            &&& req.reason is None ==> forall|i: int|
                2 <= i < n && i % 2 == 0 ==> (#[trigger] run.args@[i])@ != "--reason"@
            &&& req.actor is None ==> forall|i: int|
                2 <= i < n && i % 2 == 0 ==> (#[trigger] run.args@[i])@ != "--actor"@
        }),
{
    let all = texts(run.args@);
    texts_are_those_of_the_strings(run.args@);
    assert(run@ == server.br_json(req.br_args(), true));
    environment_is_quiet(server, run, run@.args, true);
    assert(all == req.br_args() + seq!["--db"@, server.db_path@, "--json"@]);
    let n0: int = if req.reason is Some {
        2
    } else {
        0
    };
    let n1: int = if req.actor is Some {
        2
    } else {
        0
    };
    let n: int = 2 + n0 + n1;
    assert(req.br_args().len() == n);
    assert(all[0] == run.args@[0]@);
    assert(all[1] == run.args@[1]@);
    if req.reason is Some {
        assert(all[2] == "--reason"@);
        assert(all[3] == req.reason->0@);
    }
    if req.actor is Some {
        assert(all[2 + n0] == "--actor"@);
        assert(all[3 + n0] == req.actor->0@);
    }
    assert(all[n] == run.args@[n]@);
    assert(all[n + 1] == run.args@[n + 1]@);
    assert(all[n + 2] == run.args@[n + 2]@);
    flags_differ();
    assert forall|i: int| 2 <= i < n && i % 2 == 0 implies {
        ||| req.reason is Some && #[trigger] all[i] == "--reason"@
        ||| req.actor is Some && all[i] == "--actor"@
    } by {
        assert({
            ||| req.reason is Some && i == 2
            ||| req.actor is Some && i == 2 + n0
        });
    }
    if req.reason is None {
        assert forall|i: int| 2 <= i < n && i % 2 == 0 implies (#[trigger] run.args@[i])@
            != "--reason"@ by {
            assert(all[i] == run.args@[i]@);
        }
    }
    if req.actor is None {
        assert forall|i: int| 2 <= i < n && i % 2 == 0 implies (#[trigger] run.args@[i])@
            != "--actor"@ by {
            assert(all[i] == run.args@[i]@);
        }
    }
}

/// The flags of requests are told apart.
proof fn flags_differ()
    ensures
        "--actor"@ != "--assignee"@,
        "--actor"@ != "--description"@,
        "--actor"@ != "--priority"@,
        "--actor"@ != "--priority-max"@,
        "--actor"@ != "--priority-min"@,
        "--actor"@ != "--reason"@,
        "--actor"@ != "--status"@,
        "--actor"@ != "--type"@,
        "--assignee"@ != "--description"@,
        "--assignee"@ != "--priority"@,
        "--assignee"@ != "--priority-max"@,
        "--assignee"@ != "--priority-min"@,
        "--assignee"@ != "--reason"@,
        "--assignee"@ != "--status"@,
        "--assignee"@ != "--type"@,
        "--description"@ != "--priority"@,
        "--description"@ != "--priority-max"@,
        "--description"@ != "--priority-min"@,
        "--description"@ != "--reason"@,
        "--description"@ != "--status"@,
        "--description"@ != "--type"@,
        "--priority"@ != "--priority-max"@,
        "--priority"@ != "--priority-min"@,
        "--priority"@ != "--reason"@,
        "--priority"@ != "--status"@,
        "--priority"@ != "--type"@,
        "--priority-max"@ != "--priority-min"@,
        "--priority-max"@ != "--reason"@,
        "--priority-max"@ != "--status"@,
        "--priority-max"@ != "--type"@,
        "--priority-min"@ != "--reason"@,
        "--priority-min"@ != "--status"@,
        "--priority-min"@ != "--type"@,
        "--reason"@ != "--status"@,
        "--reason"@ != "--type"@,
        "--status"@ != "--type"@,
{
    reveal_strlit("--actor");
    reveal_strlit("--assignee");
    reveal_strlit("--description");
    reveal_strlit("--priority");
    reveal_strlit("--priority-max");
    reveal_strlit("--priority-min");
    reveal_strlit("--reason");
    reveal_strlit("--status");
    reveal_strlit("--type");
    assert("--actor"@.len() == 7);
    assert("--assignee"@.len() == 10);
    assert("--description"@.len() == 13);
    assert("--priority"@.len() == 10);
    assert("--priority-max"@.len() == 14);
    assert("--priority-min"@.len() == 14);
    assert("--reason"@.len() == 8);
    assert("--status"@.len() == 8);
    assert("--type"@.len() == 6);
    assert("--assignee"@[2] != "--priority"@[2]);
    assert("--priority-max"@[12] != "--priority-min"@[12]);
    assert("--reason"@[2] != "--status"@[2]);
}

/// A passed-through command runs on the arguments that stripping leaves of it,
/// `kept`, with the central database chosen right before the first `--` among
/// them, which is the argument at `n`, or at the end where there is none. It
/// holds the lock, is quiet but for errors and has nothing to read.
pub proof fn passed_through_arguments_reach_br(
    server: BeadsServer,
    req: ExecReq,
    kept: Vec<String>,
    n: int,
    run: Invocation,
)
    requires
        call_ensures(BeadsServer::br_exec, (&server, req), run),
        call_ensures(strip_db_args, (req.args,), kept),
        0 <= n <= kept@.len(),
        n < kept@.len() ==> kept@[n]@ == "--"@,
        forall|i: int| 0 <= i < n ==> (#[trigger] kept@[i])@ != "--"@,
    ensures
        run.program@ == server.br_bin@,
        run.args@.len() == kept@.len() + 2,
        forall|i: int| 0 <= i < n ==> (#[trigger] run.args@[i])@ == kept@[i]@,
        run.args@[n]@ == "--db"@,
        run.args@[n + 1]@ == server.db_path@,
        forall|i: int| n <= i < kept@.len() ==> run.args@[i + 2]@ == (#[trigger] kept@[i])@,
        run.env@.len() == 1 && run.env@[0].0@ == "RUST_LOG"@ && run.env@[0].1@ == "error"@,
        run.stdin_empty,
        run.exclusive,
{
    let all = texts(run.args@);
    let left = texts(kept@);
    texts_are_those_of_the_strings(run.args@);
    texts_are_those_of_the_strings(kept@);
    options_end_at_the_first_dashes(left);
    assert(run@ == server.br_passthrough(texts(req.args@)));
    environment_is_quiet(server, run, run@.args, true);
    assert(options_end(left) == n) by {
        let m = options_end(left);
        if m < n {
            assert(kept@[m]@ != "--"@);
            assert(left[m] == kept@[m]@);
        } else if n < m {
            assert(left[n] == kept@[n]@);
        }
    }
    assert(all == left.take(n) + seq!["--db"@, server.db_path@] + left.skip(n));
    assert forall|i: int| 0 <= i < n implies (#[trigger] run.args@[i])@ == kept@[i]@ by {
        assert(all[i] == left[i]);
    }
    assert(all[n] == "--db"@);
    assert(all[n + 1] == server.db_path@);
    assert forall|i: int| n <= i < kept@.len() implies run.args@[i + 2]@ == (
        #[trigger] kept@[i])@ by {
        assert(all[i + 2] == left[i]);
    }
}

/// The reply to a passed-through command carries three things and no more: what
/// `br` printed, what it printed as errors, and the very status it ended with.
/// Without a status that is -1, and where `br` could not be started it is 127,
/// with an explanation among the errors.
pub proof fn exec_replies_carry_what_br_did(
    server: BeadsServer,
    finished: Finished,
    reply: String,
)
    requires
        call_ensures(BeadsServer::br_exec_reply, (&server, finished), reply),
    ensures
        parsed(reply@) matches Some(Json::Object(members)) && {
            &&& members.dom() =~= set!["stdout"@, "stderr"@, "exit_code"@]
            &&& finished matches Finished::Exited(output) ==> {
                &&& members["stdout"@] == Json::Text(lossy_text(output.stdout@))
                &&& members["stderr"@] == Json::Text(lossy_text(output.stderr@))
                &&& output.code matches Some(n) ==> members["exit_code"@] == Json::Integer(n as int)
                &&& output.code is None ==> members["exit_code"@] == Json::Integer(-1)
            }
            &&& finished matches Finished::NotStarted { message } ==> {
                &&& members["stdout"@] == Json::Text(""@)
                &&& members["stderr"@] == Json::Text(
                    "beadsd: failed to spawn br ("@ + server.br_bin@ + "): "@ + message@,
                )
                &&& members["exit_code"@] == Json::Integer(127)
            }
        },
{
    keys_differ();
    reveal_strlit("");
    assert(""@ == Seq::<char>::empty());
}

/// A client that passes a command through ends as `br` ended on the other side:
/// with its output, its errors and its status, whatever that status is. A run
/// that a signal ended has the status -1, and one that could not be started
/// 127.
pub proof fn clients_end_as_br_ended(
    server: BeadsServer,
    finished: Finished,
    reply: String,
    cmd: Cmd,
    text: &str,
    outcome: Outcome,
)
    requires
        call_ensures(BeadsServer::br_exec_reply, (&server, finished), reply),
        text@ == reply@,
        cmd is Exec || cmd is External,
        call_ensures(conclude, (&cmd, text), outcome),
    ensures
        finished matches Finished::Exited(output) ==> {
            &&& outcome.stdout@ == lossy_text(output.stdout@)
            &&& outcome.stderr@ == lossy_text(output.stderr@)
            &&& valid_utf8(output.stdout@) ==> outcome.stdout@ == decode_utf8(output.stdout@)
            &&& valid_utf8(output.stderr@) ==> outcome.stderr@ == decode_utf8(output.stderr@)
            &&& output.code matches Some(n) ==> outcome.exit_code == n
            &&& output.code is None ==> outcome.exit_code == -1
        },
        finished is NotStarted ==> outcome.stdout@.len() == 0 && outcome.exit_code == 127,
{
    assert(outcome@ == replicated(parsed(reply@), reply@));
}

/// A typed request whose run ended with status zero is answered with what `br`
/// printed, and with nothing else.
pub proof fn successes_are_answered_with_the_output(
    server: BeadsServer,
    args: Vec<String>,
    output: Output,
    reply: String,
)
    requires
        output.code == Some(0i32),
        call_ensures(
            BeadsServer::run_br_reply,
            (&server, args, Finished::Exited(output)),
            reply,
        ),
    ensures
        reply@ == lossy_text(output.stdout@),
        valid_utf8(output.stdout@) ==> reply@ == decode_utf8(output.stdout@),
{
    let finished = Finished::Exited(output);
    assert(succeeded(finished));
}

/// A typed request whose run ended with any other status, or by a signal, is
/// answered with an error that carries the status, what `br` printed, what it
/// printed as errors, and the arguments, and no more.
pub proof fn failures_are_answered_with_the_details(
    server: BeadsServer,
    args: Vec<String>,
    output: Output,
    reply: String,
)
    requires
        output.code != Some(0i32),
        call_ensures(
            BeadsServer::run_br_reply,
            (&server, args, Finished::Exited(output)),
            reply,
        ),
    ensures
        parsed(reply@) matches Some(Json::Object(members)) && {
            &&& members.dom() =~= set!["error"@, "exit_code"@, "stderr"@, "stdout"@, "args"@]
            &&& members["error"@] == Json::Text("br_failed"@)
            &&& output.code matches Some(n) ==> members["exit_code"@] == Json::Integer(n as int)
            &&& output.code is None ==> members["exit_code"@] == Json::Null
            &&& members["stderr"@] == Json::Text(lossy_text(output.stderr@))
            &&& members["stdout"@] == Json::Text(lossy_text(output.stdout@))
            &&& members["args"@] matches Json::Array(items) && items.len() == args@.len()
                && forall|i: int|
                0 <= i < items.len() ==> #[trigger] items[i] == Json::Text(args@[i]@)
        },
{
    let finished = Finished::Exited(output);
    keys_differ();
    assert(!succeeded(finished));
    texts_are_those_of_the_strings(args@);
    let items = text_trees(texts(args@));
    assert forall|i: int| 0 <= i < items.len() implies #[trigger] items[i] == Json::Text(
        args@[i]@,
    ) by {
        assert(texts(args@)[i] == args@[i]@);
    }
}

/// A typed request whose run could not be started is answered with an error that
/// carries the reason and the program, and no more.
pub proof fn missing_programs_are_answered_with_the_reason(
    server: BeadsServer,
    args: Vec<String>,
    message: String,
    reply: String,
)
    requires
        call_ensures(
            BeadsServer::run_br_reply,
            (&server, args, Finished::NotStarted { message }),
            reply,
        ),
    ensures
        parsed(reply@) matches Some(Json::Object(members)) && {
            &&& members.dom() =~= set!["error"@, "message"@, "br_bin"@]
            &&& members["error"@] == Json::Text("br_spawn_failed"@)
            &&& members["message"@] == Json::Text(message@)
            &&& members["br_bin"@] == Json::Text(server.br_bin@)
        },
{
    let finished = Finished::NotStarted { message };
    keys_differ();
    assert(!succeeded(finished));
}

/// A verb of the client's own fails, with the reply among the errors, exactly
/// where the run of `br` did not end with status zero, unless what `br` printed
/// is itself an object with an `error`.
pub proof fn verbs_fail_where_br_failed(
    server: BeadsServer,
    args: Vec<String>,
    finished: Finished,
    reply: String,
    cmd: Cmd,
    text: &str,
    outcome: Outcome,
)
    requires
        call_ensures(BeadsServer::run_br_reply, (&server, args, finished), reply),
        text@ == reply@,
        cmd is Claim || cmd is Unclaim || cmd is Show,
        call_ensures(conclude, (&cmd, text), outcome),
    ensures
        !(finished matches Finished::Exited(output) && output.code == Some(0i32)) ==> outcome.exit_code
            == 1 && outcome.stdout@.len() == 0 && outcome.stderr@ == reply@ + "\n"@,
        (finished matches Finished::Exited(output) && output.code == Some(0i32)) && !(parsed(
            reply@,
        ) matches Some(Json::Object(members)) && members.contains_key("error"@))
            ==> outcome.exit_code == 0 && outcome.stdout@ == reply@ + "\n"@ && outcome.stderr@.len()
            == 0,
{
    assert(outcome@ == reported(parsed(reply@), reply@));
}

} // verus!

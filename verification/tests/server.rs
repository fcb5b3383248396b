use beadsd::args::strip_db_args;
use beadsd::client::{conclude, Cmd};
use beadsd::process::{Finished, Output};
use beadsd::requests::{
    ClaimReq, CloseReq, CreateReq, ExecReq, ListReq, ReadyReq, ShowReq, UnclaimReq, UpdateReq,
};
use beadsd::server::{BeadsServer, Invocation};
use serde_json::Value;

fn strings(list: &[&str]) -> Vec<String> {
    list.iter().map(|s| s.to_string()).collect()
}

fn some(s: &str) -> Option<String> {
    Some(s.to_string())
}

fn server() -> BeadsServer {
    BeadsServer::new("/usr/local/bin/br".to_string(), "/c/mu/.beads/beads.db".to_string())
}

fn exited(code: Option<i32>, stdout: &[u8], stderr: &[u8]) -> Finished {
    Finished::Exited(Output { code, stdout: stdout.to_vec(), stderr: stderr.to_vec() })
}

fn check(run: Invocation, args: &[&str], exclusive: bool) {
    let mut all = strings(args);
    all.extend(strings(&["--db", "/c/mu/.beads/beads.db", "--json"]));
    assert_eq!(run.program, "/usr/local/bin/br");
    assert_eq!(run.args, all);
    assert_eq!(run.env, vec![("RUST_LOG".to_string(), "error".to_string())]);
    assert!(run.stdin_empty);
    assert_eq!(run.exclusive, exclusive);
}

#[test]
fn strips_every_form_of_db() {
    assert_eq!(
        strip_db_args(strings(&["ready", "--db", "/tmp/x.db", "--json"])),
        strings(&["ready", "--json"])
    );
    assert_eq!(
        strip_db_args(strings(&["--db=/tmp/x.db", "show", "mu-1", "--no-db"])),
        strings(&["show", "mu-1"])
    );
    assert_eq!(strip_db_args(strings(&["list", "--db"])), strings(&["list"]));
    assert_eq!(strip_db_args(strings(&["--db", "--db", "x"])), strings(&["x"]));
    assert_eq!(strip_db_args(strings(&["--db", "--no-db", "x"])), strings(&["x"]));
    assert_eq!(strip_db_args(strings(&["--dbx", "--d"])), strings(&["--dbx", "--d"]));
    assert_eq!(strip_db_args(vec![]), strings(&[]));
}

#[test]
fn stripping_twice_is_stripping_once() {
    let args = strings(&["a", "--db", "--db=x", "--no-db", "b", "--db"]);
    let once = strip_db_args(args);
    assert_eq!(once, strings(&["a", "b"]));
    assert_eq!(strip_db_args(once.clone()), once);
}

#[test]
fn ready_asks_for_unassigned_or_an_assignee() {
    let s = server();
    check(
        s.beads_ready(ReadyReq { assignee: None, unassigned: false, limit: None }),
        &["ready"],
        false,
    );
    check(
        s.beads_ready(ReadyReq { assignee: some("ann"), unassigned: false, limit: Some(0) }),
        &["ready", "--assignee", "ann", "--limit", "0"],
        false,
    );
    check(
        s.beads_ready(ReadyReq { assignee: some("ann"), unassigned: true, limit: Some(305) }),
        &["ready", "--unassigned", "--limit", "305"],
        false,
    );
}

#[test]
fn reads_take_no_lock() {
    let s = server();
    check(s.beads_show(ShowReq { id: "mu-onq8".to_string() }), &["show", "mu-onq8"], false);
    check(
        s.beads_list(ListReq {
            status: some("open"),
            assignee: some("ann"),
            priority_min: Some(0),
            priority_max: Some(255),
        }),
        &[
            "list", "--status", "open", "--assignee", "ann", "--priority-min", "0",
            "--priority-max", "255",
        ],
        false,
    );
    check(
        s.beads_list(ListReq { status: None, assignee: None, priority_min: None, priority_max: Some(4) }),
        &["list", "--priority-max", "4"],
        false,
    );
}

#[test]
fn mutations_take_the_lock() {
    let s = server();
    check(
        s.beads_create(CreateReq {
            title: "hello".to_string(),
            issue_type: some("task"),
            priority: some("2"),
            description: some("body"),
            actor: some("me"),
        }),
        &[
            "create", "hello", "--type", "task", "--priority", "2", "--description", "body",
            "--actor", "me",
        ],
        true,
    );
    check(
        s.beads_update(UpdateReq {
            id: "mu-1".to_string(),
            status: some("in_progress"),
            assignee: some(""),
            priority: some("P0"),
            actor: some("me"),
        }),
        &[
            "update", "mu-1", "--status", "in_progress", "--assignee", "", "--priority", "P0",
            "--actor", "me",
        ],
        true,
    );
    check(
        s.beads_claim(ClaimReq { id: "mu-1".to_string(), actor: "me".to_string() }),
        &["update", "mu-1", "--claim", "--actor", "me"],
        true,
    );
    check(
        s.beads_unclaim(UnclaimReq { id: "mu-1".to_string(), actor: None }),
        &["update", "mu-1", "--assignee", "", "--status", "open"],
        true,
    );
    check(
        s.beads_unclaim(UnclaimReq { id: "mu-1".to_string(), actor: some("me") }),
        &["update", "mu-1", "--assignee", "", "--status", "open", "--actor", "me"],
        true,
    );
    check(
        s.beads_close(CloseReq { id: "mu-1".to_string(), reason: some("done"), actor: some("me") }),
        &["close", "mu-1", "--reason", "done", "--actor", "me"],
        true,
    );
}

#[test]
fn exec_runs_on_the_central_db_only() {
    let run = server().br_exec(ExecReq {
        args: strings(&["update", "mu-x", "--db", "/etc/passwd", "-s", "open", "--no-db"]),
    });
    assert_eq!(
        run.args,
        strings(&["update", "mu-x", "-s", "open", "--db", "/c/mu/.beads/beads.db"])
    );
    assert!(run.exclusive);
    assert!(run.stdin_empty);
    assert_eq!(run.env, vec![("RUST_LOG".to_string(), "error".to_string())]);
    assert_eq!(run.program, "/usr/local/bin/br");
}

#[test]
fn the_central_db_is_chosen_before_any_dashes() {
    const DB: &str = "/c/mu/.beads/beads.db";
    for (args, wanted) in [
        (&["search", "--", "foo"][..], &["search", "--db", DB, "--", "foo"][..]),
        (&["search", "--db=x", "--", "a", "--", "b"][..], &["search", "--db", DB, "--", "a", "--", "b"][..]),
        (&["--", "--db", "x"][..], &["--db", DB, "--"][..]),
        (&["list", "--json"][..], &["list", "--json", "--db", DB][..]),
        (&[][..], &["--db", DB][..]),
    ] {
        assert_eq!(server().br_exec(ExecReq { args: strings(args) }).args, strings(wanted));
    }
}

#[test]
fn a_callers_db_makes_no_difference() {
    let s = server();
    let plain = s.br_exec(ExecReq { args: strings(&["list", "--json"]) });
    for args in [
        &["list", "--db", "x", "--json"][..],
        &["--db=x", "list", "--json"][..],
        &["list", "--json", "--no-db"][..],
    ] {
        assert_eq!(s.br_exec(ExecReq { args: strings(args) }).args, plain.args);
    }
}

#[test]
fn success_replies_with_what_br_printed() {
    let reply = server().run_br_reply(vec![], exited(Some(0), b"{\"id\":\"mu-1\"}\n", b"noise"));
    assert_eq!(reply, "{\"id\":\"mu-1\"}\n");
}

#[test]
fn invalid_utf8_is_replaced() {
    let reply = server().run_br_reply(vec![], exited(Some(0), b"a\xffb", b""));
    assert_eq!(reply, "a\u{fffd}b");
}

#[test]
fn br_failures_are_told() {
    let run = server().beads_show(ShowReq { id: "mu-1".to_string() });
    let reply = server().run_br_reply(run.args, exited(Some(3), b"out", b"not found\n"));
    assert_eq!(
        reply,
        "{\"args\":[\"show\",\"mu-1\",\"--db\",\"/c/mu/.beads/beads.db\",\"--json\"],\
         \"error\":\"br_failed\",\"exit_code\":3,\"stderr\":\"not found\\n\",\"stdout\":\"out\"}"
    );
}

#[test]
fn failures_hold_what_br_printed() {
    for text in ["", "plain\n", "quotes \" and \\ and \u{1}é\u{10ffff}\n"] {
        let reply =
            server().run_br_reply(vec![], exited(Some(1), text.as_bytes(), text.as_bytes()));
        let value: Value = serde_json::from_str(&reply).unwrap();
        assert_eq!(value["stdout"], text);
        assert_eq!(value["stderr"], text);
    }
    let reply = server().run_br_reply(vec![], exited(Some(1), b"a\xffb", b"ok"));
    let value: Value = serde_json::from_str(&reply).unwrap();
    assert_eq!(value["stdout"], "a\u{fffd}b");
    assert_eq!(value["stderr"], "ok");
}

#[test]
fn a_clone_runs_the_same_commands() {
    let run = server().clone().run_br(strings(&["show", "", "mu-1"]), false);
    check(run, &["show", "", "mu-1"], false);
}

#[test]
fn a_signal_leaves_no_exit_code() {
    let reply = server().run_br_reply(vec![], exited(None, b"", b""));
    let value: Value = serde_json::from_str(&reply).unwrap();
    assert!(value["exit_code"].is_null());
    assert_eq!(value["error"], "br_failed");
    assert_eq!(value["args"], Value::Array(vec![]));
}

#[test]
fn spawn_failures_are_told() {
    let reply = server()
        .run_br_reply(vec![], Finished::NotStarted { message: "No such file".to_string() });
    assert_eq!(
        reply,
        "{\"br_bin\":\"/usr/local/bin/br\",\"error\":\"br_spawn_failed\",\
         \"message\":\"No such file\"}"
    );
}

#[test]
fn every_failure_makes_the_client_fail() {
    for finished in [
        exited(Some(1), b"{}", b"held by \"ann\""),
        exited(None, b"", b""),
        Finished::NotStarted { message: "x".to_string() },
    ] {
        let reply = server().run_br_reply(strings(&["update"]), finished);
        let cmd = Cmd::Claim { id: "mu-1".to_string(), actor: "me".to_string() };
        let outcome = conclude(&cmd, &reply);
        assert_eq!(outcome.exit_code, 1);
        assert_eq!(outcome.stdout, "");
        assert_eq!(outcome.stderr, format!("{}\n", reply));
    }
}

#[test]
fn exec_replies_are_replicated() {
    for (code, out, err) in [
        (Some(0), "plain\n", ""),
        (Some(3), "quotes \" and \\ and \u{1}\u{7f}é\u{10ffff}\n", "{\"error\":1}"),
        (Some(-7), "", "\0"),
        (Some(i32::MAX), "$", "$"),
    ] {
        let reply = server().br_exec_reply(exited(code, out.as_bytes(), err.as_bytes()));
        let outcome = conclude(&Cmd::External(vec![]), &reply);
        assert_eq!(outcome.stdout, out);
        assert_eq!(outcome.stderr, err);
        assert_eq!(Some(outcome.exit_code), code);
    }
}

#[test]
fn exec_envelopes() {
    assert_eq!(
        server().br_exec_reply(exited(None, b"o", b"e")),
        "{\"exit_code\":-1,\"stderr\":\"e\",\"stdout\":\"o\"}"
    );
    assert_eq!(
        server().br_exec_reply(Finished::NotStarted { message: "gone".to_string() }),
        "{\"exit_code\":127,\"stderr\":\"beadsd: failed to spawn br (/usr/local/bin/br): gone\",\
         \"stdout\":\"\"}"
    );
}

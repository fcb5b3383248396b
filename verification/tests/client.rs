use beadsd::client::{call_arguments, conclude, first_text, obj, to_call, Cmd};
use beadsd::reply::{replicate, report};
use serde_json::Value;

fn value(text: &str) -> Value {
    serde_json::from_str(text).unwrap()
}

fn some(s: &str) -> Option<String> {
    Some(s.to_string())
}

#[test]
fn verbs_become_calls() {
    let id = "mu-1".to_string();
    let (tool, args) = to_call(&Cmd::Claim { id: id.clone(), actor: "me".to_string() });
    assert_eq!(tool, "beads_claim");
    assert_eq!(args, value("{\"id\":\"mu-1\",\"actor\":\"me\"}"));

    let (tool, args) = to_call(&Cmd::Unclaim { id: id.clone(), actor: some("me") });
    assert_eq!(tool, "beads_unclaim");
    assert_eq!(args, value("{\"id\":\"mu-1\",\"actor\":\"me\"}"));

    let (tool, args) = to_call(&Cmd::Unclaim { id: id.clone(), actor: None });
    assert_eq!(tool, "beads_unclaim");
    assert_eq!(args, value("{\"id\":\"mu-1\"}"));

    let (tool, args) = to_call(&Cmd::Show { id });
    assert_eq!(tool, "beads_show");
    assert_eq!(args, value("{\"id\":\"mu-1\"}"));

    let list = vec!["count".to_string(), "--by".to_string(), "status".to_string()];
    for cmd in [Cmd::Exec { args: list.clone() }, Cmd::External(list)] {
        let (tool, args) = to_call(&cmd);
        assert_eq!(tool, "br_exec");
        assert_eq!(args, value("{\"args\":[\"count\",\"--by\",\"status\"]}"));
        assert!(cmd.is_passthrough());
    }
}

#[test]
fn objects_skip_what_is_missing() {
    assert_eq!(obj(vec![]), value("{}"));
    assert_eq!(
        obj(vec![("a", Some(value("1"))), ("b", None), ("c", Some(value("null")))]),
        value("{\"a\":1,\"c\":null}")
    );
    assert_eq!(
        obj(vec![("a", Some(value("1"))), ("a", Some(value("2"))), ("a", None)]),
        value("{\"a\":2}")
    );
}

#[test]
fn arguments_are_members() {
    assert_eq!(call_arguments(value("{\"a\":[1]}"))["a"], value("[1]"));
    assert!(call_arguments(value("[1]")).is_empty());
    assert!(call_arguments(value("\"x\"")).is_empty());
}

#[test]
fn the_first_text_counts() {
    assert_eq!(first_text(&vec![]), "");
    assert_eq!(
        first_text(&vec![
            value("{\"type\":\"image\"}"),
            value("{\"text\":7}"),
            value("\"text\""),
            value("{\"type\":\"text\",\"text\":\"one\"}"),
            value("{\"type\":\"text\",\"text\":\"two\"}"),
        ]),
        "one"
    );
}

#[test]
fn own_verbs_report_the_reply() {
    let show = Cmd::Show { id: "mu-1".to_string() };
    let ok = conclude(&show, "[{\"id\":\"mu-1\"}]");
    assert_eq!((ok.stdout.as_str(), ok.stderr.as_str(), ok.exit_code), ("[{\"id\":\"mu-1\"}]\n", "", 0));
    let plain = conclude(&show, "not json");
    assert_eq!((plain.stdout.as_str(), plain.exit_code), ("not json\n", 0));
    let array = conclude(&show, "[\"error\"]");
    assert_eq!(array.exit_code, 0);
    let failed = conclude(&show, "{\"error\":null}");
    assert_eq!(
        (failed.stdout.as_str(), failed.stderr.as_str(), failed.exit_code),
        ("", "{\"error\":null}\n", 1)
    );
}

#[test]
fn passthrough_replicates_what_the_reply_carries() {
    let exec = Cmd::Exec { args: vec![] };
    let partial = conclude(&exec, "{\"stdout\":1,\"stderr\":\"e\",\"error\":\"x\"}");
    assert_eq!(
        (partial.stdout.as_str(), partial.stderr.as_str(), partial.exit_code),
        ("", "e", 0)
    );
    let wide = conclude(&exec, "{\"exit_code\":4294967297}");
    assert_eq!(wide.exit_code, 1);
    let fraction = conclude(&exec, "{\"exit_code\":1.5}");
    assert_eq!(fraction.exit_code, 0);
    let huge = conclude(&exec, "{\"exit_code\":18446744073709551615}");
    assert_eq!(huge.exit_code, 0);
    for text in ["", "oops", "[]", "\"x\""] {
        let failed = conclude(&exec, text);
        assert_eq!(failed.stdout, "");
        assert_eq!(failed.stderr, format!("{}\n", text));
        assert_eq!(failed.exit_code, 1);
    }
}

#[test]
fn replies_may_be_read_beforehand() {
    let outcome = replicate(Some(value("{\"stdout\":\"o\",\"exit_code\":-1}")), "ignored");
    assert_eq!((outcome.stdout.as_str(), outcome.exit_code), ("o", -1));
    assert_eq!(replicate(None, "t").stderr, "t\n");
    assert_eq!(report(None, "t").stdout, "t\n");
    assert_eq!(report(Some(value("{\"error\":1}")), "t").exit_code, 1);
}

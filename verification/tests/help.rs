use beadsd::help::{
    help_url, is_explicit_verb, page, relayed_help, start_help, toplevel_help, url_from_raw,
    HelpPage, HelpStep, HELP_NOTES,
};
use beadsd::remotes::{resolve_url, ResolveError};

fn strings(list: &[&str]) -> Vec<String> {
    list.iter().map(|s| s.to_string()).collect()
}

fn wanted(list: &[&str]) -> Option<Vec<String>> {
    toplevel_help(&strings(list))
}

#[test]
fn the_first_url_is_found() {
    let url = |list: &[&str]| url_from_raw(&strings(list));
    assert_eq!(url(&[]), None);
    assert_eq!(url(&["list", "--url", "http://a", "--url=http://b"]), Some("http://a".to_string()));
    assert_eq!(url(&["--url=http://b", "--url", "http://a"]), Some("http://b".to_string()));
    assert_eq!(url(&["--url="]), Some(String::new()));
    assert_eq!(url(&["list", "--url"]), None);
    assert_eq!(url(&["--urls", "x"]), None);
}

#[test]
fn root_help_is_relayed() {
    let root = Some(strings(&["--help"]));
    assert_eq!(wanted(&[]), root);
    assert_eq!(wanted(&["--url", "http://a"]), root);
    assert_eq!(wanted(&["--url"]), root);
    assert_eq!(wanted(&["help"]), root);
    assert_eq!(wanted(&["-h"]), root);
    assert_eq!(wanted(&["--help", "-v"]), root);
    assert_eq!(wanted(&["--url=http://a", "--help"]), root);
}

#[test]
fn subcommand_help_is_relayed() {
    assert_eq!(wanted(&["help", "list"]), Some(strings(&["list", "--help"])));
    assert_eq!(wanted(&["help", "--url", "u", "dep", "tree"]), Some(strings(&["dep", "--help"])));
}

#[test]
fn everything_else_is_dispatched() {
    for list in [
        &["help", "claim"][..],
        &["help", "unclaim"],
        &["help", "show"],
        &["help", "exec"],
        &["list", "--help"],
        &["claim", "--help"],
        &["--help", "list"],
        &["-v", "--help"],
        &["--help", ""],
    ] {
        assert_eq!(wanted(list), None, "{:?}", list);
    }
    assert!(is_explicit_verb(&"exec".to_string()));
    assert!(!is_explicit_verb(&"ready".to_string()));
}

#[test]
fn a_url_makes_no_difference_to_help() {
    let plain = wanted(&["help", "list"]);
    assert_eq!(wanted(&["--url", "help", "help", "list"]), plain);
    assert_eq!(wanted(&["help", "--url=x", "list"]), plain);
    assert_eq!(wanted(&["help", "list", "--url", "x"]), plain);
}

#[test]
fn the_environment_is_asked_after_the_flag() {
    let some = |s: &str| Some(s.to_string());
    assert_eq!(help_url(some("a"), some("b")), some("a"));
    assert_eq!(help_url(some(""), some("b")), some(""));
    assert_eq!(help_url(None, some("b")), some("b"));
    assert_eq!(help_url(None, some("")), None);
    assert_eq!(help_url(None, None), None);
}

#[test]
fn help_asks_the_service_that_was_chosen() {
    match start_help(Ok("http://h".to_string()), strings(&["list", "--help"])) {
        HelpStep::Ask { notes, url, tool, args } => {
            assert_eq!(notes, HELP_NOTES);
            assert_eq!(url, "http://h");
            assert_eq!(tool, "br_exec");
            assert_eq!(args.to_string(), "{\"args\":[\"list\",\"--help\"]}");
        }
        HelpStep::Builtin => panic!("built-in help"),
    }
}

#[test]
fn without_a_service_there_is_only_the_builtin_help() {
    let none = ResolveError::NoRemotes { path: "/p".to_string() };
    assert!(matches!(start_help(Err(none), strings(&["--help"])), HelpStep::Builtin));
    let many = resolve_url(None, &b"/p".to_vec(), Some("a=1\nb=2".to_string()), None);
    assert!(matches!(start_help(many, vec![]), HelpStep::Builtin));
}

#[test]
fn live_help_is_shown() {
    match relayed_help("http://h", Some("{\"stdout\":\"Usage: br\\n\"}".to_string())) {
        HelpPage::Live { text } => {
            assert_eq!(text, "\nLive br command surface (from beadsd):\n\nUsage: br\n");
        }
        HelpPage::Builtin { notice } => panic!("{}", notice),
    }
}

#[test]
fn builtin_help_is_the_fallback() {
    for reply in [
        None,
        Some(String::new()),
        Some("nope".to_string()),
        Some("{\"stdout\":\" \\n\"}".to_string()),
        Some("{\"stdout\":3}".to_string()),
        Some("[]".to_string()),
    ] {
        match relayed_help("http://h", reply) {
            HelpPage::Builtin { notice } => assert_eq!(
                notice,
                "\n(could not reach beadsd at http://h for the live br help — beads built-ins only)\n\n"
            ),
            HelpPage::Live { text } => panic!("{}", text),
        }
    }
    assert!(matches!(page("http://h", None), HelpPage::Builtin { notice: _ }));
}

#[test]
fn notes_end_their_lines() {
    assert!(HELP_NOTES.starts_with("beads — thin relay to a central beadsd"));
    assert_eq!(HELP_NOTES.lines().count(), 5);
    assert!(HELP_NOTES.ends_with("(by repo, else mu).\n"));
}

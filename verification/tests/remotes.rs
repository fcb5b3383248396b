use beadsd::remotes::{
    is_given, parse_remotes, remotes_env_path, repo_key, resolve_url, Ancestor, ResolveError,
};
use std::path::PathBuf;

fn some(s: &str) -> Option<String> {
    Some(s.to_string())
}

fn pair(k: &str, v: &str) -> (String, String) {
    (k.to_string(), v.to_string())
}

fn path() -> Vec<u8> {
    b"/h/.config/beads/remotes.env".to_vec()
}

fn resolve(explicit: Option<&str>, file: Option<&str>, repo: Option<&str>) -> Result<String, String> {
    resolve_url(
        explicit.map(str::to_string),
        &path(),
        file.map(str::to_string),
        repo.map(str::to_string),
    )
    .map_err(|e| e.message())
}

#[test]
fn the_file_is_found_as_the_standard_library_joins() {
    for (config, home) in [
        (Some("/x"), Some("/h")),
        (Some("/x/"), None),
        (None, Some("/h")),
        (None, Some("/")),
        (None, Some("")),
        (None, None),
    ] {
        let base = match config {
            Some(dir) => PathBuf::from(dir),
            None => PathBuf::from(home.unwrap_or_default()).join(".config"),
        };
        let wanted = base.join("beads").join("remotes.env");
        let got = remotes_env_path(
            config.map(|s| s.as_bytes().to_vec()),
            home.map(|s| s.as_bytes().to_vec()),
        );
        assert_eq!(String::from_utf8(got).unwrap(), wanted.to_str().unwrap());
    }
}

#[test]
fn an_empty_config_directory_counts_as_none() {
    let found = |config: Option<&str>, home: Option<&str>| {
        String::from_utf8(remotes_env_path(
            config.map(|s| s.as_bytes().to_vec()),
            home.map(|s| s.as_bytes().to_vec()),
        ))
        .unwrap()
    };
    assert_eq!(found(Some(""), Some("/h")), "/h/.config/beads/remotes.env");
    assert_eq!(found(Some(""), None), ".config/beads/remotes.env");
    assert_eq!(found(Some("/x"), Some("/h")), "/x/beads/remotes.env");
}

#[test]
fn remotes_are_read_in_order() {
    let text = "# comment\n\n agent_tools = http://localhost:7772/mcp \r\n\tmu=http://h:1/mcp?a=b\nnokey\n=x\ny=\n  # z=1\n";
    assert_eq!(
        parse_remotes(some(text)),
        vec![
            pair("agent_tools", "http://localhost:7772/mcp"),
            pair("mu", "http://h:1/mcp?a=b"),
            pair("", "x"),
            pair("y", ""),
        ]
    );
    assert_eq!(parse_remotes(None), vec![]);
    assert_eq!(parse_remotes(some("")), vec![]);
}

#[test]
fn the_nearest_repository_names_the_project() {
    let dir = |has_jj, has_git, name: Option<&str>| Ancestor {
        has_jj,
        has_git,
        name: name.map(str::to_string),
    };
    assert_eq!(repo_key(&vec![]), None);
    assert_eq!(
        repo_key(&vec![
            dir(false, false, Some("src")),
            dir(false, true, Some("mu")),
            dir(true, true, Some("outer")),
            dir(false, false, None),
        ]),
        some("mu")
    );
    assert_eq!(repo_key(&vec![dir(true, false, Some("ws"))]), some("ws"));
    assert_eq!(repo_key(&vec![dir(false, false, Some("a")), dir(true, false, None)]), None);
    assert_eq!(repo_key(&vec![dir(false, false, Some("a"))]), None);
}

#[test]
fn an_explicit_url_wins() {
    assert_eq!(resolve(Some("http://e"), Some("mu=http://m"), Some("mu")), Ok("http://e".to_string()));
    assert_eq!(resolve(Some("http://e"), None, None), Ok("http://e".to_string()));
    assert!(is_given(&some("http://e")));
}

#[test]
fn an_empty_url_counts_as_none() {
    assert_eq!(resolve(Some(""), Some("mu=http://m"), None), Ok("http://m".to_string()));
    assert!(!is_given(&some("")));
    assert!(!is_given(&None));
}

#[test]
fn the_file_decides_in_order() {
    let all = Some("a=http://a\nmu=http://m\ndefault=http://d\na=http://late\n");
    assert_eq!(resolve(None, all, Some("a")), Ok("http://a".to_string()));
    assert_eq!(resolve(None, all, Some("b")), Ok("http://d".to_string()));
    assert_eq!(resolve(None, all, None), Ok("http://d".to_string()));
    let no_default = Some("a=http://a\nmu=http://m\n");
    assert_eq!(resolve(None, no_default, Some("b")), Ok("http://m".to_string()));
    assert_eq!(resolve(None, Some("a=http://a"), Some("b")), Ok("http://a".to_string()));
}

#[test]
fn without_remotes_there_is_guidance() {
    assert_eq!(
        resolve(None, None, Some("mu")),
        Err("beads: no --url, no $BEADS_REMOTE, and no usable /h/.config/beads/remotes.env \
             — pass --url <beadsd-mcp-url>"
            .to_string())
    );
    assert!(matches!(
        resolve_url(None, &path(), some("# nothing\n"), None),
        Err(ResolveError::NoRemotes { path: _ })
    ));
}

#[test]
fn undecided_remotes_are_listed() {
    assert_eq!(
        resolve(None, Some("a=http://a\nb=http://b"), Some("c")),
        Err("beads: couldn't pick a beadsd endpoint — set $BEADS_REMOTE, pass --url, or add a \
             `default=` line to /h/.config/beads/remotes.env (have: a, b)"
            .to_string())
    );
}

#[test]
fn lines_are_read_as_written() {
    for (k, v) in [("mu", "http://h:7771/mcp"), ("a b", "x=y=z"), ("k", "")] {
        assert_eq!(parse_remotes(Some(format!("{}={}\n", k, v))), vec![pair(k, v)]);
    }
}

#[test]
fn texts_are_read_in_order() {
    for (first, second) in [
        ("a=1\nb=2", "c=3"),
        ("", "a=1"),
        ("a=1\n", "\n# c\na=2\n"),
        ("nokey", ""),
    ] {
        let mut wanted = parse_remotes(some(first));
        wanted.extend(parse_remotes(some(second)));
        assert_eq!(parse_remotes(Some(format!("{}\n{}", first, second))), wanted);
    }
    assert_eq!(
        parse_remotes(some("a=1\nb=2\nc=3=4")),
        vec![pair("a", "1"), pair("b", "2"), pair("c", "3=4")]
    );
}

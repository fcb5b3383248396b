use beadsd::committer::{export_path, judge_commit, Arg, Committer, Next, Step};
use beadsd::paths::{join, AbsPath};
use beadsd::process::{Finished, Output};
use std::path::Path;

fn abs(s: &str) -> AbsPath {
    AbsPath::parse(&s.as_bytes().to_vec()).unwrap()
}

fn committer(repo: &str, export: &str) -> Committer {
    Committer::new(abs(repo), abs(export), "beadsd".to_string(), "beadsd@localhost".to_string())
}

fn exited(code: i32, stdout: &str, stderr: &str) -> Finished {
    Finished::Exited(Output {
        code: Some(code),
        stdout: stdout.as_bytes().to_vec(),
        stderr: stderr.as_bytes().to_vec(),
    })
}

fn shown(args: Vec<Arg>) -> Vec<String> {
    args.into_iter()
        .map(|a| match a {
            Arg::Text(s) => s,
            Arg::Path(p) => format!("<{}>", String::from_utf8(p).unwrap()),
        })
        .collect()
}

#[test]
fn absolute_paths_are_read_and_written() {
    for p in ["/", "/a", "/a/b.db", "/home/é/.beads/beads.db"] {
        assert_eq!(String::from_utf8(abs(p).to_bytes()).unwrap(), p);
    }
    assert_eq!(String::from_utf8(abs("//a/./b//").to_bytes()).unwrap(), "/a/b");
    assert_eq!(String::from_utf8(abs("/a/../b").to_bytes()).unwrap(), "/a/../b");
    assert!(AbsPath::parse(&b"a/b".to_vec()).is_none());
    assert!(AbsPath::parse(&vec![]).is_none());
}

#[test]
fn names_agree_with_the_standard_library() {
    for p in ["/", "/a", "//a/./b//", "/a/../b", "/.", "/./.a", "/a/b/."] {
        let wanted: Vec<Vec<u8>> = Path::new(p)
            .components()
            .skip(1)
            .map(|c| c.as_os_str().to_str().unwrap().as_bytes().to_vec())
            .collect();
        assert_eq!(abs(p).names, wanted, "{}", p);
    }
}

#[test]
fn prefixes_go_by_whole_names() {
    assert!(abs("/a/b").is_under(&abs("/a")));
    assert!(abs("/a").is_under(&abs("/a")));
    assert!(abs("/a").is_under(&abs("/")));
    assert!(!abs("/ab").is_under(&abs("/a")));
    assert!(!abs("/a").is_under(&abs("/a/b")));
}

#[test]
fn joining_adds_one_slash() {
    assert_eq!(join(b"/a".to_vec(), "b"), b"/a/b".to_vec());
    assert_eq!(join(b"/a/".to_vec(), "b"), b"/a/b".to_vec());
    assert_eq!(join(vec![], "b"), b"b".to_vec());
}

#[test]
fn the_export_lies_next_to_the_database() {
    let path = export_path(&abs("/c/mu/.beads/beads.db")).unwrap();
    assert_eq!(path.to_bytes(), b"/c/mu/.beads/issues.jsonl".to_vec());
    assert_eq!(export_path(&abs("/beads.db")).unwrap().to_bytes(), b"/issues.jsonl".to_vec());
    assert!(export_path(&abs("/")).is_none());
}

#[test]
fn the_project_is_the_first_name_in_the_repository() {
    let c = committer("/c", "/c/mu/.beads/issues.jsonl");
    assert_eq!(c.repo, b"/c".to_vec());
    assert_eq!(c.rel, b"mu/.beads/issues.jsonl".to_vec());
    assert_eq!(c.message, "beadsd: snapshot mu");
    assert_eq!(c.last, None);
}

#[test]
fn exports_outside_the_repository_keep_their_path() {
    let c = committer("/c", "/d/issues.jsonl");
    assert_eq!(c.rel, b"/d/issues.jsonl".to_vec());
    assert_eq!(c.message, "beadsd: snapshot /");
    let same = committer("/c/x", "/c/x");
    assert_eq!(same.rel, b"".to_vec());
    assert_eq!(same.message, "beadsd: snapshot project");
}

#[test]
fn project_names_may_be_no_text() {
    let mut path = b"/c/".to_vec();
    path.push(0xff);
    path.extend_from_slice(b"/issues.jsonl");
    let export = AbsPath::parse(&path).unwrap();
    let c = Committer::new(abs("/c"), export, String::new(), String::new());
    assert_eq!(c.message, "beadsd: snapshot \u{fffd}");
    assert_eq!(c.rel[0], 0xff);
}

#[test]
fn a_snapshot_adds_and_then_commits() {
    let c = committer("/c", "/c/mu/issues.jsonl");
    match c.git_commit_once(None) {
        Next::Run { step: Step::Add, program, args, stdin_empty } => {
            assert_eq!(program, "git");
            assert!(stdin_empty);
            assert_eq!(shown(args), vec!["-C", "</c>", "add", "--", "<mu/issues.jsonl>"]);
        }
        other => panic!("{:?}", other),
    }
    match c.git_commit_once(Some((Step::Add, exited(0, "", "")))) {
        Next::Run { step: Step::Commit, program, args, stdin_empty } => {
            assert_eq!(program, "git");
            assert!(stdin_empty);
            assert_eq!(
                shown(args),
                vec![
                    "-C", "</c>", "-c", "user.name=beadsd", "-c", "user.email=beadsd@localhost",
                    "commit", "-m", "beadsd: snapshot mu", "--only", "--", "<mu/issues.jsonl>",
                ]
            );
        }
        other => panic!("{:?}", other),
    }
    match c.git_commit_once(Some((Step::Commit, exited(0, "[main 1] snapshot", "")))) {
        Next::Done(result) => assert_eq!(result, Ok(true)),
        other => panic!("{:?}", other),
    }
}

#[test]
fn git_failures_are_told() {
    let c = committer("/c", "/c/mu/issues.jsonl");
    let done = |ran| match c.git_commit_once(Some(ran)) {
        Next::Done(result) => result,
        other => panic!("{:?}", other),
    };
    assert_eq!(
        done((Step::Add, exited(128, "x", "index.lock exists"))),
        Err("git add failed: index.lock exists".to_string())
    );
    assert_eq!(
        done((Step::Commit, exited(1, "out ", "err"))),
        Err("git commit failed: out err".to_string())
    );
    let gone = || Finished::NotStarted { message: "no git".to_string() };
    assert_eq!(done((Step::Add, gone())), Err("no git".to_string()));
    assert_eq!(done((Step::Commit, gone())), Err("no git".to_string()));
    assert_eq!(
        done((Step::Commit, exited(1, "nothing to commit, working tree clean", ""))),
        Ok(false)
    );
    assert_eq!(done((Step::Commit, exited(1, "", "no changes added to commit"))), Ok(false));
    assert_eq!(
        done((
            Step::Commit,
            exited(1, "nothing added to commit but untracked files present", "")
        )),
        Ok(false)
    );
}

#[test]
fn verdicts_on_a_commit() {
    assert_eq!(judge_commit(true, "git commit failed"), Ok(true));
    assert_eq!(judge_commit(false, "nothing to commit"), Ok(false));
    assert_eq!(
        judge_commit(
            false,
            "On branch main\nUntracked files:\n\tother\n\n\
             nothing added to commit but untracked files present (use \"git add\" to track)\n"
        ),
        Ok(false)
    );
    assert_eq!(judge_commit(false, "nothing to  commit"), Err("git commit failed: nothing to  commit".to_string()));
}

#[test]
fn snapshots_are_debounced() {
    let mut c = committer("/c", "/c/mu/issues.jsonl");
    assert!(!c.is_due(None));
    assert!(c.is_due(Some(5)));
    c.settle(5, &Err("lost a race".to_string()));
    assert!(c.is_due(Some(5)));
    c.settle(5, &Ok(true));
    assert!(!c.is_due(Some(5)));
    assert!(!c.is_due(None));
    assert!(c.is_due(Some(6)));
    c.settle(6, &Ok(false));
    assert!(!c.is_due(Some(6)));
    assert!(c.is_due(Some(5)));
}

#[test]
fn ticks_follow_the_export() {
    let mut c = committer("/c", "/c/mu/issues.jsonl");
    let failed = || Err("locked".to_string());
    let mut made = Vec::new();
    for (mtime, result) in [
        (None, Ok(true)),
        (Some(5), failed()),
        (Some(5), failed()),
        (Some(5), Ok(true)),
        (Some(5), failed()),
        (None, failed()),
        (Some(5), Ok(true)),
        (Some(7), Ok(false)),
        (Some(7), Ok(true)),
    ] {
        let due = c.is_due(mtime);
        if due {
            c.settle(mtime.unwrap(), &result);
        }
        made.push(due);
    }
    assert_eq!(made, vec![false, true, true, true, false, false, false, true, false]);
}

#[test]
fn the_relative_path_leads_to_the_export() {
    for (repo, export) in [("/", "/mu/issues.jsonl"), ("/c", "/c/mu/issues.jsonl"), ("/c/d", "/c/d/x")] {
        let c = committer(repo, export);
        let rel = String::from_utf8(c.rel).unwrap();
        assert_eq!(Path::new(repo).join(&rel), Path::new(export));
        assert_eq!(Path::new(export).strip_prefix(repo).unwrap(), Path::new(&rel));
        assert_eq!(join(c.repo, &rel), export.as_bytes().to_vec());
    }
}

use beadsd::config::{Config, Flags, Layer};
use std::path::PathBuf;

fn no_flags() -> Flags {
    Flags { db: None, listen: None, br_bin: None, repo: None, commit_interval_secs: None }
}

#[test]
fn defaults() {
    let c = Config::default();
    assert_eq!(c.db, None);
    assert_eq!(c.listen, "0.0.0.0:7777");
    assert_eq!(c.br_bin, "br");
    assert_eq!(c.repo, None);
    assert_eq!(c.commit_interval_secs, 30);
    assert_eq!(c.mcp_path, "/mcp");
    assert_eq!(c.health_path, "/health");
    assert_eq!(c.git_author_name, "beadsd");
    assert_eq!(c.git_author_email, "beadsd@localhost");
}

#[test]
fn layers_are_merged_in_order() {
    let list = Config::layers(Some("/h".to_string()), Some(PathBuf::from("mu.toml")));
    assert_eq!(list.len(), 4);
    assert!(matches!(&list[0], Layer::File(p) if p == "/etc/beadsd/config.toml"));
    assert!(matches!(&list[1], Layer::File(p) if p == "/h/.config/beadsd/config.toml"));
    assert!(matches!(&list[2], Layer::Explicit(p) if *p == PathBuf::from("mu.toml")));
    assert!(matches!(&list[3], Layer::Env(p) if p == "BEADSD_"));
    let short = Config::layers(None, None);
    assert_eq!(short.len(), 3);
    assert!(matches!(&short[1], Layer::File(p) if p == "/home/tcovert/.config/beadsd/config.toml"));
    assert!(matches!(&short[2], Layer::Env(p) if p == "BEADSD_"));
}

#[test]
fn flags_win() {
    let mut c = Config::default();
    c.apply(Flags {
        db: Some(PathBuf::from("/c/mu/.beads/beads.db")),
        listen: Some("127.0.0.1:7799".to_string()),
        br_bin: Some("/bin/br".to_string()),
        repo: Some(PathBuf::from("/c")),
        commit_interval_secs: Some(0),
    });
    assert_eq!(c.db, Some(PathBuf::from("/c/mu/.beads/beads.db")));
    assert_eq!(c.listen, "127.0.0.1:7799");
    assert_eq!(c.br_bin, "/bin/br");
    assert_eq!(c.repo, Some(PathBuf::from("/c")));
    assert_eq!(c.commit_interval_secs, 0);
    assert_eq!(c.mcp_path, "/mcp");
}

#[test]
fn unset_flags_change_nothing() {
    let mut c = Config::default();
    c.repo = Some(PathBuf::from("/c"));
    c.listen = "h:1".to_string();
    c.apply(no_flags());
    assert_eq!(c.repo, Some(PathBuf::from("/c")));
    assert_eq!(c.listen, "h:1");
    assert_eq!(c.commit_interval_secs, 30);
}

#[test]
fn a_database_is_required() {
    let mut c = Config::default();
    assert_eq!(c.required_db(), Err("no db configured (set `db` in config or pass --db)"));
    c.db = Some(PathBuf::from("x.db"));
    assert_eq!(c.required_db(), Ok(&PathBuf::from("x.db")));
}

#[test]
fn the_committer_wants_a_repository_and_an_interval() {
    let mut c = Config::default();
    assert_eq!(c.committer_repo(), None);
    c.repo = Some(PathBuf::from("/c"));
    assert_eq!(c.committer_repo(), Some(&PathBuf::from("/c")));
    c.commit_interval_secs = 0;
    assert_eq!(c.committer_repo(), None);
}

#[test]
fn a_clone_holds_the_same_settings() {
    let mut config = Config::default();
    config.db = Some(PathBuf::from("/c/beads.db"));
    config.br_bin = "/opt/br".to_string();
    let copy = config.clone();
    config.br_bin = "changed".to_string();
    assert_eq!(copy.db, Some(PathBuf::from("/c/beads.db")));
    assert_eq!(copy.br_bin, "/opt/br");
    assert_eq!(copy.commit_interval_secs, config.commit_interval_secs);
}

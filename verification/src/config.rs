//! Layered configuration. Sources, later wins:
//!   1. built-in defaults
//!   2. /etc/beadsd/config.toml            (system-wide, optional)
//!   3. ~/.config/beadsd/config.toml       (shared user defaults, optional)
//!   4. --config <file>                    (per-instance, optional)
//!   5. BEADSD_* environment variables
//!   6. explicit command-line flags

use std::path::PathBuf;

use vstd::prelude::*;

use crate::text::opt_text;

verus! {

/// A path of the standard library; it is carried, and nothing is claimed of
/// what is inside.
#[verifier::external_type_specification]
#[verifier::external_body]
pub struct ExPathBuf(std::path::PathBuf);

/// The configuration of one service.
#[derive(Debug, Clone)]
pub struct Config {
    /// Path to the central project database this instance owns. Required (no
    /// default).
    pub db: Option<PathBuf>,
    /// Address to bind, e.g. "0.0.0.0:7771".
    pub listen: String,
    /// Path to the br binary.
    pub br_bin: String,
    /// Central git repo root. When set (and commit_interval_secs > 0) the
    /// service commits this project's issues.jsonl for audit/backup.
    pub repo: Option<PathBuf>,
    /// Seconds between debounced snapshot commits (0 disables the committer).
    pub commit_interval_secs: u64,
    /// HTTP path the service is mounted at.
    pub mcp_path: String,
    /// HTTP path for the health check.
    pub health_path: String,
    /// Identity used for snapshot commits.
    pub git_author_name: String,
    pub git_author_email: String,
}

/// The model of a [`Config`].
pub struct ConfigView {
    pub db: Option<PathBuf>,
    pub listen: Seq<char>,
    pub br_bin: Seq<char>,
    pub repo: Option<PathBuf>,
    pub commit_interval_secs: u64,
    pub mcp_path: Seq<char>,
    pub health_path: Seq<char>,
    pub git_author_name: Seq<char>,
    pub git_author_email: Seq<char>,
}

impl View for Config {
    type V = ConfigView;

    open spec fn view(&self) -> ConfigView {
        ConfigView {
            db: self.db,
            listen: self.listen@,
            br_bin: self.br_bin@,
            repo: self.repo,
            commit_interval_secs: self.commit_interval_secs,
            mcp_path: self.mcp_path@,
            health_path: self.health_path@,
            git_author_name: self.git_author_name@,
            git_author_email: self.git_author_email@,
        }
    }
}

/// The built-in defaults.
pub open spec fn default_config() -> ConfigView {
    ConfigView {
        db: None,
        listen: "0.0.0.0:7777"@,
        br_bin: "br"@,
        repo: None,
        commit_interval_secs: 30,
        mcp_path: "/mcp"@,
        health_path: "/health"@,
        git_author_name: "beadsd"@,
        git_author_email: "beadsd@localhost"@,
    }
}

impl Default for Config {
    fn default() -> (config: Self)
        ensures
            config@ == default_config(),
    {
        Config {
            db: None,
            listen: "0.0.0.0:7777".to_owned(),
            br_bin: "br".to_owned(),
            repo: None,
            commit_interval_secs: 30,
            mcp_path: "/mcp".to_owned(),
            health_path: "/health".to_owned(),
            git_author_name: "beadsd".to_owned(),
            git_author_email: "beadsd@localhost".to_owned(),
        }
    }
}

/// The command-line flags; each one that is set overrides the configuration.
#[derive(Debug)]
pub struct Flags {
    pub db: Option<PathBuf>,
    pub listen: Option<String>,
    pub br_bin: Option<String>,
    pub repo: Option<PathBuf>,
    pub commit_interval_secs: Option<u64>,
}

/// The upper value where there is one, else the lower one.
pub open spec fn over<T>(upper: Option<T>, lower: T) -> T {
    match upper {
        Some(value) => value,
        None => lower,
    }
}

/// The upper path where there is one, else the lower one.
pub open spec fn path_over(upper: Option<PathBuf>, lower: Option<PathBuf>) -> Option<PathBuf> {
    if upper is Some {
        upper
    } else {
        lower
    }
}

impl ConfigView {
    /// The configuration under the flags.
    pub open spec fn under(self, flags: Flags) -> ConfigView {
        ConfigView {
            db: path_over(flags.db, self.db),
            listen: over(opt_text(flags.listen), self.listen),
            br_bin: over(opt_text(flags.br_bin), self.br_bin),
            repo: path_over(flags.repo, self.repo),
            commit_interval_secs: over(flags.commit_interval_secs, self.commit_interval_secs),
            ..self
        }
    }

    /// Whether the flags set nothing that differs from this configuration.
    pub open spec fn obeys(self, flags: Flags) -> bool {
        &&& flags.db is Some ==> self.db == flags.db
        &&& flags.listen is Some ==> Some(self.listen) == opt_text(flags.listen)
        &&& flags.br_bin is Some ==> Some(self.br_bin) == opt_text(flags.br_bin)
        &&& flags.repo is Some ==> self.repo == flags.repo
        &&& flags.commit_interval_secs is Some ==> Some(self.commit_interval_secs)
            == flags.commit_interval_secs
    }
}

/// A source of configuration over the built-in defaults.
#[derive(Debug)]
pub enum Layer {
    /// A TOML file that may be missing.
    File(String),
    /// The TOML file that was asked for.
    Explicit(PathBuf),
    /// The environment variables that begin with a prefix.
    Env(String),
}

/// The model of a [`Layer`].
pub enum LayerView {
    File(Seq<char>),
    Explicit(PathBuf),
    Env(Seq<char>),
}

impl View for Layer {
    type V = LayerView;

    open spec fn view(&self) -> LayerView {
        match self {
            Layer::File(path) => LayerView::File(path@),
            Layer::Explicit(path) => LayerView::Explicit(*path),
            Layer::Env(prefix) => LayerView::Env(prefix@),
        }
    }
}

/// The home directory, where it is not known.
pub open spec fn home_or_default(home: Option<Seq<char>>) -> Seq<char> {
    over(home, "/home/tcovert"@)
}

/// The layers over the built-in defaults; a later one wins over an earlier one.
pub open spec fn layers_for(
    home: Option<Seq<char>>,
    explicit: Option<PathBuf>,
) -> Seq<LayerView> {
    let files = seq![
        LayerView::File("/etc/beadsd/config.toml"@),
        LayerView::File(home_or_default(home) + "/.config/beadsd/config.toml"@),
    ];
    let asked = match explicit {
        Some(path) => files.push(LayerView::Explicit(path)),
        None => files,
    };
    asked.push(LayerView::Env("BEADSD_"@))
}

impl Config {
    /// The layers over the built-in defaults, in the order in which they are
    /// merged, given `$HOME` and the file that was asked for.
    pub fn layers(home: Option<String>, explicit: Option<PathBuf>) -> (list: Vec<Layer>)
        ensures
            list@.map_values(|layer: Layer| layer@) == layers_for(opt_text(home), explicit),
    {
        let mut user: String = match home {
            Some(dir) => dir,
            None => "/home/tcovert".to_owned(),
        };
        user.append("/.config/beadsd/config.toml");
        let mut list: Vec<Layer> = Vec::new();
        list.push(Layer::File("/etc/beadsd/config.toml".to_owned()));
        list.push(Layer::File(user));
        match explicit {
            Some(path) => {
                list.push(Layer::Explicit(path));
            },
            None => {},
        }
        list.push(Layer::Env("BEADSD_".to_owned()));
        assert(list@.map_values(|layer: Layer| layer@) == layers_for(opt_text(home), explicit));
        list
    }

    /// Applies the flags as the final layer.
    pub fn apply(&mut self, flags: Flags)
        ensures
            final(self)@ == old(self)@.under(flags),
    {
        if flags.db.is_some() {
            self.db = flags.db;
        }
        match flags.listen {
            Some(value) => {
                self.listen = value;
            },
            None => {},
        }
        match flags.br_bin {
            Some(value) => {
                self.br_bin = value;
            },
            None => {},
        }
        if flags.repo.is_some() {
            self.repo = flags.repo;
        }
        match flags.commit_interval_secs {
            Some(value) => {
                self.commit_interval_secs = value;
            },
            None => {},
        }
    }

    /// The database, which has to be configured.
    pub fn required_db(&self) -> (db: Result<&PathBuf, &'static str>)
        ensures
            match db {
                Ok(path) => self.db == Some(*path),
                Err(message) => self.db is None && message@
                    == "no db configured (set `db` in config or pass --db)"@,
            },
    {
        match &self.db {
            Some(path) => Ok(path),
            None => Err("no db configured (set `db` in config or pass --db)"),
        }
    }

    /// The repository to commit snapshots to: the one configured, unless the
    /// interval of zero disables the committer.
    pub fn committer_repo(&self) -> (repo: Option<&PathBuf>)
        ensures
            match repo {
                Some(path) => self.repo == Some(*path) && self.commit_interval_secs > 0,
                None => self.repo is None || self.commit_interval_secs == 0,
            },
    {
        match &self.repo {
            Some(path) => if self.commit_interval_secs > 0 {
                Some(path)
            } else {
                None
            },
            None => None,
        }
    }
}

/// Flags win over every other layer, and what no flag sets stays.
pub proof fn flags_win(config: ConfigView, flags: Flags)
    ensures
        config.under(flags).obeys(flags),
        config.obeys(flags) ==> config.under(flags) == config,
{
}

/// The built-in defaults, setting by setting: no database and no repository.
pub proof fn defaults_are_built_in(config: Config)
    requires
        call_ensures(Config::default, (), config),
    ensures
        config.db is None,
        config.listen@ == "0.0.0.0:7777"@,
        config.br_bin@ == "br"@,
        config.repo is None,
        config.commit_interval_secs == 30,
        config.mcp_path@ == "/mcp"@,
        config.health_path@ == "/health"@,
        config.git_author_name@ == "beadsd"@,
        config.git_author_email@ == "beadsd@localhost"@,
{
}

/// The layers are merged in a fixed order, so that the later ones win: the
/// system's file, the user's, the one that was asked for, where there is one,
/// and the environment.
pub proof fn later_layers_are_more_specific(
    home: Option<String>,
    explicit: Option<PathBuf>,
    list: Vec<Layer>,
)
    requires
        call_ensures(Config::layers, (home, explicit), list),
    ensures
        list@.len() == if explicit is Some {
            4int
        } else {
            3
        },
        list@[0] matches Layer::File(path) && path@ == "/etc/beadsd/config.toml"@,
        list@[1] matches Layer::File(path) && {
            &&& home is Some ==> path@ == home->0@ + "/.config/beadsd/config.toml"@
            &&& home is None ==> path@ == "/home/tcovert/.config/beadsd/config.toml"@
        },
        explicit is Some ==> (list@[2] matches Layer::Explicit(path) && path == explicit->0),
        list@.last() matches Layer::Env(prefix) && prefix@ == "BEADSD_"@,
{
    let views = list@.map_values(|layer: Layer| layer@);
    assert(views == layers_for(opt_text(home), explicit));
    assert(views.len() == list@.len());
    assert(views[0] == list@[0]@);
    assert(views[1] == list@[1]@);
    assert(views[2] == list@[2]@);
    assert(views[list@.len() - 1] == list@[list@.len() - 1]@);
    reveal_strlit("/home/tcovert");
    reveal_strlit("/.config/beadsd/config.toml");
    reveal_strlit("/home/tcovert/.config/beadsd/config.toml");
    assert("/home/tcovert"@ + "/.config/beadsd/config.toml"@
        == "/home/tcovert/.config/beadsd/config.toml"@);
}

/// Each flag that is set overrides its own setting and no other; each one that
/// is not set leaves its setting as it was.
pub proof fn flags_override_their_own_settings(before: Config, flags: Flags, after: Config)
    requires
        exists|config: &mut Config| #[trigger]
            call_ensures(Config::apply, (config, flags), ()) && *config == before && *final(config)
                == after,
    ensures
        after.db == (if flags.db is Some {
            flags.db
        } else {
            before.db
        }),
        after.listen@ == (if flags.listen is Some {
            flags.listen->0@
        } else {
            before.listen@
        }),
        after.br_bin@ == (if flags.br_bin is Some {
            flags.br_bin->0@
        } else {
            before.br_bin@
        }),
        after.repo == (if flags.repo is Some {
            flags.repo
        } else {
            before.repo
        }),
        after.commit_interval_secs == (if flags.commit_interval_secs is Some {
            flags.commit_interval_secs->0
        } else {
            before.commit_interval_secs
        }),
        after.mcp_path@ == before.mcp_path@,
        after.health_path@ == before.health_path@,
        after.git_author_name@ == before.git_author_name@,
        after.git_author_email@ == before.git_author_email@,
{
}

/// Snapshots are committed to the repository that is configured, unless there is
/// none or the interval is zero; and without a database nothing is served.
pub proof fn a_repository_and_an_interval_make_a_committer(
    config: Config,
    repo: Option<&PathBuf>,
    db: Result<&PathBuf, &'static str>,
)
    requires
        call_ensures(Config::committer_repo, (&config,), repo),
        call_ensures(Config::required_db, (&config,), db),
    ensures
        repo is Some <==> config.repo is Some && config.commit_interval_secs > 0,
        repo matches Some(path) ==> config.repo == Some(*path),
        db is Ok <==> config.db is Some,
        db matches Ok(path) ==> config.db == Some(*path),
        db matches Err(message) ==> message@
            == "no db configured (set `db` in config or pass --db)"@,
{
}

} // verus!

//! Which service the client talks to.

use vstd::prelude::*;
use vstd::utf8::*;

use crate::paths::{join as join_path, path_join};
use crate::process::{lossy_text, to_text};
use crate::text::{
    halves, halves_of_a_joined_pair, is_text, join, joined, opt_text, pieces, pieces_of_one,
    pieces_of_two, split, split_once, starts_with, texts, texts_are_those_of_the_strings,
    texts_without_a_separator_have_no_halves, trim, trimmed, trimmed_texts_have_bare_ends,
    trimming_is_idempotent,
};

verus! {

/// The file that maps projects to services: `beads/remotes.env` in the
/// configuration directory, which is `.config` in the home directory where
/// nothing else is set. An empty setting counts as none.
pub open spec fn remotes_file(config: Option<Seq<u8>>, home: Option<Seq<u8>>) -> Seq<u8> {
    let base = if config is Some && config->0.len() > 0 {
        config->0
    } else {
        path_join(
            match home {
                Some(dir) => dir,
                None => Seq::empty(),
            },
            encode_utf8(".config"@),
        )
    };
    path_join(path_join(base, encode_utf8("beads"@)), encode_utf8("remotes.env"@))
}

/// The bytes of an optional path.
pub open spec fn opt_bytes(path: Option<Vec<u8>>) -> Option<Seq<u8>> {
    match path {
        Some(p) => Some(p@),
        None => None,
    }
}

/// The file that maps projects to services, given `$XDG_CONFIG_HOME` and
/// `$HOME`.
pub fn remotes_env_path(config: Option<Vec<u8>>, home: Option<Vec<u8>>) -> (path: Vec<u8>)
    ensures
        path@ == remotes_file(opt_bytes(config), opt_bytes(home)),
{
    let set: Vec<u8> = match config {
        Some(dir) => dir,
        None => Vec::new(),
    };
    let base: Vec<u8> = if set.len() > 0 {
        set
    } else {
        let dir: Vec<u8> = match home {
            Some(dir) => dir,
            None => Vec::new(),
        };
        join_path(dir, ".config")
    };
    join_path(join_path(base, "beads"), "remotes.env")
}

/// The key and the url on a line `key=url`. Blank lines and lines that begin
/// with `#` have none.
pub open spec fn remote_on(line: Seq<char>) -> Option<(Seq<char>, Seq<char>)> {
    let content = trimmed(line);
    if content.len() == 0 || content[0] == '#' {
        None
    } else {
        match halves(content, '=') {
            Some(parts) => Some((trimmed(parts.0), trimmed(parts.1))),
            None => None,
        }
    }
}

/// The keys and urls on some lines, in their order.
pub open spec fn remotes_on(lines: Seq<Seq<char>>) -> Seq<(Seq<char>, Seq<char>)>
    decreases lines.len(),
{
    if lines.len() == 0 {
        Seq::empty()
    } else {
        let before = remotes_on(lines.drop_last());
        match remote_on(lines.last()) {
            Some(pair) => before.push(pair),
            None => before,
        }
    }
}

/// The keys and urls in the text of a file that may not be readable.
pub open spec fn remotes_in(file: Option<Seq<char>>) -> Seq<(Seq<char>, Seq<char>)> {
    match file {
        Some(text) => remotes_on(pieces(text, '\n')),
        None => Seq::empty(),
    }
}

/// The texts of a list of pairs.
pub open spec fn pair_texts(list: Seq<(String, String)>) -> Seq<(Seq<char>, Seq<char>)> {
    list.map_values(|pair: (String, String)| (pair.0@, pair.1@))
}

/// The key and the url on a line.
fn parse_line(line: &str) -> (pair: Option<(String, String)>)
    ensures
        match pair {
            Some((key, url)) => remote_on(line@) == Some((key@, url@)),
            None => remote_on(line@) is None,
        },
{
    let content: String = trim(line);
    if content.as_str().is_empty() {
        return None;
    }
    proof {
        reveal_strlit("#");
    }
    if starts_with(content.as_str(), "#") {
        assert(content@[0] == "#"@[0]);
        return None;
    }
    assert(content@[0] != '#') by {
        if content@[0] == '#' {
            assert(content@.subrange(0, 1) == "#"@);
        }
    }
    match split_once(content.as_str(), '=') {
        Some((key, url)) => Some((trim(key.as_str()), trim(url.as_str()))),
        None => None,
    }
}

/// The keys and urls in the text of the remotes file, none where it could not
/// be read.
pub fn parse_remotes(file: Option<String>) -> (remotes: Vec<(String, String)>)
    ensures
        pair_texts(remotes@) == remotes_in(opt_text(file)),
{
    let mut remotes: Vec<(String, String)> = Vec::new();
    match file {
        None => {},
        Some(text) => {
            let lines: Vec<String> = split(text.as_str(), '\n');
            let ghost all = texts(lines@);
            let mut i: usize = 0;
            assert(all.take(0) == Seq::<Seq<char>>::empty());
            while i < lines.len()
                invariant
                    i <= lines.len(),
                    all == texts(lines@),
                    pair_texts(remotes@) == remotes_on(all.take(i as int)),
                decreases lines.len() - i,
            {
                assert(all.take(i + 1).drop_last() == all.take(i as int));
                assert(all.take(i + 1).last() == lines@[i as int]@);
                let ghost before = pair_texts(remotes@);
                match parse_line(lines[i].as_str()) {
                    Some(pair) => {
                        remotes.push(pair);
                        assert(pair_texts(remotes@) == before.push((pair.0@, pair.1@)));
                    },
                    None => {},
                }
                i = i + 1;
            }
            assert(all.take(lines.len() as int) == all);
        },
    }
    remotes
}

/// A directory on the way from the current one to the root.
#[derive(Debug)]
pub struct Ancestor {
    /// Whether it has an entry `.jj`.
    pub has_jj: bool,
    /// Whether it has an entry `.git`.
    pub has_git: bool,
    /// Its name; the root has none.
    pub name: Option<String>,
}

/// The name of the nearest directory that is a repository. `ancestors` begins
/// with the current directory.
pub open spec fn repo_among(ancestors: Seq<Ancestor>) -> Option<Seq<char>>
    decreases ancestors.len(),
{
    if ancestors.len() == 0 {
        None
    } else if ancestors[0].has_jj || ancestors[0].has_git {
        opt_text(ancestors[0].name)
    } else {
        repo_among(ancestors.skip(1))
    }
}

/// The name of the repository that the current directory lies in, and nothing
/// outside any repository.
pub fn repo_key(ancestors: &Vec<Ancestor>) -> (key: Option<String>)
    ensures
        opt_text(key) == repo_among(ancestors@),
{
    let mut i: usize = 0;
    assert(ancestors@.skip(0) == ancestors@);
    while i < ancestors.len()
        invariant
            i <= ancestors.len(),
            repo_among(ancestors@) == repo_among(ancestors@.skip(i as int)),
        decreases ancestors.len() - i,
    {
        assert(ancestors@.skip(i as int).skip(1) == ancestors@.skip(i + 1));
        if ancestors[i].has_jj || ancestors[i].has_git {
            return match &ancestors[i].name {
                Some(name) => Some(name.clone()),
                None => None,
            };
        }
        i = i + 1;
    }
    None
}

/// The url of the first remote under `key`.
pub open spec fn url_of(remotes: Seq<(Seq<char>, Seq<char>)>, key: Seq<char>) -> Option<Seq<char>>
    decreases remotes.len(),
{
    if remotes.len() == 0 {
        None
    } else if remotes[0].0 == key {
        Some(remotes[0].1)
    } else {
        url_of(remotes.skip(1), key)
    }
}

/// The url of the first remote under `key`.
fn pick(remotes: &Vec<(String, String)>, key: &str) -> (url: Option<String>)
    ensures
        opt_text(url) == url_of(pair_texts(remotes@), key@),
{
    let ghost all = pair_texts(remotes@);
    let mut i: usize = 0;
    assert(all.skip(0) == all);
    while i < remotes.len()
        invariant
            i <= remotes.len(),
            all == pair_texts(remotes@),
            url_of(all, key@) == url_of(all.skip(i as int), key@),
        decreases remotes.len() - i,
    {
        assert(all.skip(i as int).skip(1) == all.skip(i + 1));
        assert(all.skip(i as int)[0] == (remotes@[i as int].0@, remotes@[i as int].1@));
        if is_text(&remotes[i].0, key) {
            return Some(remotes[i].1.clone());
        }
        i = i + 1;
    }
    None
}

/// The url chosen among the remotes: the current repository's, else the one
/// under `default`, else the one under `mu`, else the only one.
pub open spec fn chosen(
    remotes: Seq<(Seq<char>, Seq<char>)>,
    repo: Option<Seq<char>>,
) -> Option<Seq<char>> {
    if repo is Some && url_of(remotes, repo->0) is Some {
        url_of(remotes, repo->0)
    } else if url_of(remotes, "default"@) is Some {
        url_of(remotes, "default"@)
    } else if url_of(remotes, "mu"@) is Some {
        url_of(remotes, "mu"@)
    } else if remotes.len() == 1 {
        Some(remotes[0].1)
    } else {
        None
    }
}

/// Why no service could be chosen.
#[derive(Debug)]
pub enum ResolveError {
    /// Nothing was given, and the remotes file at `path` names none.
    NoRemotes { path: String },
    /// None of the remotes under `keys` in the file at `path` is the one.
    Undecided { path: String, keys: Vec<String> },
}

/// The model of a [`ResolveError`].
pub enum ResolveErrorView {
    NoRemotes { path: Seq<char> },
    Undecided { path: Seq<char>, keys: Seq<Seq<char>> },
}

impl View for ResolveError {
    type V = ResolveErrorView;

    open spec fn view(&self) -> ResolveErrorView {
        match self {
            ResolveError::NoRemotes { path } => ResolveErrorView::NoRemotes { path: path@ },
            ResolveError::Undecided { path, keys } => ResolveErrorView::Undecided {
                path: path@,
                keys: texts(keys@),
            },
        }
    }
}

impl ResolveErrorView {
    /// The message to the user.
    pub open spec fn message(self) -> Seq<char> {
        match self {
            ResolveErrorView::NoRemotes { path } =>
                "beads: no --url, no $BEADS_REMOTE, and no usable "@ + path
                    + " — pass --url <beadsd-mcp-url>"@,
            ResolveErrorView::Undecided { path, keys } =>
                "beads: couldn't pick a beadsd endpoint — set $BEADS_REMOTE, pass --url, or add a `default=` line to "@
                    + path + " (have: "@ + joined(keys, ", "@) + ")"@,
        }
    }
}

impl ResolveError {
    /// The message to the user.
    pub fn message(&self) -> (s: String)
        ensures
            s@ == self@.message(),
    {
        match self {
            ResolveError::NoRemotes { path } => {
                let mut s: String = "beads: no --url, no $BEADS_REMOTE, and no usable ".to_owned();
                s.append(path.as_str());
                s.append(" — pass --url <beadsd-mcp-url>");
                s
            },
            ResolveError::Undecided { path, keys } => {
                let mut s: String = "beads: couldn't pick a beadsd endpoint — set $BEADS_REMOTE, pass --url, or add a `default=` line to ".to_owned();
                s.append(path.as_str());
                s.append(" (have: ");
                s.append(join(keys, ", ").as_str());
                s.append(")");
                s
            },
        }
    }
}

/// The keys of a list of remotes.
pub open spec fn keys_of(remotes: Seq<(Seq<char>, Seq<char>)>) -> Seq<Seq<char>> {
    remotes.map_values(|pair: (Seq<char>, Seq<char>)| pair.0)
}

/// Whether a url is given: an empty one counts as none.
pub open spec fn given(explicit: Option<Seq<char>>) -> bool {
    explicit is Some && explicit->0.len() > 0
}

/// Whether a url is given, so that neither the remotes file nor the current
/// repository matters.
pub fn is_given(explicit: &Option<String>) -> (yes: bool)
    ensures
        yes == given(opt_text(*explicit)),
{
    match explicit {
        Some(url) => !url.as_str().is_empty(),
        None => false,
    }
}

/// The url that is settled on, or why none is.
pub open spec fn resolved(
    explicit: Option<Seq<char>>,
    path: Seq<char>,
    remotes: Seq<(Seq<char>, Seq<char>)>,
    repo: Option<Seq<char>>,
) -> Result<Seq<char>, ResolveErrorView> {
    if given(explicit) {
        Ok(explicit->0)
    } else if remotes.len() == 0 {
        Err(ResolveErrorView::NoRemotes { path })
    } else if chosen(remotes, repo) is Some {
        Ok(chosen(remotes, repo)->0)
    } else {
        Err(ResolveErrorView::Undecided { path, keys: keys_of(remotes) })
    }
}

/// The model of a resolution.
pub open spec fn resolution(result: Result<String, ResolveError>) -> Result<
    Seq<char>,
    ResolveErrorView,
> {
    match result {
        Ok(url) => Ok(url@),
        Err(error) => Err(error@),
    }
}

/// The keys of a list of remotes.
fn keys(remotes: &Vec<(String, String)>) -> (list: Vec<String>)
    ensures
        texts(list@) == keys_of(pair_texts(remotes@)),
{
    let ghost all = keys_of(pair_texts(remotes@));
    let mut list: Vec<String> = Vec::new();
    let mut i: usize = 0;
    while i < remotes.len()
        invariant
            i <= remotes.len(),
            all == keys_of(pair_texts(remotes@)),
            texts(list@) == all.take(i as int),
        decreases remotes.len() - i,
    {
        let ghost before = texts(list@);
        list.push(remotes[i].0.clone());
        assert(texts(list@) == before.push(remotes@[i as int].0@));
        assert(all.take(i + 1) == all.take(i as int).push(all[i as int]));
        i = i + 1;
    }
    assert(all.take(remotes.len() as int) == all);
    list
}

/// The url of the service: one that is given wins; else the remotes file
/// decides, by the current repository, then `default`, then `mu`, then the sole
/// entry. `path` is where the file is, and `file` its text where it could be
/// read.
pub fn resolve_url(
    explicit: Option<String>,
    path: &Vec<u8>,
    file: Option<String>,
    repo: Option<String>,
) -> (result: Result<String, ResolveError>)
    ensures
        resolution(result) == resolved(
            opt_text(explicit),
            lossy_text(path@),
            remotes_in(opt_text(file)),
            opt_text(repo),
        ),
        valid_utf8(path@) ==> resolution(result) == resolved(
            opt_text(explicit),
            decode_utf8(path@),
            remotes_in(opt_text(file)),
            opt_text(repo),
        ),
{
    let shown: String = to_text(path);
    match explicit {
        Some(url) => {
            if !url.as_str().is_empty() {
                return Ok(url);
            }
        },
        None => {},
    }
    let remotes: Vec<(String, String)> = parse_remotes(file);
    if remotes.len() == 0 {
        return Err(ResolveError::NoRemotes { path: shown });
    }
    match repo {
        Some(name) => match pick(&remotes, name.as_str()) {
            Some(url) => {
                return Ok(url);
            },
            None => {},
        },
        None => {},
    }
    match pick(&remotes, "default") {
        Some(url) => {
            return Ok(url);
        },
        None => {},
    }
    match pick(&remotes, "mu") {
        Some(url) => {
            return Ok(url);
        },
        None => {},
    }
    if remotes.len() == 1 {
        return Ok(remotes[0].1.clone());
    }
    Err(ResolveError::Undecided { path: shown, keys: keys(&remotes) })
}

/// A url that is given wins, whatever the file and the current directory hold.
pub proof fn given_urls_win(
    url: Seq<char>,
    path: Seq<char>,
    remotes: Seq<(Seq<char>, Seq<char>)>,
    repo: Option<Seq<char>>,
)
    requires
        given(Some(url)),
    ensures
        resolved(Some(url), path, remotes, repo) == Ok::<Seq<char>, ResolveErrorView>(url),
{
}

/// A line `key=url` is read as that key and that url. The key is neither empty
/// nor a comment and has no `=`, and neither text begins or ends with
/// whitespace.
pub proof fn lines_are_read_as_written(key: Seq<char>, url: Seq<char>)
    requires
        key.len() > 0,
        key[0] != '#',
        !key.contains('='),
        trimmed(key) == key,
        trimmed(url) == url,
    ensures
        remote_on(key.push('=') + url) == Some((key, url)),
{
    let line = key.push('=') + url;
    trimmed_texts_have_bare_ends(key);
    trimmed_texts_have_bare_ends(url);
    trimmed_texts_have_bare_ends(line);
    halves_of_a_joined_pair(key, '=', url);
}

/// The remotes on two lists of lines, one after the other.
proof fn remotes_on_two(a: Seq<Seq<char>>, b: Seq<Seq<char>>)
    ensures
        remotes_on(a + b) == remotes_on(a) + remotes_on(b),
    decreases b.len(),
{
    if b.len() == 0 {
        assert(a + b == a);
        assert(remotes_on(a) + remotes_on(b) == remotes_on(a));
    } else {
        remotes_on_two(a, b.drop_last());
        assert((a + b).drop_last() == a + b.drop_last());
        assert(remotes_on(a + b) == remotes_on(a) + remotes_on(b));
    }
}

/// Reading one text after another gives what the first one gives and then what
/// the second one gives.
pub proof fn texts_are_read_in_order(first: Seq<char>, second: Seq<char>)
    ensures
        remotes_in(Some(first + "\n"@ + second)) == remotes_in(Some(first)) + remotes_in(
            Some(second),
        ),
{
    reveal_strlit("\n");
    assert(first + "\n"@ + second == first.push('\n') + second);
    pieces_of_two(first, '\n', second);
    remotes_on_two(pieces(first, '\n'), pieces(second, '\n'));
}

/// A remote that is added to the file on a line of its own is read after those
/// that stood there. The key and the url are as `lines_are_read_as_written` asks
/// and lie on one line.
pub proof fn added_remotes_are_read_last(text: Seq<char>, key: Seq<char>, url: Seq<char>)
    requires
        key.len() > 0,
        key[0] != '#',
        !key.contains('='),
        !key.contains('\n'),
        !url.contains('\n'),
        trimmed(key) == key,
        trimmed(url) == url,
    ensures
        remotes_in(Some(text + "\n"@ + key + "="@ + url)) == remotes_in(Some(text)).push(
            (key, url),
        ),
{
    let line = key.push('=') + url;
    reveal_strlit("=");
    assert(text + "\n"@ + key + "="@ + url == text + "\n"@ + line);
    assert(!line.contains('\n')) by {
        if line.contains('\n') {
            let i = choose|i: int| 0 <= i < line.len() && line[i] == '\n';
            if i < key.len() {
                assert(key[i] == '\n');
            } else if i > key.len() {
                assert(url[i - key.len() - 1] == '\n');
            }
        }
    }
    texts_are_read_in_order(text, line);
    pieces_of_one(line, '\n');
    lines_are_read_as_written(key, url);
    let lines = pieces(line, '\n');
    assert(remotes_on(lines.drop_last()) == Seq::<(Seq<char>, Seq<char>)>::empty());
    assert(remotes_on(lines) == seq![(key, url)]);
}

/// No key and no url that is read begins or ends with whitespace.
pub proof fn remotes_have_bare_ends(lines: Seq<Seq<char>>)
    ensures
        forall|i: int|
            0 <= i < remotes_on(lines).len() ==> {
                let pair = #[trigger] remotes_on(lines)[i];
                &&& trimmed(pair.0) == pair.0
                &&& trimmed(pair.1) == pair.1
            },
    decreases lines.len(),
{
    if lines.len() > 0 {
        remotes_have_bare_ends(lines.drop_last());
        match halves(trimmed(lines.last()), '=') {
            Some(parts) => {
                trimming_is_idempotent(parts.0);
                trimming_is_idempotent(parts.1);
            },
            None => {},
        }
        let before = remotes_on(lines.drop_last());
        assert forall|i: int| 0 <= i < remotes_on(lines).len() implies {
            let pair = #[trigger] remotes_on(lines)[i];
            &&& trimmed(pair.0) == pair.0
            &&& trimmed(pair.1) == pair.1
        } by {
            if i < before.len() {
                assert(remotes_on(lines)[i] == before[i]);
            }
        }
    }
}

/// A url found under a key stands under that key in the file, and none of the
/// entries before it has that key.
proof fn url_of_is_first(remotes: Seq<(Seq<char>, Seq<char>)>, key: Seq<char>)
    ensures
        match url_of(remotes, key) {
            Some(url) => exists|i: int|
                0 <= i < remotes.len() && #[trigger] remotes[i] == (key, url) && forall|j: int|
                    0 <= j < i ==> (#[trigger] remotes[j]).0 != key,
            None => forall|j: int| 0 <= j < remotes.len() ==> (#[trigger] remotes[j]).0 != key,
        },
    decreases remotes.len(),
{
    if remotes.len() > 0 && remotes[0].0 != key {
        let rest = remotes.skip(1);
        url_of_is_first(rest, key);
        match url_of(rest, key) {
            Some(url) => {
                let i = choose|i: int|
                    0 <= i < rest.len() && #[trigger] rest[i] == (key, url) && forall|j: int|
                        0 <= j < i ==> (#[trigger] rest[j]).0 != key;
                assert(remotes[i + 1] == (key, url));
                assert forall|j: int| 0 <= j < i + 1 implies (#[trigger] remotes[j]).0 != key by {
                    if j > 0 {
                        assert(remotes[j] == rest[j - 1]);
                    }
                }
            },
            None => {
                assert forall|j: int| 0 <= j < remotes.len() implies (#[trigger] remotes[j]).0
                    != key by {
                    if j > 0 {
                        assert(remotes[j] == rest[j - 1]);
                    }
                }
            },
        }
    } else if remotes.len() > 0 {
        assert(remotes[0] == (key, remotes[0].1));
    }
}

/// The url that is chosen stands in the file. It is the current repository's
/// where the file has one for it.
pub proof fn chosen_urls_stand_in_the_file(
    remotes: Seq<(Seq<char>, Seq<char>)>,
    repo: Option<Seq<char>>,
)
    ensures
        chosen(remotes, repo) is Some ==> exists|i: int|
            0 <= i < remotes.len() && (#[trigger] remotes[i]).1 == chosen(remotes, repo)->0,
        repo is Some && (exists|i: int| 0 <= i < remotes.len() && (#[trigger] remotes[i]).0 == repo->0)
            ==> exists|i: int|
            0 <= i < remotes.len() && #[trigger] remotes[i] == (
                repo->0,
                chosen(remotes, repo)->0,
            ) && chosen(remotes, repo) is Some,
{
    if repo is Some {
        url_of_is_first(remotes, repo->0);
    }
    url_of_is_first(remotes, "default"@);
    url_of_is_first(remotes, "mu"@);
}

/// A file with a single remote always settles the matter.
pub proof fn a_single_remote_is_chosen(
    remotes: Seq<(Seq<char>, Seq<char>)>,
    repo: Option<Seq<char>>,
)
    requires
        remotes.len() == 1,
    ensures
        chosen(remotes, repo) == Some(remotes[0].1),
{
    if repo is Some {
        url_of_is_first(remotes, repo->0);
    }
    url_of_is_first(remotes, "default"@);
    url_of_is_first(remotes, "mu"@);
}

/// The pairs of a list, text by text.
proof fn pairs_are_those_of_the_strings(list: Seq<(String, String)>)
    ensures
        pair_texts(list).len() == list.len(),
        forall|i: int|
            0 <= i < list.len() ==> #[trigger] pair_texts(list)[i] == (list[i].0@, list[i].1@),
{
}

/// Where one of the entries is the first under a key, its url is the one under
/// that key.
proof fn first_entries_count(remotes: Seq<(String, String)>, key: Seq<char>, i: int)
    requires
        0 <= i < remotes.len(),
        remotes[i].0@ == key,
        forall|j: int| 0 <= j < i ==> (#[trigger] remotes[j]).0@ != key,
    ensures
        url_of(pair_texts(remotes), key) == Some(remotes[i].1@),
{
    let all = pair_texts(remotes);
    pairs_are_those_of_the_strings(remotes);
    url_of_is_first(all, key);
    assert(all[i] == (remotes[i].0@, remotes[i].1@));
    let url = url_of(all, key)->0;
    let k = choose|k: int|
        0 <= k < all.len() && #[trigger] all[k] == (key, url) && forall|j: int|
            0 <= j < k ==> (#[trigger] all[j]).0 != key;
    if k < i {
        assert(all[k] == (remotes[k].0@, remotes[k].1@));
        assert(remotes[k].0@ != key);
    } else if i < k {
        assert(all[i].0 != key);
    }
}

/// Where no entry has a key, there is no url under it.
proof fn missing_entries_give_nothing(remotes: Seq<(String, String)>, key: Seq<char>)
    requires
        forall|j: int| 0 <= j < remotes.len() ==> (#[trigger] remotes[j]).0@ != key,
    ensures
        url_of(pair_texts(remotes), key) is None,
{
    let all = pair_texts(remotes);
    pairs_are_those_of_the_strings(remotes);
    url_of_is_first(all, key);
    if url_of(all, key) is Some {
        let url = url_of(all, key)->0;
        let k = choose|k: int|
            0 <= k < all.len() && #[trigger] all[k] == (key, url) && forall|j: int|
                0 <= j < k ==> (#[trigger] all[j]).0 != key;
        assert(all[k] == (remotes[k].0@, remotes[k].1@));
        assert(remotes[k].0@ != key);
    }
}

/// A url that is not empty counts as given, and it is the one that is settled
/// on, whatever the file and the repository are. An empty one counts as none.
pub proof fn urls_that_are_given_are_settled_on(
    explicit: Option<String>,
    path: Vec<u8>,
    file: Option<String>,
    repo: Option<String>,
    result: Result<String, ResolveError>,
    yes: bool,
)
    requires
        call_ensures(is_given, (&explicit,), yes),
        call_ensures(resolve_url, (explicit, &path, file, repo), result),
    ensures
        yes <==> explicit is Some && explicit->0@.len() > 0,
        yes ==> result is Ok && result->Ok_0@ == explicit->0@,
{
}

/// Where no url is given and the file has entries under the name of the current
/// repository, the first of them, at `i`, has the url that is settled on, even
/// where there are other entries, under `default` or `mu` for example.
pub proof fn the_repositorys_own_entry_wins(
    explicit: Option<String>,
    path: Vec<u8>,
    file: Option<String>,
    repo: Option<String>,
    remotes: Vec<(String, String)>,
    i: int,
    result: Result<String, ResolveError>,
)
    requires
        call_ensures(parse_remotes, (file,), remotes),
        call_ensures(resolve_url, (explicit, &path, file, repo), result),
        explicit is None || explicit->0@.len() == 0,
        repo is Some,
        0 <= i < remotes@.len(),
        remotes@[i].0@ == repo->0@,
        forall|j: int| 0 <= j < i ==> (#[trigger] remotes@[j]).0@ != repo->0@,
    ensures
        result is Ok,
        result->Ok_0@ == remotes@[i].1@,
{
    first_entries_count(remotes@, repo->0@, i);
    pairs_are_those_of_the_strings(remotes@);
}

/// Where no url is given and no entry is the current repository's, the first
/// entry under `default`, at `i`, has the url that is settled on.
pub proof fn default_is_next(
    explicit: Option<String>,
    path: Vec<u8>,
    file: Option<String>,
    repo: Option<String>,
    remotes: Vec<(String, String)>,
    i: int,
    result: Result<String, ResolveError>,
)
    requires
        call_ensures(parse_remotes, (file,), remotes),
        call_ensures(resolve_url, (explicit, &path, file, repo), result),
        explicit is None || explicit->0@.len() == 0,
        repo is Some ==> forall|j: int|
            0 <= j < remotes@.len() ==> (#[trigger] remotes@[j]).0@ != repo->0@,
        0 <= i < remotes@.len(),
        remotes@[i].0@ == "default"@,
        forall|j: int| 0 <= j < i ==> (#[trigger] remotes@[j]).0@ != "default"@,
    ensures
        result is Ok,
        result->Ok_0@ == remotes@[i].1@,
{
    if repo is Some {
        missing_entries_give_nothing(remotes@, repo->0@);
    }
    first_entries_count(remotes@, "default"@, i);
    pairs_are_those_of_the_strings(remotes@);
}

/// Where no url is given and no entry is the current repository's or `default`,
/// the first entry under `mu`, at `i`, has the url that is settled on.
pub proof fn mu_is_next(
    explicit: Option<String>,
    path: Vec<u8>,
    file: Option<String>,
    repo: Option<String>,
    remotes: Vec<(String, String)>,
    i: int,
    result: Result<String, ResolveError>,
)
    requires
        call_ensures(parse_remotes, (file,), remotes),
        call_ensures(resolve_url, (explicit, &path, file, repo), result),
        explicit is None || explicit->0@.len() == 0,
        repo is Some ==> forall|j: int|
            0 <= j < remotes@.len() ==> (#[trigger] remotes@[j]).0@ != repo->0@,
        forall|j: int| 0 <= j < remotes@.len() ==> (#[trigger] remotes@[j]).0@ != "default"@,
        0 <= i < remotes@.len(),
        remotes@[i].0@ == "mu"@,
        forall|j: int| 0 <= j < i ==> (#[trigger] remotes@[j]).0@ != "mu"@,
    ensures
        result is Ok,
        result->Ok_0@ == remotes@[i].1@,
{
    if repo is Some {
        missing_entries_give_nothing(remotes@, repo->0@);
    }
    missing_entries_give_nothing(remotes@, "default"@);
    first_entries_count(remotes@, "mu"@, i);
    pairs_are_those_of_the_strings(remotes@);
}

/// Where no url is given and the file has a single entry, that one has the url
/// that is settled on, whatever its key is; and where it has none, it is told
/// which file was looked at.
pub proof fn sole_entries_win(
    explicit: Option<String>,
    path: Vec<u8>,
    file: Option<String>,
    repo: Option<String>,
    remotes: Vec<(String, String)>,
    result: Result<String, ResolveError>,
)
    requires
        call_ensures(parse_remotes, (file,), remotes),
        call_ensures(resolve_url, (explicit, &path, file, repo), result),
        explicit is None || explicit->0@.len() == 0,
    ensures
        remotes@.len() == 1 ==> result is Ok && result->Ok_0@ == remotes@[0].1@,
        remotes@.len() == 0 ==> (result matches Err(ResolveError::NoRemotes { path: shown })
            && shown@ == lossy_text(path@)),
{
    let all = pair_texts(remotes@);
    pairs_are_those_of_the_strings(remotes@);
    if remotes@.len() == 1 {
        a_single_remote_is_chosen(all, opt_text(repo));
        assert(all[0] == (remotes@[0].0@, remotes@[0].1@));
    }
}

/// Where no url is given and of several entries none is the current
/// repository's, `default` or `mu`, nothing is settled on, and it is told which
/// file was looked at and which keys it has.
pub proof fn otherwise_nothing_is_settled_on(
    explicit: Option<String>,
    path: Vec<u8>,
    file: Option<String>,
    repo: Option<String>,
    remotes: Vec<(String, String)>,
    result: Result<String, ResolveError>,
)
    requires
        call_ensures(parse_remotes, (file,), remotes),
        call_ensures(resolve_url, (explicit, &path, file, repo), result),
        explicit is None || explicit->0@.len() == 0,
        remotes@.len() > 1,
        repo is Some ==> forall|j: int|
            0 <= j < remotes@.len() ==> (#[trigger] remotes@[j]).0@ != repo->0@,
        forall|j: int|
            0 <= j < remotes@.len() ==> (#[trigger] remotes@[j]).0@ != "default"@ && remotes@[j].0@
                != "mu"@,
    ensures
        result matches Err(ResolveError::Undecided { path: shown, keys }) && {
            &&& shown@ == lossy_text(path@)
            &&& keys@.len() == remotes@.len()
            &&& forall|i: int| 0 <= i < keys@.len() ==> (#[trigger] keys@[i])@ == remotes@[i].0@
        },
{
    let all = pair_texts(remotes@);
    pairs_are_those_of_the_strings(remotes@);
    if repo is Some {
        missing_entries_give_nothing(remotes@, repo->0@);
    }
    missing_entries_give_nothing(remotes@, "default"@);
    missing_entries_give_nothing(remotes@, "mu"@);
    assert(resolution(result) == Err::<Seq<char>, ResolveErrorView>(
        ResolveErrorView::Undecided { path: lossy_text(path@), keys: keys_of(all) },
    ));
    match result {
        Err(ResolveError::Undecided { path: shown, keys }) => {
            texts_are_those_of_the_strings(keys@);
            assert(texts(keys@) == keys_of(all));
            assert forall|i: int| 0 <= i < keys@.len() implies (#[trigger] keys@[i])@
                == remotes@[i].0@ by {
                assert(texts(keys@)[i] == all[i].0);
            }
        },
        _ => {},
    }
}

/// The message names the file that was looked at, and the keys that it has,
/// joined by commas, where there are any.
pub proof fn messages_name_the_file(
    error: ResolveError,
    message: String,
    listed: Vec<String>,
    joined_keys: String,
)
    requires
        call_ensures(ResolveError::message, (&error,), message),
        error matches ResolveError::Undecided { path, keys } ==> listed@ == keys@,
        call_ensures(join, (&listed, ", "), joined_keys),
    ensures
        error matches ResolveError::NoRemotes { path } ==> message@
            == "beads: no --url, no $BEADS_REMOTE, and no usable "@ + path@
            + " — pass --url <beadsd-mcp-url>"@,
        error matches ResolveError::Undecided { path, keys } ==> message@
            == "beads: couldn't pick a beadsd endpoint — set $BEADS_REMOTE, pass --url, or add a `default=` line to "@
            + path@ + " (have: "@ + joined_keys@ + ")"@,
{
}

/// The entries of a file that has two texts, one after the other on lines of
/// their own, are those of the first and then those of the second. Without a
/// file there are none.
pub proof fn files_are_read_in_order(
    first: String,
    of_first: Vec<(String, String)>,
    second: String,
    of_second: Vec<(String, String)>,
    whole: String,
    of_whole: Vec<(String, String)>,
    of_none: Vec<(String, String)>,
)
    requires
        whole@ == first@ + "\n"@ + second@,
        call_ensures(parse_remotes, (Some(first),), of_first),
        call_ensures(parse_remotes, (Some(second),), of_second),
        call_ensures(parse_remotes, (Some(whole),), of_whole),
        call_ensures(parse_remotes, (None,), of_none),
    ensures
        of_none@.len() == 0,
        of_whole@.len() == of_first@.len() + of_second@.len(),
        forall|i: int|
            0 <= i < of_first@.len() ==> (#[trigger] of_whole@[i]).0@ == of_first@[i].0@
                && of_whole@[i].1@ == of_first@[i].1@,
        forall|i: int|
            0 <= i < of_second@.len() ==> of_whole@[of_first@.len() + i].0@ == (
            #[trigger] of_second@[i]).0@ && of_whole@[of_first@.len() + i].1@ == of_second@[i].1@,
{
    texts_are_read_in_order(first@, second@);
    pairs_are_those_of_the_strings(of_none@);
    pairs_are_those_of_the_strings(of_first@);
    pairs_are_those_of_the_strings(of_second@);
    pairs_are_those_of_the_strings(of_whole@);
    assert(opt_text(Some(whole)) == Some(first@ + "\n"@ + second@));
    let a = pair_texts(of_first@);
    let b = pair_texts(of_second@);
    let all = pair_texts(of_whole@);
    assert(all == a + b);
    assert forall|i: int| 0 <= i < of_first@.len() implies (#[trigger] of_whole@[i]).0@
        == of_first@[i].0@ && of_whole@[i].1@ == of_first@[i].1@ by {
        assert(all[i] == a[i]);
    }
    assert forall|i: int| 0 <= i < of_second@.len() implies of_whole@[of_first@.len() + i].0@ == (
    #[trigger] of_second@[i]).0@ && of_whole@[of_first@.len() + i].1@ == of_second@[i].1@ by {
        assert(all[of_first@.len() + i] == b[i]);
    }
}

/// A single line is read without the whitespace at its ends. It has one entry
/// where something is left that does not begin with `#` and has an `=`: what
/// stands before the first one and what stands after it, without the whitespace
/// at their ends. Every other line has none.
pub proof fn lines_have_one_entry_at_most(
    line: String,
    text: &str,
    content: String,
    equals: Option<(String, String)>,
    remotes: Vec<(String, String)>,
)
    requires
        !line@.contains('\n'),
        text@ == line@,
        call_ensures(trim, (text,), content),
        equals matches Some(parts) ==> content@ == parts.0@.push('=') + parts.1@
            && !parts.0@.contains('='),
        equals is None ==> !content@.contains('='),
        call_ensures(parse_remotes, (Some(line),), remotes),
    ensures
        content@.len() == 0 || content@[0] == '#' || equals is None ==> remotes@.len() == 0,
        content@.len() > 0 && content@[0] != '#' ==> (equals matches Some(parts) ==> {
            &&& remotes@.len() == 1
            &&& remotes@[0].0@ == trimmed(parts.0@)
            &&& remotes@[0].1@ == trimmed(parts.1@)
        }),
{
    pieces_of_one(line@, '\n');
    let lines = pieces(line@, '\n');
    assert(opt_text(Some(line)) == Some(line@));
    assert(lines.last() == line@);
    assert(remotes_on(lines.drop_last()) == Seq::<(Seq<char>, Seq<char>)>::empty());
    pairs_are_those_of_the_strings(remotes@);
    match equals {
        Some(parts) => {
            halves_of_a_joined_pair(parts.0@, '=', parts.1@);
        },
        None => {
            texts_without_a_separator_have_no_halves(content@, '=');
        },
    }
    if remotes@.len() > 0 {
        assert(pair_texts(remotes@)[0] == (remotes@[0].0@, remotes@[0].1@));
    }
}

/// The repository is the nearest directory that has a `.jj` or a `.git`, the one
/// at `i`, and it goes by its name. Outside any repository there is none.
pub proof fn the_nearest_repository_is_named(
    ancestors: Vec<Ancestor>,
    i: int,
    key: Option<String>,
)
    requires
        call_ensures(repo_key, (&ancestors,), key),
        0 <= i <= ancestors@.len(),
        i < ancestors@.len() ==> ancestors@[i].has_jj || ancestors@[i].has_git,
        forall|j: int|
            0 <= j < i ==> !(#[trigger] ancestors@[j]).has_jj && !ancestors@[j].has_git,
    ensures
        i == ancestors@.len() ==> key is None,
        i < ancestors@.len() && ancestors@[i].name is None ==> key is None,
        i < ancestors@.len() && ancestors@[i].name is Some ==> key is Some && key->0@
            == ancestors@[i].name->0@,
{
    repositories_are_found(ancestors@, i);
}

/// The nearest repository is found.
proof fn repositories_are_found(ancestors: Seq<Ancestor>, i: int)
    requires
        0 <= i <= ancestors.len(),
        i < ancestors.len() ==> ancestors[i].has_jj || ancestors[i].has_git,
        forall|j: int| 0 <= j < i ==> !(#[trigger] ancestors[j]).has_jj && !ancestors[j].has_git,
    ensures
        repo_among(ancestors) == (if i < ancestors.len() {
            opt_text(ancestors[i].name)
        } else {
            None
        }),
    decreases i,
{
    if i > 0 {
        let rest = ancestors.skip(1);
        assert(!ancestors[0].has_jj && !ancestors[0].has_git);
        assert forall|j: int| 0 <= j < i - 1 implies !(#[trigger] rest[j]).has_jj
            && !rest[j].has_git by {
            assert(rest[j] == ancestors[j + 1]);
        }
        repositories_are_found(rest, i - 1);
    }
}

/// The remotes file is `beads/remotes.env` in `$XDG_CONFIG_HOME`, where that is
/// set and not empty, and else in `.config` in `$HOME`; each name goes after a
/// single slash.
pub proof fn the_remotes_file_has_its_place(
    config: Option<Vec<u8>>,
    home: Option<Vec<u8>>,
    path: Vec<u8>,
)
    requires
        call_ensures(remotes_env_path, (config, home), path),
    ensures
        ({
            let slash = 47u8;
            let file = encode_utf8("beads"@).push(slash) + encode_utf8("remotes.env"@);
            let set = config is Some && config->0@.len() > 0;
            let base = if set {
                config->0@
            } else if home is Some {
                home->0@
            } else {
                Seq::empty()
            };
            let dir = if base.len() == 0 || base.last() == slash {
                base
            } else {
                base.push(slash)
            };
            &&& set ==> path@ == dir + file
            &&& !set ==> path@ == dir + encode_utf8(".config"@).push(slash) + file
        }),
{
    let slash = 47u8;
    reveal_strlit("beads");
    reveal_strlit(".config");
    assert(is_ascii_chars("beads"@));
    assert(is_ascii_chars(".config"@));
    is_ascii_chars_encode_utf8("beads"@);
    is_ascii_chars_encode_utf8(".config"@);
    let beads = encode_utf8("beads"@);
    let dot_config = encode_utf8(".config"@);
    assert(beads.len() == 5 && beads.last() == "beads"@[4] as u8);
    assert(dot_config.len() == 7 && dot_config.last() == ".config"@[6] as u8);
    let file = beads.push(slash) + encode_utf8("remotes.env"@);
    let set = config is Some && config->0@.len() > 0;
    let base = if set {
        config->0@
    } else if home is Some {
        home->0@
    } else {
        Seq::empty()
    };
    let dir = if base.len() == 0 || base.last() == slash {
        base
    } else {
        base.push(slash)
    };
    if set {
        assert(path_join(base, beads) == dir + beads);
        assert(path@ == dir + file);
    } else {
        assert(path_join(base, dot_config) == dir + dot_config);
        assert(path_join(dir + dot_config, beads) == dir + dot_config.push(slash) + beads);
        assert(path@ == dir + dot_config.push(slash) + file);
    }
}

} // verus!

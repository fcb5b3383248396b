//! The client's help: relayed live from `br`, so that it never drifts.

use serde_json::Value;
use vstd::prelude::*;

use crate::args::push;
use crate::client::{carries_words, to_call, words_are_carried, Cmd};
use crate::json::{get, get_text, opt_tree, parse, parsed, text_member, tree_of, Json};
use crate::remotes::ResolveError;
use crate::text::{
    all_whitespace, blank_texts_are_whitespace, is_text, opt_text, starts_with, strip_prefix, texts,
    texts_are_those_of_the_strings, trim, trimmed,
};

verus! {

/// What precedes the relayed help.
pub const HELP_NOTES: &'static str = "beads — thin relay to a central beadsd (which runs br). Any br subcommand works:\n  beads <br-subcommand> [args]     e.g. beads list --json, beads count --by status\nSpecial beads verbs (not br): claim, unclaim (atomic claim/release), show (always\n  --json), exec (-- passthrough). Endpoint: --url, else $BEADS_REMOTE, else\n  ~/.config/beads/remotes.env (by repo, else mu).\n";

/// Whether an argument holds the url after an equals sign.
pub open spec fn holds_url(arg: Seq<char>) -> bool {
    "--url="@.is_prefix_of(arg)
}

/// The url that the first `--url <v>` or `--url=<v>` gives.
pub open spec fn url_in(raw: Seq<Seq<char>>) -> Option<Seq<char>>
    decreases raw.len(),
{
    if raw.len() == 0 {
        None
    } else if raw[0] == "--url"@ {
        if raw.len() == 1 {
            None
        } else {
            Some(raw[1])
        }
    } else if holds_url(raw[0]) {
        Some(raw[0].skip("--url="@.len() as int))
    } else {
        url_in(raw.skip(1))
    }
}

/// First `--url <v>` / `--url=v` in the raw arguments.
pub fn url_from_raw(raw: &[String]) -> (url: Option<String>)
    ensures
        opt_text(url) == url_in(texts(raw@)),
{
    let ghost all = texts(raw@);
    let mut i: usize = 0;
    assert(all.skip(0) == all);
    while i < raw.len()
        invariant
            i <= raw.len(),
            all == texts(raw@),
            url_in(all) == url_in(all.skip(i as int)),
        decreases raw.len() - i,
    {
        let ghost rest = all.skip(i as int);
        assert(rest[0] == raw@[i as int]@);
        assert(rest.skip(1) == all.skip(i + 1));
        if is_text(&raw[i], "--url") {
            if i + 1 < raw.len() {
                assert(rest[1] == raw@[i + 1]@);
                return Some(raw[i + 1].clone());
            } else {
                return None;
            }
        }
        match strip_prefix(raw[i].as_str(), "--url=") {
            Some(url) => {
                return Some(url);
            },
            None => {},
        }
        i = i + 1;
    }
    None
}

/// The raw arguments without those that give a url.
pub open spec fn without_url(raw: Seq<Seq<char>>) -> Seq<Seq<char>>
    decreases raw.len(),
{
    if raw.len() == 0 {
        Seq::empty()
    } else if raw[0] == "--url"@ {
        if raw.len() == 1 {
            Seq::empty()
        } else {
            without_url(raw.skip(2))
        }
    } else if holds_url(raw[0]) {
        without_url(raw.skip(1))
    } else {
        seq![raw[0]] + without_url(raw.skip(1))
    }
}

/// The raw arguments without those that give a url.
fn drop_url(raw: &[String]) -> (out: Vec<String>)
    ensures
        texts(out@) == without_url(texts(raw@)),
{
    let ghost all = texts(raw@);
    let mut out: Vec<String> = Vec::new();
    let mut i: usize = 0;
    assert(all.skip(0) == all);
    assert(texts(out@) + without_url(all) == without_url(all));
    while i < raw.len()
        invariant
            i <= raw.len(),
            all == texts(raw@),
            texts(out@) + without_url(all.skip(i as int)) == without_url(all),
        decreases raw.len() - i,
    {
        let ghost rest = all.skip(i as int);
        assert(rest[0] == raw@[i as int]@);
        assert(rest.skip(1) == all.skip(i + 1));
        if is_text(&raw[i], "--url") {
            if raw.len() - i == 1 {
                i = i + 1;
                assert(all.skip(i as int) == Seq::<Seq<char>>::empty());
            } else {
                assert(rest.skip(2) == all.skip(i + 2));
                i = i + 2;
            }
        } else if starts_with(raw[i].as_str(), "--url=") {
            i = i + 1;
        } else {
            let ghost before = texts(out@);
            push(&mut out, raw[i].clone());
            assert(texts(out@) + without_url(rest.skip(1)) == before + without_url(rest));
            i = i + 1;
        }
    }
    assert(all.skip(raw.len() as int) == Seq::<Seq<char>>::empty());
    assert(texts(out@) == texts(out@) + without_url(Seq::<Seq<char>>::empty()));
    out
}

/// The client's own verbs, which `br` does not have.
pub open spec fn explicit_verb(word: Seq<char>) -> bool {
    word == "claim"@ || word == "unclaim"@ || word == "show"@ || word == "exec"@
}

/// Whether a word is one of the client's own verbs.
pub fn is_explicit_verb(word: &String) -> (yes: bool)
    ensures
        yes == explicit_verb(word@),
{
    is_text(word, "claim") || is_text(word, "unclaim") || is_text(word, "show") || is_text(
        word,
        "exec",
    )
}

/// Whether an argument begins with a dash.
pub open spec fn dashed(arg: Seq<char>) -> bool {
    arg.len() > 0 && arg[0] == '-'
}

/// The `br` arguments whose help is relayed, where the arguments without a url
/// ask for help that the client does not have itself.
pub open spec fn help_wanted(rest: Seq<Seq<char>>) -> Option<Seq<Seq<char>>> {
    if rest.len() == 0 {
        Some(seq!["--help"@])
    } else if rest[0] == "help"@ {
        if rest.len() == 1 {
            Some(seq!["--help"@])
        } else if explicit_verb(rest[1]) {
            None
        } else {
            Some(seq![rest[1], "--help"@])
        }
    } else if (rest[0] == "-h"@ || rest[0] == "--help"@) && forall|i: int|
        0 <= i < rest.len() ==> dashed(#[trigger] rest[i]) {
        Some(seq!["--help"@])
    } else {
        None
    }
}

/// The texts of an optional list.
pub open spec fn opt_texts(list: Option<Vec<String>>) -> Option<Seq<Seq<char>>> {
    match list {
        Some(v) => Some(texts(v@)),
        None => None,
    }
}

/// `--help` alone.
fn root_help() -> (args: Vec<String>)
    ensures
        texts(args@) == seq!["--help"@],
{
    let mut args: Vec<String> = Vec::new();
    push(&mut args, "--help".to_owned());
    assert(texts(args@) == seq!["--help"@]);
    args
}

/// Whether an argument begins with a dash.
fn is_dashed(arg: &str) -> (yes: bool)
    ensures
        yes == dashed(arg@),
{
    proof {
        reveal_strlit("-");
    }
    let yes: bool = starts_with(arg, "-");
    assert(yes ==> arg@[0] == "-"@[0]);
    assert(dashed(arg@) ==> yes) by {
        if dashed(arg@) {
            assert(arg@.subrange(0, 1) == "-"@);
        }
    }
    yes
}

/// Whether every argument begins with a dash.
fn all_dashed(args: &Vec<String>) -> (yes: bool)
    ensures
        yes == (forall|i: int| 0 <= i < args.len() ==> dashed(#[trigger] texts(args@)[i])),
{
    let mut i: usize = 0;
    while i < args.len()
        invariant
            i <= args.len(),
            forall|j: int| 0 <= j < i ==> dashed(#[trigger] texts(args@)[j]),
        decreases args.len() - i,
    {
        assert(texts(args@)[i as int] == args@[i as int]@);
        if !is_dashed(args[i].as_str()) {
            return false;
        }
        i = i + 1;
    }
    true
}

/// If this is a top-level help request not scoped to one of the client's own
/// verbs, the `br` arguments whose help to relay. `None` means that the command
/// is dispatched normally.
pub fn toplevel_help(raw: &[String]) -> (br_args: Option<Vec<String>>)
    ensures
        opt_texts(br_args) == help_wanted(without_url(texts(raw@))),
{
    let rest: Vec<String> = drop_url(raw);
    let ghost words = texts(rest@);
    if rest.len() == 0 {
        return Some(root_help());
    }
    assert(words[0] == rest@[0]@);
    if is_text(&rest[0], "help") {
        if rest.len() == 1 {
            return Some(root_help());
        }
        assert(words[1] == rest@[1]@);
        if is_explicit_verb(&rest[1]) {
            return None;
        }
        let mut args: Vec<String> = Vec::new();
        push(&mut args, rest[1].clone());
        push(&mut args, "--help".to_owned());
        assert(texts(args@) == seq![rest@[1]@, "--help"@]);
        return Some(args);
    }
    if is_text(&rest[0], "-h") || is_text(&rest[0], "--help") {
        if !all_dashed(&rest) {
            return None;
        }
        return Some(root_help());
    }
    None
}

/// The url that help is relayed from before any file is asked: the one given,
/// else the environment's, unless that is empty.
pub open spec fn help_url_of(
    explicit: Option<Seq<char>>,
    env: Option<Seq<char>>,
) -> Option<Seq<char>> {
    if explicit is Some {
        explicit
    } else if env is Some && env->0.len() > 0 {
        env
    } else {
        None
    }
}

/// The url that help is relayed from before any file is asked: the one given,
/// else `$BEADS_REMOTE`.
pub fn help_url(explicit: Option<String>, env: Option<String>) -> (url: Option<String>)
    ensures
        opt_text(url) == help_url_of(opt_text(explicit), opt_text(env)),
{
    match explicit {
        Some(given) => Some(given),
        None => match env {
            Some(given) => if given.as_str().is_empty() {
                None
            } else {
                Some(given)
            },
            None => None,
        },
    }
}

/// How help begins.
#[derive(Debug)]
pub enum HelpStep {
    /// The client's built-in help, and nothing else.
    Builtin,
    /// Print the notes, and then call this tool of the service at this url.
    Ask { notes: String, url: String, tool: &'static str, args: Value },
}

/// How help on `br_args` begins: the service is asked where `endpoint` says
/// which one, and where none could be chosen there is the built-in help.
pub fn start_help(endpoint: Result<String, ResolveError>, br_args: Vec<String>) -> (step: HelpStep)
    ensures
        step is Builtin <==> endpoint is Err,
        endpoint matches Ok(url) ==> (step matches HelpStep::Ask { notes, url: u, tool, args }
            && notes@ == HELP_NOTES@ && u@ == url@ && tool@ == "br_exec"@ && tree_of(args)
            == Json::Object(Cmd::External(br_args).call().1)),
{
    match endpoint {
        Ok(url) => {
            let (tool, args) = to_call(&Cmd::External(br_args));
            HelpStep::Ask { notes: HELP_NOTES.to_owned(), url, tool, args }
        },
        Err(_) => HelpStep::Builtin,
    }
}

/// What follows the notes.
#[derive(Debug)]
pub enum HelpPage {
    /// The live help.
    Live { text: String },
    /// A notice, and then the client's built-in help.
    Builtin { notice: String },
}

/// The model of a [`HelpPage`].
pub enum HelpPageView {
    Live { text: Seq<char> },
    Builtin { notice: Seq<char> },
}

impl View for HelpPage {
    type V = HelpPageView;

    open spec fn view(&self) -> HelpPageView {
        match self {
            HelpPage::Live { text } => HelpPageView::Live { text: text@ },
            HelpPage::Builtin { notice } => HelpPageView::Builtin { notice: notice@ },
        }
    }
}

/// The output that a reply tells of, empty where it tells of none.
pub open spec fn relayed_output(tree: Option<Json>) -> Seq<char> {
    match tree {
        Some(reply) => match text_member(reply, "stdout"@) {
            Some(s) => s,
            None => Seq::empty(),
        },
        None => Seq::empty(),
    }
}

/// What follows the notes, where `tree` is what was read from the reply of the
/// service at `url`: its output, or the built-in help where that is blank.
pub open spec fn page_of(url: Seq<char>, tree: Option<Json>) -> HelpPageView {
    let output = relayed_output(tree);
    if trimmed(output).len() == 0 {
        HelpPageView::Builtin {
            notice: "\n(could not reach beadsd at "@ + url
                + " for the live br help — beads built-ins only)\n\n"@,
        }
    } else {
        HelpPageView::Live { text: "\nLive br command surface (from beadsd):\n\n"@ + output }
    }
}

/// What follows the notes, given what was read from the reply.
pub fn page(url: &str, reply: Option<Value>) -> (page: HelpPage)
    ensures
        page@ == page_of(url@, opt_tree(reply)),
{
    let output: String = match reply {
        Some(value) => match get(&value, "stdout") {
            Some(inner) => match get_text(inner) {
                Some(s) => s,
                None => String::new(),
            },
            None => String::new(),
        },
        None => String::new(),
    };
    if trim(output.as_str()).as_str().is_empty() {
        let mut notice: String = "\n(could not reach beadsd at ".to_owned();
        notice.append(url);
        notice.append(" for the live br help — beads built-ins only)\n\n");
        HelpPage::Builtin { notice }
    } else {
        let mut text: String = "\nLive br command surface (from beadsd):\n\n".to_owned();
        text.append(output.as_str());
        HelpPage::Live { text }
    }
}

/// What follows the notes, given the text of the reply, or nothing where the
/// service could not be reached.
pub fn relayed_help(url: &str, reply: Option<String>) -> (page: HelpPage)
    ensures
        page@ == page_of(
            url@,
            match reply {
                Some(text) => parsed(text@),
                None => None,
            },
        ),
{
    match reply {
        Some(text) => self::page(url, parse(text.as_str())),
        None => self::page(url, None),
    }
}

/// A service that cannot be reached leaves the built-in help.
pub proof fn unreachable_services_leave_the_builtin_help(url: Seq<char>)
    ensures
        page_of(url, None) is Builtin,
{
}

/// What is left without the url gives no url.
pub proof fn arguments_without_url_give_none(raw: Seq<Seq<char>>)
    ensures
        url_in(without_url(raw)) is None,
        without_url(without_url(raw)) == without_url(raw),
    decreases raw.len(),
{
    if raw.len() == 0 {
    } else if raw[0] == "--url"@ {
        if raw.len() > 1 {
            arguments_without_url_give_none(raw.skip(2));
        }
    } else if holds_url(raw[0]) {
        arguments_without_url_give_none(raw.skip(1));
    } else {
        arguments_without_url_give_none(raw.skip(1));
        let out = without_url(raw);
        assert(out.skip(1) == without_url(raw.skip(1)));
        assert(out[0] == raw[0]);
    }
}

/// Arguments that end with no dangling `--url` drop their urls on their own.
proof fn urls_are_dropped_in_parts(before: Seq<Seq<char>>, after: Seq<Seq<char>>)
    requires
        before.len() > 0 ==> before.last() != "--url"@,
    ensures
        without_url(before + after) == without_url(before) + without_url(after),
    decreases before.len(),
{
    let whole = before + after;
    if before.len() == 0 {
        assert(whole == after);
    } else {
        let k = if before[0] == "--url"@ {
            2int
        } else {
            1int
        };
        assert(whole[0] == before[0]);
        assert(whole.skip(k) == before.skip(k) + after);
        urls_are_dropped_in_parts(before.skip(k), after);
        assert(without_url(whole) == without_url(before) + without_url(after));
    }
}

/// A url that is given, in either form and in any place, makes no difference to
/// the help that is relayed.
pub proof fn help_does_not_depend_on_the_url(
    before: Seq<Seq<char>>,
    url: Seq<char>,
    after: Seq<Seq<char>>,
)
    requires
        before.len() > 0 ==> before.last() != "--url"@,
    ensures
        help_wanted(without_url(before + seq!["--url"@, url] + after)) == help_wanted(
            without_url(before + after),
        ),
        help_wanted(without_url(before + seq!["--url="@ + url] + after)) == help_wanted(
            without_url(before + after),
        ),
{
    let apart = seq!["--url"@, url] + after;
    let glued = seq!["--url="@ + url] + after;
    assert(before + seq!["--url"@, url] + after == before + apart);
    assert(before + seq!["--url="@ + url] + after == before + glued);
    urls_are_dropped_in_parts(before, apart);
    urls_are_dropped_in_parts(before, glued);
    urls_are_dropped_in_parts(before, after);
    assert(apart.skip(2) == after);
    assert(glued.skip(1) == after);
    assert("--url"@ != "--url="@ + url) by {
        reveal_strlit("--url");
        reveal_strlit("--url=");
        assert("--url"@.len() == 5 && "--url="@.len() == 6);
    }
    assert(holds_url("--url="@ + url)) by {
        assert(("--url="@ + url).subrange(0, "--url="@.len() as int) == "--url="@);
    }
}

/// Help is relayed for no verb of the client's own.
pub proof fn own_verbs_keep_their_help(rest: Seq<Seq<char>>)
    requires
        rest.len() > 0,
        explicit_verb(rest[0]) || (rest[0] == "help"@ && rest.len() > 1 && explicit_verb(rest[1])),
    ensures
        help_wanted(rest) is None,
{
    reveal_strlit("claim");
    reveal_strlit("unclaim");
    reveal_strlit("show");
    reveal_strlit("exec");
    reveal_strlit("help");
    reveal_strlit("-h");
    reveal_strlit("--help");
    assert("claim"@[0] == 'c' && "unclaim"@[0] == 'u' && "show"@[0] == 's' && "exec"@[0] == 'e');
    assert("help"@[0] == 'h' && "-h"@[0] == '-' && "--help"@[0] == '-');
}

/// Whether an argument gives a url, alone or with the next one.
pub open spec fn gives_url(arg: Seq<char>) -> bool {
    arg == "--url"@ || "--url="@.is_prefix_of(arg)
}

/// Where no argument gives a url, nothing is dropped.
proof fn plain_arguments_are_kept(raw: Seq<Seq<char>>)
    requires
        forall|i: int| 0 <= i < raw.len() ==> !gives_url(#[trigger] raw[i]),
    ensures
        without_url(raw) == raw,
        url_in(raw) is None,
    decreases raw.len(),
{
    if raw.len() > 0 {
        let rest = raw.skip(1);
        assert(!gives_url(raw[0]));
        assert forall|i: int| 0 <= i < rest.len() implies !gives_url(#[trigger] rest[i]) by {
            assert(rest[i] == raw[i + 1]);
        }
        plain_arguments_are_kept(rest);
        assert(seq![raw[0]] + rest == raw);
    }
}

/// Help is relayed only where it is asked for. Where no argument gives a url:
/// no argument at all asks for the root help; so does a first argument `-h` or
/// `--help`, but only where every argument begins with a dash; and so does
/// `help` alone. `help` with one more word asks for the help of that word, but
/// not for that of the client's own verbs. Whatever begins with another word,
/// such as a command of `br`, is dispatched.
pub proof fn help_is_relayed_where_it_is_asked_for(raw: &[String], br_args: Option<Vec<String>>)
    requires
        call_ensures(toplevel_help, (raw,), br_args),
        forall|i: int| 0 <= i < raw@.len() ==> !gives_url((#[trigger] raw@[i])@),
    ensures
        raw@.len() == 0 ==> asks_for_root_help(br_args),
        raw@.len() > 0 && raw@[0]@ != "help"@ && raw@[0]@ != "-h"@ && raw@[0]@ != "--help"@
            ==> br_args is None,
        raw@.len() == 1 && raw@[0]@ == "help"@ ==> asks_for_root_help(br_args),
        raw@.len() > 1 && raw@[0]@ == "help"@ ==> {
            let word = raw@[1]@;
            let own = word == "claim"@ || word == "unclaim"@ || word == "show"@ || word == "exec"@;
            &&& own ==> br_args is None
            &&& !own ==> br_args is Some && br_args->0@.len() == 2 && br_args->0@[0]@ == word
                && br_args->0@[1]@ == "--help"@
        },
        raw@.len() > 0 && (raw@[0]@ == "-h"@ || raw@[0]@ == "--help"@) ==> {
            let bare = exists|i: int|
                0 <= i < raw@.len() && ((#[trigger] raw@[i])@.len() == 0 || raw@[i]@[0] != '-');
            &&& bare ==> br_args is None
            &&& !bare ==> asks_for_root_help(br_args)
        },
{
    let words = texts(raw@);
    texts_are_those_of_the_strings(raw@);
    assert forall|i: int| 0 <= i < words.len() implies !gives_url(#[trigger] words[i]) by {
        assert(words[i] == raw@[i]@);
    }
    plain_arguments_are_kept(words);
    assert(opt_texts(br_args) == help_wanted(words));
    if br_args is Some {
        texts_are_those_of_the_strings(br_args->0@);
        assert(br_args->0@.len() > 0 ==> texts(br_args->0@)[0] == br_args->0@[0]@);
        assert(br_args->0@.len() > 1 ==> texts(br_args->0@)[1] == br_args->0@[1]@);
    }
    if raw@.len() > 0 {
        assert(words[0] == raw@[0]@);
        reveal_strlit("help");
        reveal_strlit("-h");
        reveal_strlit("--help");
        assert("help"@.len() == 4 && "-h"@.len() == 2 && "--help"@.len() == 6);
    }
    if raw@.len() > 1 {
        assert(words[1] == raw@[1]@);
    }
    if raw@.len() > 0 && (raw@[0]@ == "-h"@ || raw@[0]@ == "--help"@) {
        if exists|i: int|
            0 <= i < raw@.len() && ((#[trigger] raw@[i])@.len() == 0 || raw@[i]@[0] != '-') {
            let i = choose|i: int|
                0 <= i < raw@.len() && ((#[trigger] raw@[i])@.len() == 0 || raw@[i]@[0] != '-');
            assert(!dashed(words[i]));
        } else {
            assert forall|i: int| 0 <= i < words.len() implies dashed(#[trigger] words[i]) by {
                assert(words[i] == raw@[i]@);
            }
        }
    }
}

/// Whether the help that is relayed is that of `br` itself.
pub open spec fn asks_for_root_help(br_args: Option<Vec<String>>) -> bool {
    br_args is Some && br_args->0@.len() == 1 && br_args->0@[0]@ == "--help"@
}

/// Help is relayed only where the first argument, after those that give a url,
/// is `help`, `-h` or `--help`, or where there is none. Told over `rest`, the
/// arguments without those that give a url.
pub proof fn other_words_are_dispatched(rest: Seq<Seq<char>>)
    ensures
        help_wanted(rest) is Some ==> rest.len() == 0 || rest[0] == "help"@ || rest[0] == "-h"@
            || rest[0] == "--help"@,
{
}

/// Two answers to whether help is asked for are the same.
pub open spec fn same_answer(a: Option<Vec<String>>, b: Option<Vec<String>>) -> bool {
    &&& a is Some <==> b is Some
    &&& a is Some ==> a->0@.len() == b->0@.len()
    &&& a is Some ==> forall|i: int| 0 <= i < a->0@.len() ==> (#[trigger] a->0@[i])@ == b->0@[i]@
}

/// Answers with the same texts are the same.
proof fn equal_texts_are_the_same_answer(a: Option<Vec<String>>, b: Option<Vec<String>>)
    requires
        opt_texts(a) == opt_texts(b),
    ensures
        same_answer(a, b),
{
    if a is Some && b is Some {
        texts_are_those_of_the_strings(a->0@);
        texts_are_those_of_the_strings(b->0@);
        assert forall|i: int| 0 <= i < a->0@.len() implies (#[trigger] a->0@[i])@
            == b->0@[i]@ by {
            assert(texts(a->0@)[i] == texts(b->0@)[i]);
        }
    }
}

/// Giving a url before the argument at `k`, as `--url` and the url or as one
/// argument, or a `--url` without one at the end, makes no difference to whether
/// help is asked for, and for what.
pub proof fn urls_make_no_difference_to_help(
    raw: &[String],
    br_args: Option<Vec<String>>,
    k: int,
    flag: String,
    url: String,
    more: &[String],
    more_args: Option<Vec<String>>,
)
    requires
        0 <= k <= raw@.len(),
        k > 0 ==> raw@[k - 1]@ != "--url"@,
        ({
            ||| flag@ == "--url"@ && more@ == raw@.take(k) + seq![flag, url] + raw@.skip(k)
            ||| "--url="@.is_prefix_of(flag@) && more@ == raw@.take(k) + seq![flag] + raw@.skip(k)
            ||| flag@ == "--url"@ && k == raw@.len() && more@ == raw@.push(flag)
        }),
        call_ensures(toplevel_help, (raw,), br_args),
        call_ensures(toplevel_help, (more,), more_args),
    ensures
        same_answer(br_args, more_args),
{
    let before = texts(raw@.take(k));
    let after = texts(raw@.skip(k));
    assert(texts(raw@) == before + after);
    assert(k > 0 ==> before.last() == raw@[k - 1]@);
    if flag@ == "--url"@ && more@ == raw@.take(k) + seq![flag, url] + raw@.skip(k) {
        assert(texts(more@) == before + seq!["--url"@, url@] + after);
        help_does_not_depend_on_the_url(before, url@, after);
    } else if "--url="@.is_prefix_of(flag@) && more@ == raw@.take(k) + seq![flag] + raw@.skip(k) {
        let rest = flag@.skip("--url="@.len() as int);
        assert("--url="@ + rest == flag@);
        assert(texts(more@) == before + seq!["--url="@ + rest] + after);
        help_does_not_depend_on_the_url(before, rest, after);
    } else {
        assert(after == Seq::<Seq<char>>::empty());
        assert(texts(raw@) == before);
        assert(texts(more@) == before + seq!["--url"@]);
        urls_are_dropped_in_parts(before, seq!["--url"@]);
        assert(without_url(seq!["--url"@]) == Seq::<Seq<char>>::empty());
        assert(without_url(texts(more@)) == without_url(before));
    }
    equal_texts_are_the_same_answer(br_args, more_args);
}

/// The first argument that gives a url, the one at `i`, decides: `--url` gives
/// the argument after it, and nothing where there is none; `--url=` gives what
/// follows the equals sign. Where no argument gives one, there is none.
pub proof fn the_first_url_counts(raw: &[String], i: int, url: Option<String>)
    requires
        call_ensures(url_from_raw, (raw,), url),
        0 <= i <= raw@.len(),
        i < raw@.len() ==> gives_url(raw@[i]@),
        forall|j: int| 0 <= j < i ==> !gives_url((#[trigger] raw@[j])@),
    ensures
        i == raw@.len() ==> url is None,
        i < raw@.len() && raw@[i]@ == "--url"@ ==> {
            &&& i + 1 == raw@.len() ==> url is None
            &&& i + 1 < raw@.len() ==> url is Some && url->0@ == raw@[i + 1]@
        },
        i < raw@.len() && raw@[i]@ != "--url"@ ==> url is Some && raw@[i]@ == "--url="@ + url->0@,
{
    let words = texts(raw@);
    texts_are_those_of_the_strings(raw@);
    assert forall|j: int| 0 <= j < i implies !gives_url(#[trigger] words[j]) by {
        assert(words[j] == raw@[j]@);
    }
    first_urls_are_found(words, i);
    if i < raw@.len() {
        assert(words[i] == raw@[i]@);
        if i + 1 < raw@.len() {
            assert(words[i + 1] == raw@[i + 1]@);
        }
        if raw@[i]@ != "--url"@ {
            assert("--url="@ + words[i].skip("--url="@.len() as int) == words[i]);
        }
    }
}

/// The first argument that gives a url is found.
proof fn first_urls_are_found(raw: Seq<Seq<char>>, i: int)
    requires
        0 <= i <= raw.len(),
        i < raw.len() ==> gives_url(raw[i]),
        forall|j: int| 0 <= j < i ==> !gives_url(#[trigger] raw[j]),
    ensures
        url_in(raw) == url_in(raw.skip(i)),
        i < raw.len() ==> url_in(raw) == (if raw[i] == "--url"@ {
            if i + 1 < raw.len() {
                Some(raw[i + 1])
            } else {
                None
            }
        } else {
            Some(raw[i].skip("--url="@.len() as int))
        }),
        i == raw.len() ==> url_in(raw) is None,
    decreases i,
{
    if i > 0 {
        let rest = raw.skip(1);
        assert(!gives_url(raw[0]));
        assert forall|j: int| 0 <= j < i - 1 implies !gives_url(#[trigger] rest[j]) by {
            assert(rest[j] == raw[j + 1]);
        }
        first_urls_are_found(rest, i - 1);
        assert(rest.skip(i - 1) == raw.skip(i));
    } else {
        assert(raw.skip(0) == raw);
    }
}

/// A url that is given goes before the environment's, which counts where it is
/// not empty.
pub proof fn given_urls_go_before_the_environment(
    explicit: Option<String>,
    env: Option<String>,
    url: Option<String>,
)
    requires
        call_ensures(help_url, (explicit, env), url),
    ensures
        explicit is Some ==> url is Some && url->0@ == explicit->0@,
        explicit is None && env is Some && env->0@.len() > 0 ==> url is Some && url->0@ == env->0@,
        explicit is None && (env is None || env->0@.len() == 0) ==> url is None,
{
}

/// Help begins with the built-in one where no service could be chosen; else with
/// the notes and a call of `br_exec` at the service that was chosen, with the
/// arguments, in their order.
pub proof fn help_asks_the_chosen_service(
    endpoint: Result<String, ResolveError>,
    br_args: Vec<String>,
    step: HelpStep,
)
    requires
        call_ensures(start_help, (endpoint, br_args), step),
    ensures
        endpoint is Err ==> step is Builtin,
        endpoint is Ok ==> (step matches HelpStep::Ask { notes, url, tool, args } && {
            &&& notes@
                == "beads — thin relay to a central beadsd (which runs br). Any br subcommand works:\n  beads <br-subcommand> [args]     e.g. beads list --json, beads count --by status\nSpecial beads verbs (not br): claim, unclaim (atomic claim/release), show (always\n  --json), exec (-- passthrough). Endpoint: --url, else $BEADS_REMOTE, else\n  ~/.config/beads/remotes.env (by repo, else mu).\n"@
            &&& url@ == endpoint->Ok_0@
            &&& tool@ == "br_exec"@
            &&& tree_of(args) matches Json::Object(members) && carries_words(members, br_args@)
        }),
{
    if endpoint is Ok {
        words_are_carried(br_args@);
    }
}

/// What follows the notes is the output that the reply of the service tells of,
/// under a heading, where that is more than whitespace. Where the service could
/// not be reached, or the reply tells of no such output, it is a notice that
/// names the service, and the built-in help.
pub proof fn live_help_is_what_br_printed(url: &str, reply: Option<String>, page: HelpPage)
    requires
        call_ensures(relayed_help, (url, reply), page),
    ensures
        ({
            let tree = if reply is Some {
                parsed(reply->0@)
            } else {
                None
            };
            let told = tree matches Some(Json::Object(members)) && members.contains_key("stdout"@)
                && (members["stdout"@] matches Json::Text(output) && !all_whitespace(output));
            &&& told ==> (page matches HelpPage::Live { text } && tree->0->Object_0["stdout"@]
                matches Json::Text(output) && text@
                == "\nLive br command surface (from beadsd):\n\n"@ + output)
            &&& !told ==> (page matches HelpPage::Builtin { notice } && notice@
                == "\n(could not reach beadsd at "@ + url@
                + " for the live br help — beads built-ins only)\n\n"@)
        }),
{
    let tree = if reply is Some {
        parsed(reply->0@)
    } else {
        None
    };
    let output = relayed_output(tree);
    blank_texts_are_whitespace(output);
}

} // verus!

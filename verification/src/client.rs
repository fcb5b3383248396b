//! The client's verbs: the call each one makes, and how each one ends.

use serde_json::Value;
use vstd::prelude::*;

use crate::json::{
    empty_object, get, get_text, insert, into_object, members_of, no_members, object_value,
    opt_tree, parse, parsed, text_member, text_trees, text_value, texts_value, tree_of, Json,
};
use crate::reply::{replicate, replicated, report, reported, Outcome};
use crate::text::{texts, texts_are_those_of_the_strings};

verus! {

/// What the client is asked to do.
#[derive(Debug)]
#[allow(inconsistent_fields)]
pub enum Cmd {
    /// Atomically claim an issue (assignee=actor, status=in_progress).
    Claim { id: String, actor: String },
    /// Release a claim (clear assignee, status back to open).
    Unclaim { id: String, actor: Option<String> },
    /// Show one issue.
    Show { id: String },
    /// Run an explicit br subcommand against the central database.
    Exec { args: Vec<String> },
    /// Any other br subcommand, forwarded verbatim.
    External(Vec<String>),
}

impl Cmd {
    /// Whether the command's output and status are replicated faithfully.
    pub open spec fn passes_through(self) -> bool {
        self is Exec || self is External
    }

    /// Whether the command's output and status are replicated faithfully.
    pub fn is_passthrough(&self) -> (yes: bool)
        ensures
            yes == self.passes_through(),
    {
        match self {
            Cmd::Exec { args: _ } => true,
            Cmd::External(_) => true,
            _ => false,
        }
    }

    /// The tool that the command calls, and its arguments.
    pub open spec fn call(self) -> (Seq<char>, Map<Seq<char>, Json>) {
        match self {
            Cmd::Claim { id, actor } => (
                "beads_claim"@,
                map!["id"@ => Json::Text(id@), "actor"@ => Json::Text(actor@)],
            ),
            Cmd::Unclaim { id, actor } => (
                "beads_unclaim"@,
                match actor {
                    Some(name) => map!["id"@ => Json::Text(id@), "actor"@ => Json::Text(name@)],
                    None => map!["id"@ => Json::Text(id@)],
                },
            ),
            Cmd::Show { id } => ("beads_show"@, map!["id"@ => Json::Text(id@)]),
            Cmd::Exec { args } => (
                "br_exec"@,
                map!["args"@ => Json::Array(text_trees(texts(args@)))],
            ),
            Cmd::External(args) => (
                "br_exec"@,
                map!["args"@ => Json::Array(text_trees(texts(args@)))],
            ),
        }
    }
}

/// The keys of a list of pairs, with the trees of their values.
pub open spec fn pair_trees(pairs: Seq<(&str, Option<Value>)>) -> Seq<(Seq<char>, Option<Json>)> {
    pairs.map_values(|pair: (&str, Option<Value>)| (pair.0@, opt_tree(pair.1)))
}

/// The members that the present values of a list make; of two values under one
/// key the later one counts.
pub open spec fn present(pairs: Seq<(Seq<char>, Option<Json>)>) -> Map<Seq<char>, Json>
    decreases pairs.len(),
{
    if pairs.len() == 0 {
        no_members()
    } else {
        let before = present(pairs.drop_last());
        match pairs.last().1 {
            Some(tree) => before.insert(pairs.last().0, tree),
            None => before,
        }
    }
}

/// A JSON object of the pairs that have a value.
pub fn obj(pairs: Vec<(&str, Option<Value>)>) -> (object: Value)
    ensures
        tree_of(object) == Json::Object(present(pair_trees(pairs@))),
{
    let ghost all = pair_trees(pairs@);
    let mut members = empty_object();
    assert(all.take(0) == Seq::<(Seq<char>, Option<Json>)>::empty());
    for pair in it: pairs
        invariant
            all == pair_trees(pairs@),
            it.seq() == pairs@,
            members_of(members) == present(all.take(it.index() as int)),
    {
        assert(all.take(it.index() + 1).drop_last() == all.take(it.index() as int));
        let (key, value) = pair;
        match value {
            Some(v) => {
                insert(&mut members, key.to_owned(), v);
            },
            None => {},
        }
    }
    assert(all.take(all.len() as int) == all);
    object_value(members)
}

/// A JSON object with one member.
fn single(key: &str, value: Value) -> (object: Value)
    ensures
        tree_of(object) == Json::Object(no_members().insert(key@, tree_of(value))),
{
    let mut members = empty_object();
    insert(&mut members, key.to_owned(), value);
    object_value(members)
}

/// The arguments of a passed-through command.
fn passthrough_args(args: &Vec<String>) -> (object: Value)
    ensures
        tree_of(object) == Json::Object(
            map!["args"@ => Json::Array(text_trees(texts(args@)))],
        ),
{
    let copy: Vec<String> = args.clone();
    assert(texts(copy@) == texts(args@));
    single("args", texts_value(copy))
}

/// Maps the command to the tool it calls and the tool's arguments.
pub fn to_call(cmd: &Cmd) -> (call: (&'static str, Value))
    ensures
        call.0@ == cmd.call().0,
        tree_of(call.1) == Json::Object(cmd.call().1),
{
    match cmd {
        Cmd::Claim { id, actor } => {
            let mut members = empty_object();
            insert(&mut members, "id".to_owned(), text_value(id.clone()));
            insert(&mut members, "actor".to_owned(), text_value(actor.clone()));
            ("beads_claim", object_value(members))
        },
        Cmd::Unclaim { id, actor } => {
            let name: Option<Value> = match actor {
                Some(a) => Some(text_value(a.clone())),
                None => None,
            };
            let mut pairs: Vec<(&str, Option<Value>)> = Vec::new();
            pairs.push(("id", Some(text_value(id.clone()))));
            pairs.push(("actor", name));
            let object: Value = obj(pairs);
            proof {
                let all = pair_trees(pairs@);
                reveal_with_fuel(present, 3);
                assert(all.drop_last().drop_last() == Seq::<(Seq<char>, Option<Json>)>::empty());
            }
            ("beads_unclaim", object)
        },
        Cmd::Show { id } => ("beads_show", single("id", text_value(id.clone()))),
        Cmd::Exec { args } => ("br_exec", passthrough_args(args)),
        Cmd::External(args) => ("br_exec", passthrough_args(args)),
    }
}

/// The members that a tool call is made with: those of an object, and none
/// where the arguments are no object.
pub fn call_arguments(args: Value) -> (arguments: serde_json::Map<String, Value>)
    ensures
        members_of(arguments) == (match tree_of(args) {
            Json::Object(members) => members,
            _ => no_members(),
        }),
{
    match into_object(args) {
        Some(members) => members,
        None => empty_object(),
    }
}

/// The first text among the contents of a result, empty where there is none.
pub open spec fn first_text_of(contents: Seq<Json>) -> Seq<char>
    decreases contents.len(),
{
    if contents.len() == 0 {
        Seq::empty()
    } else {
        match text_member(contents[0], "text"@) {
            Some(s) => s,
            None => first_text_of(contents.skip(1)),
        }
    }
}

/// The trees of a list of values.
pub open spec fn trees(values: Seq<Value>) -> Seq<Json> {
    values.map_values(|v: Value| tree_of(v))
}

/// The first text among the contents of a result, empty where there is none.
pub fn first_text(contents: &Vec<Value>) -> (text: String)
    ensures
        text@ == first_text_of(trees(contents@)),
{
    let ghost all = trees(contents@);
    let mut i: usize = 0;
    assert(all.skip(0) == all);
    while i < contents.len()
        invariant
            i <= contents.len(),
            all == trees(contents@),
            first_text_of(all) == first_text_of(all.skip(i as int)),
        decreases contents.len() - i,
    {
        assert(all.skip(i as int)[0] == tree_of(contents@[i as int]));
        assert(all.skip(i as int).skip(1) == all.skip(i + 1));
        match get(&contents[i], "text") {
            Some(inner) => match get_text(inner) {
                Some(s) => {
                    return s;
                },
                None => {},
            },
            None => {},
        }
        i = i + 1;
    }
    String::new()
}

/// How the client ends on the reply to a command: passed-through commands
/// replicate what the reply carries, the client's own verbs report the reply.
pub fn conclude(cmd: &Cmd, text: &str) -> (outcome: Outcome)
    ensures
        outcome@ == (if cmd.passes_through() {
            replicated(parsed(text@), text@)
        } else {
            reported(parsed(text@), text@)
        }),
{
    let reply: Option<Value> = parse(text);
    if cmd.is_passthrough() {
        replicate(reply, text)
    } else {
        report(reply, text)
    }
}

/// Each verb calls the tool that it is for with what it was given, and with
/// nothing else: a claim and its release name the issue and the actor, where
/// there is one; commands that are passed through give their arguments, in their
/// order.
pub proof fn verbs_call_their_tools(cmd: Cmd, tool: &'static str, args: Value)
    requires
        call_ensures(to_call, (&cmd,), (tool, args)),
    ensures
        tree_of(args) matches Json::Object(members) && {
            &&& cmd matches Cmd::Claim { id, actor } ==> {
                &&& tool@ == "beads_claim"@
                &&& members.dom() =~= set!["id"@, "actor"@]
                &&& members["id"@] == Json::Text(id@)
                &&& members["actor"@] == Json::Text(actor@)
            }
            &&& cmd matches Cmd::Unclaim { id, actor } ==> {
                &&& tool@ == "beads_unclaim"@
                &&& members["id"@] == Json::Text(id@)
                &&& actor is None ==> members.dom() =~= set!["id"@]
                &&& actor matches Some(name) ==> members.dom() =~= set!["id"@, "actor"@]
                    && members["actor"@] == Json::Text(name@)
            }
            &&& cmd matches Cmd::Show { id } ==> {
                &&& tool@ == "beads_show"@
                &&& members.dom() =~= set!["id"@]
                &&& members["id"@] == Json::Text(id@)
            }
            &&& cmd matches Cmd::Exec { args: words } ==> tool@ == "br_exec"@ && carries_words(
                members,
                words@,
            )
            &&& cmd matches Cmd::External(words) ==> tool@ == "br_exec"@ && carries_words(
                members,
                words@,
            )
        },
{
    reveal_strlit("id");
    reveal_strlit("actor");
    assert("id"@.len() == 2 && "actor"@.len() == 5);
    match cmd {
        Cmd::Exec { args: words } => {
            words_are_carried(words@);
        },
        Cmd::External(words) => {
            words_are_carried(words@);
        },
        _ => {},
    }
}

/// Whether the only member is a list of just these words, in their order.
pub open spec fn carries_words(members: Map<Seq<char>, Json>, words: Seq<String>) -> bool {
    &&& members.dom() =~= set!["args"@]
    &&& members["args"@] matches Json::Array(items) && items.len() == words.len() && forall|i: int|
        0 <= i < items.len() ==> #[trigger] items[i] == Json::Text(words[i]@)
}

/// The arguments of a passed-through command are a list of its words.
pub proof fn words_are_carried(words: Seq<String>)
    ensures
        carries_words(map!["args"@ => Json::Array(text_trees(texts(words)))], words),
{
    texts_are_those_of_the_strings(words);
    let items = text_trees(texts(words));
    assert forall|i: int| 0 <= i < items.len() implies #[trigger] items[i] == Json::Text(
        words[i]@,
    ) by {
        assert(texts(words)[i] == words[i]@);
    }
}

/// An object has just the keys that some pair gives a value, and under each key
/// the value of the last such pair.
pub proof fn objects_have_the_values_that_are_there(
    pairs: Vec<(&str, Option<Value>)>,
    object: Value,
)
    requires
        call_ensures(obj, (pairs,), object),
    ensures
        tree_of(object) matches Json::Object(members) && {
            &&& forall|key: Seq<char>| #[trigger]
                members.contains_key(key) ==> exists|i: int|
                    0 <= i < pairs@.len() && (#[trigger] pairs@[i]).0@ == key && pairs@[i].1 is Some
            &&& forall|i: int|
                0 <= i < pairs@.len() && pairs@[i].1 is Some && (forall|j: int|
                    i < j < pairs@.len() && pairs@[j].1 is Some ==> (#[trigger] pairs@[j]).0@
                        != pairs@[i].0@) ==> members.contains_key((#[trigger] pairs@[i]).0@)
                    && members[pairs@[i].0@] == tree_of(pairs@[i].1->0)
        },
{
    let all = pair_trees(pairs@);
    let members = present(all);
    present_members_are_given(all);
    assert forall|key: Seq<char>| #[trigger] members.contains_key(key) implies exists|i: int|
        0 <= i < pairs@.len() && (#[trigger] pairs@[i]).0@ == key && pairs@[i].1 is Some by {
        let i = choose|i: int|
            0 <= i < all.len() && (#[trigger] all[i]).0 == key && all[i].1 is Some;
        assert(all[i] == (pairs@[i].0@, opt_tree(pairs@[i].1)));
        assert(pairs@[i].0@ == key);
    }
    assert forall|i: int|
        0 <= i < pairs@.len() && pairs@[i].1 is Some && (forall|j: int|
            i < j < pairs@.len() && pairs@[j].1 is Some ==> (#[trigger] pairs@[j]).0@
                != pairs@[i].0@) implies members.contains_key((#[trigger] pairs@[i]).0@)
        && members[pairs@[i].0@] == tree_of(pairs@[i].1->0) by {
        assert(all[i] == (pairs@[i].0@, opt_tree(pairs@[i].1)));
        assert forall|j: int| i < j < all.len() && all[j].1 is Some implies (#[trigger] all[j]).0
            != all[i].0 by {
            assert(all[j] == (pairs@[j].0@, opt_tree(pairs@[j].1)));
            assert(pairs@[j].0@ != pairs@[i].0@);
        }
        last_values_count(all, i);
    }
}

/// The keys that are present are given a value.
proof fn present_members_are_given(pairs: Seq<(Seq<char>, Option<Json>)>)
    ensures
        forall|key: Seq<char>| #[trigger]
            present(pairs).contains_key(key) ==> exists|i: int|
                0 <= i < pairs.len() && (#[trigger] pairs[i]).0 == key && pairs[i].1 is Some,
    decreases pairs.len(),
{
    if pairs.len() > 0 {
        let init = pairs.drop_last();
        present_members_are_given(init);
        assert forall|key: Seq<char>| #[trigger] present(pairs).contains_key(key) implies exists|
            i: int,
        |
            0 <= i < pairs.len() && (#[trigger] pairs[i]).0 == key && pairs[i].1 is Some by {
            let last = pairs[pairs.len() - 1];
            if !(last.1 is Some && last.0 == key) {
                assert(present(init).contains_key(key));
                let i = choose|i: int|
                    0 <= i < init.len() && (#[trigger] init[i]).0 == key && init[i].1 is Some;
                assert(pairs[i] == init[i]);
            }
        }
    }
}

/// Of the values under one key the last one counts.
proof fn last_values_count(pairs: Seq<(Seq<char>, Option<Json>)>, i: int)
    requires
        0 <= i < pairs.len(),
        pairs[i].1 is Some,
        forall|j: int|
            i < j < pairs.len() && pairs[j].1 is Some ==> (#[trigger] pairs[j]).0 != pairs[i].0,
    ensures
        present(pairs).contains_key(pairs[i].0),
        present(pairs)[pairs[i].0] == pairs[i].1->0,
    decreases pairs.len(),
{
    let init = pairs.drop_last();
    let n = pairs.len() - 1;
    if i < n {
        assert(init[i] == pairs[i]);
        assert forall|j: int| i < j < init.len() && init[j].1 is Some implies (
        #[trigger] init[j]).0 != init[i].0 by {
            assert(init[j] == pairs[j]);
        }
        last_values_count(init, i);
        assert(pairs[n] == pairs.last());
    }
}

/// A call is made with the members of an object, and with none where the
/// arguments are no object.
pub proof fn calls_are_made_with_the_members(
    args: Value,
    arguments: serde_json::Map<String, Value>,
)
    requires
        call_ensures(call_arguments, (args,), arguments),
    ensures
        tree_of(args) matches Json::Object(members) ==> members_of(arguments) == members,
        !(tree_of(args) is Object) ==> members_of(arguments).dom() =~= Set::<Seq<char>>::empty(),
{
}

/// Whether a tree is an object with a text under `text`.
pub open spec fn has_text(tree: Json) -> bool {
    tree matches Json::Object(members) && members.contains_key("text"@) && members["text"@] is Text
}

/// The text of a result is that of the first of its contents that has one, and
/// empty where none has.
pub proof fn the_first_text_counts(contents: Vec<Value>, text: String)
    requires
        call_ensures(first_text, (&contents,), text),
    ensures
        forall|i: int|
            0 <= i < contents@.len() && has_text(tree_of(#[trigger] contents@[i])) && (forall|
                j: int,
            |
                0 <= j < i ==> !has_text(tree_of(#[trigger] contents@[j]))) ==> tree_of(
                contents@[i],
            )->Object_0["text"@] == Json::Text(text@),
        (forall|i: int| 0 <= i < contents@.len() ==> !has_text(tree_of(#[trigger] contents@[i])))
            ==> text@.len() == 0,
{
    let all = trees(contents@);
    assert forall|i: int|
        0 <= i < contents@.len() && has_text(tree_of(#[trigger] contents@[i])) && (forall|j: int|
            0 <= j < i ==> !has_text(tree_of(#[trigger] contents@[j]))) implies tree_of(
        contents@[i],
    )->Object_0["text"@] == Json::Text(text@) by {
        assert(all[i] == tree_of(contents@[i]));
        assert forall|j: int| 0 <= j < i implies !has_text(#[trigger] all[j]) by {
            assert(all[j] == tree_of(contents@[j]));
        }
        first_texts_come_first(all, i);
    }
    if forall|i: int| 0 <= i < contents@.len() ==> !has_text(tree_of(#[trigger] contents@[i])) {
        assert forall|j: int| 0 <= j < all.len() implies !has_text(#[trigger] all[j]) by {
            assert(all[j] == tree_of(contents@[j]));
        }
        first_texts_come_first(all, all.len() as int);
    }
}

/// The first of the contents with a text gives the text.
proof fn first_texts_come_first(contents: Seq<Json>, i: int)
    requires
        0 <= i <= contents.len(),
        i < contents.len() ==> has_text(contents[i]),
        forall|j: int| 0 <= j < i ==> !has_text(#[trigger] contents[j]),
    ensures
        i < contents.len() ==> contents[i]->Object_0["text"@] == Json::Text(
            first_text_of(contents),
        ),
        i == contents.len() ==> first_text_of(contents).len() == 0,
    decreases contents.len(),
{
    if contents.len() > 0 {
        if i > 0 {
            assert(!has_text(contents[0]));
            let rest = contents.skip(1);
            assert forall|j: int| 0 <= j < i - 1 implies !has_text(#[trigger] rest[j]) by {
                assert(rest[j] == contents[j + 1]);
            }
            first_texts_come_first(rest, i - 1);
        }
    }
}

/// A passed-through command ends with what the reply carries: the texts under
/// `stdout` and `stderr`, empty where there is none, and the integer under
/// `exit_code`, cut to 32 bits, zero where there is none that fits 64 bits. A
/// reply that is no object is a failure that is told.
pub proof fn passed_through_commands_end_as_told(cmd: Cmd, text: &str, outcome: Outcome)
    requires
        cmd is Exec || cmd is External,
        call_ensures(conclude, (&cmd, text), outcome),
    ensures
        parsed(text@) matches Some(Json::Object(members)) ==> {
            let says = |key: Seq<char>| members.contains_key(key) && members[key] is Text;
            let code = members["exit_code"@];
            let has_code = members.contains_key("exit_code"@) && code is Integer && i64::MIN
                <= code->Integer_0 <= i64::MAX;
            &&& says("stdout"@) ==> members["stdout"@] == Json::Text(outcome.stdout@)
            &&& !says("stdout"@) ==> outcome.stdout@.len() == 0
            &&& says("stderr"@) ==> members["stderr"@] == Json::Text(outcome.stderr@)
            &&& !says("stderr"@) ==> outcome.stderr@.len() == 0
            &&& has_code && i32::MIN <= code->Integer_0 <= i32::MAX ==> outcome.exit_code
                == code->Integer_0
            &&& has_code ==> (outcome.exit_code - code->Integer_0) % 0x1_0000_0000 == 0
            &&& !has_code ==> outcome.exit_code == 0
        },
        !(parsed(text@) matches Some(Json::Object(_))) ==> outcome.exit_code == 1
            && outcome.stdout@.len() == 0 && outcome.stderr@ == text@ + "\n"@,
{
    assert(outcome@ == replicated(parsed(text@), text@));
    match parsed(text@) {
        Some(Json::Object(members)) => {
            let code = members["exit_code"@];
            if members.contains_key("exit_code"@) && code is Integer && i64::MIN <= code->Integer_0
                <= i64::MAX {
                let n = code->Integer_0 as i64;
                assert(((n as i32) - n) % 0x1_0000_0000 == 0) by (bit_vector);
            }
        },
        _ => {},
    }
}

/// A verb of the client's own fails exactly where the reply is an object with an
/// `error`, and then tells the reply among the errors; else it prints the reply.
pub proof fn own_verbs_end_as_told(cmd: Cmd, text: &str, outcome: Outcome)
    requires
        cmd is Claim || cmd is Unclaim || cmd is Show,
        call_ensures(conclude, (&cmd, text), outcome),
    ensures
        ({
            let failed = parsed(text@) matches Some(Json::Object(members)) && members.contains_key(
                "error"@,
            );
            &&& failed ==> outcome.exit_code == 1 && outcome.stdout@.len() == 0 && outcome.stderr@
                == text@ + "\n"@
            &&& !failed ==> outcome.exit_code == 0 && outcome.stdout@ == text@ + "\n"@
                && outcome.stderr@.len() == 0
        }),
{
    assert(outcome@ == reported(parsed(text@), text@));
}

} // verus!

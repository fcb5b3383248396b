//! What the client makes of a reply: what it prints, and its exit status.

use serde_json::Value;
use vstd::prelude::*;

use crate::json::{
    as_integer, get, get_integer, get_text, is_object, member, opt_tree, text_member, tree_of, Json,
};

verus! {

/// What the client leaves behind when it ends.
#[derive(Debug)]
pub struct Outcome {
    pub stdout: String,
    pub stderr: String,
    pub exit_code: i32,
}

/// The model of an [`Outcome`].
pub struct OutcomeView {
    pub stdout: Seq<char>,
    pub stderr: Seq<char>,
    pub exit_code: i32,
}

impl View for Outcome {
    type V = OutcomeView;

    open spec fn view(&self) -> OutcomeView {
        OutcomeView { stdout: self.stdout@, stderr: self.stderr@, exit_code: self.exit_code }
    }
}

/// The client's failure: the reply goes to standard error, and the status is 1.
pub open spec fn failure(text: Seq<char>) -> OutcomeView {
    OutcomeView { stdout: Seq::empty(), stderr: text + "\n"@, exit_code: 1 }
}

/// The text of a value that may be missing.
pub open spec fn or_empty(text: Option<Seq<char>>) -> Seq<char> {
    match text {
        Some(s) => s,
        None => Seq::empty(),
    }
}

/// The status that a reply's `exit_code` asks for, cut to 32 bits; zero where
/// it is no integer.
pub open spec fn exit_status(code: Option<Json>) -> i32 {
    match code {
        Some(tree) => match as_integer(tree) {
            Some(n) => (n as i64) as i32,
            None => 0,
        },
        None => 0,
    }
}

/// What a passed-through command ends with, where `tree` is what was read from
/// the reply `text`: the output and status that the reply carries, or a
/// failure where the reply is no object.
pub open spec fn replicated(tree: Option<Json>, text: Seq<char>) -> OutcomeView {
    match tree {
        Some(Json::Object(members)) => OutcomeView {
            stdout: or_empty(text_member(Json::Object(members), "stdout"@)),
            stderr: or_empty(text_member(Json::Object(members), "stderr"@)),
            exit_code: exit_status(member(Json::Object(members), "exit_code"@)),
        },
        _ => failure(text),
    }
}

/// What one of the client's own verbs ends with, where `tree` is what was read
/// from the reply `text`: a failure where the reply is an object with an
/// `error`, and else the reply on standard output.
pub open spec fn reported(tree: Option<Json>, text: Seq<char>) -> OutcomeView {
    if tree is Some && member(tree->0, "error"@) is Some {
        failure(text)
    } else {
        OutcomeView { stdout: text + "\n"@, stderr: Seq::empty(), exit_code: 0 }
    }
}

/// The text under `key`, empty where there is none.
fn text_under(value: &Value, key: &str) -> (text: String)
    ensures
        text@ == or_empty(text_member(tree_of(*value), key@)),
{
    match get(value, key) {
        Some(inner) => match get_text(inner) {
            Some(s) => s,
            None => String::new(),
        },
        None => String::new(),
    }
}

/// The reply on standard error, with status 1.
fn fail(text: &str) -> (outcome: Outcome)
    ensures
        outcome@ == failure(text@),
{
    let mut stderr: String = text.to_owned();
    stderr.append("\n");
    Outcome { stdout: String::new(), stderr, exit_code: 1 }
}

/// What a passed-through command ends with, given what was read from its
/// reply.
pub fn replicate(reply: Option<Value>, text: &str) -> (outcome: Outcome)
    ensures
        outcome@ == replicated(opt_tree(reply), text@),
{
    match reply {
        Some(value) => {
            if !is_object(&value) {
                return fail(text);
            }
            let exit_code: i32 = match get(&value, "exit_code") {
                Some(code) => match get_integer(code) {
                    Some(n) => #[verifier::truncate] (n as i32),
                    None => 0,
                },
                None => 0,
            };
            Outcome {
                stdout: text_under(&value, "stdout"),
                stderr: text_under(&value, "stderr"),
                exit_code,
            }
        },
        None => fail(text),
    }
}

/// What one of the client's own verbs ends with, given what was read from its
/// reply.
pub fn report(reply: Option<Value>, text: &str) -> (outcome: Outcome)
    ensures
        outcome@ == reported(opt_tree(reply), text@),
{
    let failed: bool = match reply {
        Some(value) => get(&value, "error").is_some(),
        None => false,
    };
    if failed {
        return fail(text);
    }
    let mut stdout: String = text.to_owned();
    stdout.append("\n");
    Outcome { stdout, stderr: String::new(), exit_code: 0 }
}

} // verus!

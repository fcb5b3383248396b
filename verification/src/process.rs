//! What running a program came to.

use vstd::prelude::*;
use vstd::utf8::*;

verus! {

/// What a program that ran left behind. The status is missing where a signal
/// ended the program.
#[derive(Debug)]
pub struct Output {
    pub code: Option<i32>,
    pub stdout: Vec<u8>,
    pub stderr: Vec<u8>,
}

impl Output {
    /// Whether the program ended with status zero.
    pub open spec fn succeeded(self) -> bool {
        self.code == Some(0i32)
    }

    /// The text of its standard output.
    pub open spec fn stdout_text(self) -> Seq<char> {
        lossy_text(self.stdout@)
    }

    /// The text of its standard error.
    pub open spec fn stderr_text(self) -> Seq<char> {
        lossy_text(self.stderr@)
    }

    /// Whether the program ended with status zero.
    pub fn success(&self) -> (yes: bool)
        ensures
            yes == self.succeeded(),
    {
        match self.code {
            Some(n) => n == 0,
            None => false,
        }
    }
}

/// How an attempt to run a program ended.
#[derive(Debug)]
pub enum Finished {
    /// The program ran and ended.
    Exited(Output),
    /// The program could not be started.
    NotStarted { message: String },
}

/// The text of bytes in which each invalid UTF-8 sequence is replaced by the
/// replacement character.
pub uninterp spec fn lossy_text(bytes: Seq<u8>) -> Seq<char>;

/// `String::from_utf8_lossy` of the standard library: the text of the bytes,
/// exactly their decoding where they are UTF-8. How many replacement
/// characters stand for other bytes is left to its name.
#[verifier::external_body]
pub(crate) fn to_text(bytes: &Vec<u8>) -> (text: String)
    ensures
        text@ == lossy_text(bytes@),
        valid_utf8(bytes@) ==> text@ == decode_utf8(bytes@),
{
    String::from_utf8_lossy(bytes).into_owned()
}

/// A program succeeded exactly where it ended with status zero; a signal is no
/// success.
pub proof fn only_status_zero_is_success(output: Output, yes: bool)
    requires
        call_ensures(Output::success, (&output,), yes),
    ensures
        yes <==> output.code == Some(0i32),
{
}

} // verus!

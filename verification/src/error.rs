//! The error taxonomy of a run, and the human-readable rendering of a
//! failed command.

use vstd::prelude::*;
use vstd::string::StringExecFns;

use crate::decimal::i64_to_decimal;
use crate::decimal::signed_decimal_seq;

verus! {

/// What a finished subprocess left behind: its exit code (`None` when it
/// was ended by a signal), and its captured output streams as raw bytes.
pub struct CommandOutput {
    pub code: Option<i32>,
    pub stdout: Vec<u8>,
    pub stderr: Vec<u8>,
}

impl CommandOutput {
    /// Whether the subprocess exited successfully, before any inversion.
    pub open spec fn spec_success(self) -> bool {
        self.code == Some(0i32)
    }

    /// Whether the subprocess exited successfully, before any inversion.
    pub fn success(&self) -> (r: bool)
        ensures
            r == self.spec_success(),
    {
        match self.code {
            Some(c) => c == 0,
            None => false,
        }
    }
}

/// Why a unit of the run failed.
pub enum Error {
    /// The subprocess could not be spawned or communicated with.
    IO { message: String },
    /// The subprocess ran but its (possibly inverted) success test failed.
    ExitCode(CommandOutput),
    /// An invalid glob pattern was supplied in a group.
    Pattern { message: String },
    /// Walking a glob pattern's matches failed.
    Glob { message: String },
}

/// The characters a byte sequence decodes to under UTF-8, when it is
/// valid UTF-8.
pub uninterp spec fn utf8_decoded(bytes: Seq<u8>) -> Option<Seq<char>>;

/// Relies on `String::from_utf8`: returns the string that the bytes
/// encode in UTF-8, or nothing when they are not valid UTF-8.
#[verifier::external_body]
fn bytes_to_utf8(bytes: &Vec<u8>) -> (r: Option<String>)
    ensures
        r is Some <==> utf8_decoded(bytes@) is Some,
        r is Some ==> r->0@ == utf8_decoded(bytes@)->0,
{
    String::from_utf8(bytes.clone()).ok()
}

/// The text shown for a captured output stream: its UTF-8 decoding, or a
/// fixed placeholder when the bytes are not valid UTF-8.
pub open spec fn lossy_utf8(bytes: Seq<u8>) -> Seq<char> {
    match utf8_decoded(bytes) {
        Some(s) => s,
        None => "not utf8 string"@,
    }
}

/// The status line of a finished subprocess.
pub open spec fn status_line(code: Option<i32>) -> Seq<char> {
    match code {
        Some(c) => "exit code: "@ + signed_decimal_seq(c as int),
        None => "terminated by signal"@,
    }
}

/// The full report for a subprocess whose success test failed: the
/// status line, then each captured stream under its heading.
pub open spec fn exit_code_message(out: CommandOutput) -> Seq<char> {
    status_line(out.code) + "\n"@ + "stdout:\n"@ + lossy_utf8(out.stdout@) + "\n"@ + "stderr:\n"@
        + lossy_utf8(out.stderr@) + "\n"@
}

/// The text an error is reported with.
pub open spec fn error_message(e: Error) -> Seq<char> {
    match e {
        Error::IO { message } => message@,
        Error::ExitCode(out) => exit_code_message(out),
        Error::Pattern { message } => message@,
        Error::Glob { message } => message@,
    }
}

/// The text shown for a captured output stream.
fn lossy_utf8_string(bytes: &Vec<u8>) -> (r: String)
    ensures
        r@ == lossy_utf8(bytes@),
{
    match bytes_to_utf8(bytes) {
        Some(s) => s,
        None => String::from_str("not utf8 string"),
    }
}

impl Error {
    /// The text this error is reported with.
    pub fn message(&self) -> (r: String)
        ensures
            r@ == error_message(*self),
    {
        match self {
            Error::IO { message } => message.clone(),
            Error::Pattern { message } => message.clone(),
            Error::Glob { message } => message.clone(),
            Error::ExitCode(out) => {
                let mut s: String;
                match &out.code {
                    Some(c) => {
                        s = String::from_str("exit code: ");
                        s.append(i64_to_decimal(*c as i64).as_str());
                    },
                    None => {
                        s = String::from_str("terminated by signal");
                    },
                }
                s.append("\n");
                s.append("stdout:\n");
                s.append(lossy_utf8_string(&out.stdout).as_str());
                s.append("\n");
                s.append("stderr:\n");
                s.append(lossy_utf8_string(&out.stderr).as_str());
                s.append("\n");
                s
            },
        }
    }
}

} // verus!

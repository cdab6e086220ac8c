//! Command construction and exit-status interpretation: how a resolved
//! settings view and a script string become one subprocess invocation,
//! and how the subprocess's outcome becomes success or failure.

use vstd::prelude::*;
use vstd::string::StringExecFns;

use crate::error::CommandOutput;
use crate::error::Error;
use crate::settings::SettingsStack;
use crate::settings::SettingsView;
use crate::settings::stack_clear_env;
use crate::settings::stack_command;
use crate::settings::stack_env;
use crate::settings::stack_setup_timeout;
use crate::settings::stack_should_fail;
use crate::settings::stack_timeout;

verus! {

/// The words a string splits into under POSIX shell word-splitting rules
/// (quoting and escaping respected).
pub uninterp spec fn shell_words(s: Seq<char>) -> Seq<Seq<char>>;

/// The sequence of character sequences held by a word list.
pub open spec fn words_view(s: Seq<String>) -> Seq<Seq<char>> {
    s.map_values(|w: String| w@)
}

/// Relies on `shlex::Shlex`: an iterator that splits a string into words
/// using POSIX shell quoting and escaping rules.
#[verifier::external_body]
fn lex_words(s: &str) -> (r: Vec<String>)
    ensures
        words_view(r@) == shell_words(s@),
{
    shlex::Shlex::new(s).collect()
}

/// The tokens of the default interpreter invocation, used when the
/// configured one splits into no words at all.
pub open spec fn fallback_tokens() -> Seq<Seq<char>> {
    if shell_words("sh -c"@).len() > 0 {
        shell_words("sh -c"@)
    } else {
        seq!["sh"@, "-c"@]
    }
}

/// The interpreter tokens a command string resolves to: its own words
/// when there are any, else the words of the default `"sh -c"`.
pub open spec fn resolved_tokens(cmd: Seq<char>) -> Seq<Seq<char>> {
    if shell_words(cmd).len() > 0 {
        shell_words(cmd)
    } else {
        fallback_tokens()
    }
}

/// Removing the first word commutes with taking word views.
proof fn lemma_words_view_remove0(s: Seq<String>)
    requires
        s.len() > 0,
    ensures
        words_view(s.remove(0)) =~= words_view(s).skip(1),
{
    assert forall|i: int| 0 <= i < s.remove(0).len() implies words_view(s.remove(0))[i]
        == words_view(s).skip(1)[i] by {
        assert(s.remove(0)[i] == s[i + 1]);
    }
}

/// Pushing a word commutes with taking word views.
proof fn lemma_words_view_push(s: Seq<String>, w: String)
    ensures
        words_view(s.push(w)) =~= words_view(s).push(w@),
{
    assert forall|i: int| 0 <= i < s.push(w).len() implies words_view(s.push(w))[i] == words_view(
        s,
    ).push(w@)[i] by {
        if i < s.len() {
            assert(s.push(w)[i] == s[i]);
        } else {
            assert(s.push(w)[i] == w);
        }
    }
}

impl<'a> SettingsStack<'a> {
    /// The resolved interpreter invocation as a program name plus its
    /// leading arguments: the resolved command string split with shell
    /// word rules; when it yields no words, the default `"sh -c"` split
    /// the same way.
    pub fn command_with_args(&self) -> (r: (String, Vec<String>))
        ensures
            ({
                let toks = resolved_tokens(stack_command(self.root_view(), self.layers_view()));
                &&& r.0@ == toks[0]
                &&& words_view(r.1@) == toks.skip(1)
            }),
    {
        let ghost toks = resolved_tokens(stack_command(self.root_view(), self.layers_view()));
        let mut words = lex_words(self.command());
        if words.len() == 0 {
            words = lex_words("sh -c");
            if words.len() == 0 {
                let program = String::from_str("sh");
                let mut args: Vec<String> = Vec::new();
                args.push(String::from_str("-c"));
                proof {
                    assert(toks =~= seq!["sh"@, "-c"@]);
                    assert(words_view(args@) =~= toks.skip(1));
                }
                return (program, args);
            }
        }
        proof {
            assert(words_view(words@) == toks);
            lemma_words_view_remove0(words@);
        }
        let program = words.remove(0);
        (program, words)
    }
}

/// Everything needed to start one subprocess: the program, its full
/// argument list (the script is the final argument), the environment
/// policy, the enforced deadline in milliseconds, and whether the
/// success test is inverted.
pub struct Invocation {
    pub program: String,
    pub args: Vec<String>,
    pub clear_env: bool,
    pub env: Vec<(String, String)>,
    pub timeout_ms: u32,
    pub should_fail: bool,
}

/// The mathematical content of an `Invocation`.
pub struct InvocationView {
    pub program: Seq<char>,
    pub args: Seq<Seq<char>>,
    pub clear_env: bool,
    pub env: Seq<(Seq<char>, Seq<char>)>,
    pub timeout_ms: u32,
    pub should_fail: bool,
}

impl View for Invocation {
    type V = InvocationView;

    open spec fn view(&self) -> InvocationView {
        InvocationView {
            program: self.program@,
            args: words_view(self.args@),
            clear_env: self.clear_env,
            env: crate::settings::env_view(self.env@),
            timeout_ms: self.timeout_ms,
            should_fail: self.should_fail,
        }
    }
}

/// The invocation a stack and a script resolve to.  The program and the
/// leading arguments come from the resolved command tokens, the script
/// is appended as the final argument, and the deadline is the setup
/// timeout for before/after scripts, the test timeout otherwise.
pub open spec fn invocation_view(
    root: SettingsView,
    layers: Seq<SettingsView>,
    script: Seq<char>,
    setup: bool,
) -> InvocationView {
    let toks = resolved_tokens(stack_command(root, layers));
    InvocationView {
        program: toks[0],
        args: toks.skip(1).push(script),
        clear_env: stack_clear_env(root, layers),
        env: stack_env(root, layers),
        timeout_ms: if setup {
            stack_setup_timeout(root, layers)
        } else {
            stack_timeout(root, layers)
        },
        should_fail: stack_should_fail(root, layers),
    }
}

/// Builds the invocation for one script string.
pub struct CommandBuilder<'a> {
    function: &'a str,
}

impl<'a> CommandBuilder<'a> {
    /// The script this builder will hand to the interpreter.
    pub closed spec fn function_view(self) -> Seq<char> {
        self.function@
    }

    /// A builder for the given script string.
    pub fn new(function: &'a str) -> (r: CommandBuilder<'a>)
        ensures
            r.function_view() == function@,
    {
        CommandBuilder { function }
    }

    /// The full invocation for this script under the given resolved
    /// settings; `setup` selects the setup timeout over the test timeout.
    pub fn invocation(&self, settings: &SettingsStack<'_>, setup: bool) -> (r: Invocation)
        ensures
            r@ == invocation_view(
                settings.root_view(),
                settings.layers_view(),
                self.function_view(),
                setup,
            ),
    {
        let (program, mut args) = settings.command_with_args();
        let script = String::from_str(self.function);
        proof {
            lemma_words_view_push(args@, script);
        }
        args.push(script);
        let timeout_ms = if setup {
            settings.setup_timeout()
        } else {
            settings.timeout()
        };
        Invocation {
            program,
            args,
            clear_env: settings.clear_env(),
            env: settings.env(),
            timeout_ms,
            should_fail: settings.should_fail(),
        }
    }
}

/// The invocation for the batch's pre-setup hook, when one is declared:
/// the `before_all` script under the global settings alone, with the
/// setup timeout.  It runs once, before any test is scheduled; its
/// failure aborts the whole run.
pub fn pre_setup(data: &crate::Data) -> (r: Option<Invocation>)
    ensures
        (r is Some) <==> data.setup.before_all is Some,
        r matches Some(inv) ==> inv@ == invocation_view(
            data.global@.other_settings,
            Seq::empty(),
            (data.setup.before_all->0)@,
            true,
        ),
{
    if let Some(before_all) = &data.setup.before_all {
        let layers: Vec<&crate::settings::Settings> = Vec::new();
        let stack = data.global.stack(layers.as_slice());
        proof {
            assert(stack.layers_view() =~= Seq::<SettingsView>::empty());
        }
        return Some(CommandBuilder::new(before_all.as_str()).invocation(&stack, true));
    }
    None
}

/// The invocation for the batch's post-setup hook, when one is
/// declared: the `after_all` script under the global settings alone,
/// with the setup timeout.  It runs once, after every scheduled test
/// has completed.
pub fn post_setup(data: &crate::Data) -> (r: Option<Invocation>)
    ensures
        (r is Some) <==> data.setup.after_all is Some,
        r matches Some(inv) ==> inv@ == invocation_view(
            data.global@.other_settings,
            Seq::empty(),
            (data.setup.after_all->0)@,
            true,
        ),
{
    if let Some(after_all) = &data.setup.after_all {
        let layers: Vec<&crate::settings::Settings> = Vec::new();
        let stack = data.global.stack(layers.as_slice());
        proof {
            assert(stack.layers_view() =~= Seq::<SettingsView>::empty());
        }
        return Some(CommandBuilder::new(after_all.as_str()).invocation(&stack, true));
    }
    None
}

/// Whether an exit is counted as success: the plain success test, or its
/// inversion when `inverse_result` is set.
fn is_success(inverse_result: bool, success: bool) -> (r: bool)
    ensures
        r == (success == !inverse_result),
{
    match (inverse_result, success) {
        (false, success) => success,
        (true, success) => !success,
    }
}

/// The interpretation of one finished (or failed-to-start) subprocess:
/// success exactly when the process ran and its success test — inverted
/// when `should_fail` is set — passed; otherwise the structured error.
pub open spec fn run_result(should_fail: bool, outcome: Result<CommandOutput, String>) -> Result<
    (),
    Error,
> {
    match outcome {
        Ok(out) => {
            if out.spec_success() == !should_fail {
                Ok(())
            } else {
                Err(Error::ExitCode(out))
            }
        },
        Err(message) => Err(Error::IO { message }),
    }
}

/// Interprets what running one script produced.  A spawn failure is an
/// I/O error; a subprocess that ran is a success exactly when its exit
/// success equals the negation of `should_fail` — so a `should_fail`
/// script that exits nonzero is a success, and one that exits zero is a
/// failure, reported with the captured output.
pub fn run(should_fail: bool, outcome: Result<CommandOutput, String>) -> (r: Result<(), Error>)
    ensures
        r == run_result(should_fail, outcome),
        outcome matches Ok(out) ==> ((r is Ok) <==> (out.spec_success() == !should_fail)),
        outcome is Err ==> r is Err,
{
    match outcome {
        Ok(out) => {
            let success = out.success();
            if is_success(should_fail, success) {
                Ok(())
            } else {
                Err(Error::ExitCode(out))
            }
        },
        Err(message) => Err(Error::IO { message }),
    }
}

} // verus!

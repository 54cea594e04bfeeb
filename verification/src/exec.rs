//! The results of external commands, and when one counts as a failure.

use vstd::prelude::*;
use crate::numeral::{push_signed_decimal, signed_decimal};
use crate::text::{append_chars, from_chars, join, joined, string_views, to_chars, trim, trimmed};

verus! {

/// What a command left behind when it ended.
#[derive(Debug, Clone)]
pub struct ExecResult {
    pub exit_code: i32,
    pub stdout: String,
    pub stderr: String,
    pub duration_millis: u64,
}

/// The exit code of a command, where one that ended without a code counts
/// as -1.
pub fn exit_code_of(code: Option<i32>) -> (r: i32)
    ensures
        r == match code {
            Some(c) => c,
            None => -1i32,
        },
{
    match code {
        Some(c) => c,
        None => -1,
    }
}

/// The message for a command that ended with a code other than zero.
pub open spec fn failure_message(
    cmd: Seq<char>,
    args: Seq<Seq<char>>,
    exit_code: int,
    stderr: Seq<char>,
) -> Seq<char> {
    cmd + " "@ + joined(args, " "@) + " failed (exit "@ + signed_decimal(exit_code) + "): "@
        + trimmed(stderr)
}

/// Judges a command that has run: its result where it ended with code
/// zero, else an error that names the command, its arguments, the code and
/// what it wrote to its error stream.
pub fn run_cmd(cmd: &str, args: &Vec<String>, result: ExecResult) -> (r: Result<
    ExecResult,
    String,
>)
    ensures
        result.exit_code == 0 ==> r == Ok::<ExecResult, String>(result),
        result.exit_code != 0 ==> r is Err && r->Err_0@ == failure_message(
            cmd@,
            string_views(args@),
            result.exit_code as int,
            result.stderr@,
        ),
{
    if result.exit_code == 0 {
        return Ok(result);
    }
    let mut out = to_chars(cmd);
    out.push(' ');
    let listed = join(args, " ");
    append_chars(&mut out, &to_chars(listed.as_str()));
    append_chars(&mut out, &to_chars(" failed (exit "));
    push_signed_decimal(&mut out, result.exit_code as i64);
    append_chars(&mut out, &to_chars("): "));
    append_chars(&mut out, &trim(&to_chars(result.stderr.as_str())));
    proof {
        reveal_strlit(" ");
        assert(" "@ == seq![' ']);
        assert(cmd@.push(' ') == cmd@ + " "@);
    }
    Err(from_chars(&out))
}

/// The message for a streamed command that ended with a code other than
/// zero.
pub open spec fn streaming_failure_message(cmd: Seq<char>, exit_code: int) -> Seq<char> {
    cmd + " failed with exit code "@ + signed_decimal(exit_code)
}

/// Judges a command whose output went straight to the terminal: its exit
/// code where that is zero, else an error that names the command and the
/// code.
pub fn run_cmd_streaming(cmd: &str, exit_code: i32) -> (r: Result<i32, String>)
    ensures
        exit_code == 0 ==> r == Ok::<i32, String>(0),
        exit_code != 0 ==> r is Err && r->Err_0@ == streaming_failure_message(
            cmd@,
            exit_code as int,
        ),
{
    if exit_code == 0 {
        return Ok(0);
    }
    let mut out = to_chars(cmd);
    append_chars(&mut out, &to_chars(" failed with exit code "));
    push_signed_decimal(&mut out, exit_code as i64);
    Err(from_chars(&out))
}

/// A command to run: the program, its arguments, and the directory to run
/// it in where that is not the current one.
#[derive(Debug, Clone)]
pub struct Invocation {
    pub program: String,
    pub args: Vec<String>,
    pub dir: Option<String>,
}

/// What an `Invocation` holds, as plain sequences.
pub struct InvocationView {
    pub program: Seq<char>,
    pub args: Seq<Seq<char>>,
    pub dir: Option<Seq<char>>,
}

impl View for Invocation {
    type V = InvocationView;

    open spec fn view(&self) -> InvocationView {
        InvocationView {
            program: self.program@,
            args: string_views(self.args@),
            dir: crate::text::opt_text(self.dir),
        }
    }
}

} // verus!

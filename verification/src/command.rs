//! What running a command comes to: the text that names the command in
//! messages, and the verdict on how its process ended.

use vstd::prelude::*;
use vstd::string::StringExecFns;
use vstd::utf8::{decode_utf8, valid_utf8};

verus! {

/// How a process ended.
#[derive(Clone, Copy, Debug, PartialEq, Eq, Structural)]
pub enum Exit {
    /// The process exited with this code.
    Code(i32),
    /// The process was ended by this signal.
    Signal(i32),
    /// The process could not be started.
    NotStarted,
}

/// What a finished process leaves behind.
#[derive(Clone, Debug)]
pub struct Output {
    /// How the process ended.
    pub status: Exit,
    /// What the process wrote to its standard output.
    pub stdout: Vec<u8>,
}

/// Why a command gave no output.
#[derive(Clone, Copy, Debug, PartialEq, Eq, Structural)]
pub enum Failure {
    /// The process exited with a code other than zero.
    Exited(i32),
    /// The process was ended by a signal.
    Signaled(i32),
    /// The process could not be started.
    NotStarted,
    /// The output is no UTF-8 text.
    NotUtf8,
}

/// A command that failed.
#[derive(Clone, Debug)]
pub struct CommandError {
    /// What went wrong.
    pub failure: Failure,
    /// For a process that failed, the command as [`get_command_str`] spells
    /// it; for output that is no text, what the decoder says of it.
    pub detail: String,
}

/// What the end of a process says of the command: nothing where it exited
/// with code zero, and else the failure.
pub open spec fn verdict(status: Exit) -> Option<Failure> {
    match status {
        Exit::Code(code) => if code == 0 {
            None
        } else {
            Some(Failure::Exited(code))
        },
        Exit::Signal(signal) => Some(Failure::Signaled(signal)),
        Exit::NotStarted => Some(Failure::NotStarted),
    }
}

/// The decimal digits.
pub open spec fn digits() -> Seq<char> {
    seq!['0', '1', '2', '3', '4', '5', '6', '7', '8', '9']
}

/// A number in decimal, without leading zeros.
pub open spec fn decimal_nat(n: nat) -> Seq<char>
    decreases n,
{
    if n < 10 {
        seq![digits()[n as int]]
    } else {
        decimal_nat(n / 10).push(digits()[(n % 10) as int])
    }
}

/// A number in decimal, with a minus sign where it is negative.
pub open spec fn decimal(n: int) -> Seq<char> {
    if n < 0 {
        seq!['-'] + decimal_nat((-n) as nat)
    } else {
        decimal_nat(n as nat)
    }
}

/// Program and arguments with one space between each two of them.
pub open spec fn joined(program: Seq<char>, args: Seq<Seq<char>>) -> Seq<char>
    decreases args.len(),
{
    if args.len() == 0 {
        program
    } else {
        joined(program, args.drop_last()) + seq![' '] + args.last()
    }
}

/// The arguments of a command by their characters.
pub open spec fn arg_views(args: Seq<String>) -> Seq<Seq<char>> {
    Seq::new(args.len(), |i: int| args[i]@)
}

/// The message of a failure. `detail` is the text that the error carries.
pub open spec fn failure_message(failure: Failure, detail: Seq<char>) -> Seq<char> {
    match failure {
        Failure::Exited(code) => "Exited with code: "@ + decimal(code as int) + ", cmd: "@ + detail,
        Failure::Signaled(signal) => "Process terminated by signal: "@ + decimal(signal as int)
            + ", cmd: "@ + detail,
        Failure::NotStarted => "Failed to start, cmd: "@ + detail,
        Failure::NotUtf8 => detail,
    }
}

fn digit_str(d: u64) -> (s: &'static str)
    requires
        d < 10,
    ensures
        s@ == seq![digits()[d as int]],
{
    proof {
        reveal_strlit("0");
        reveal_strlit("1");
        reveal_strlit("2");
        reveal_strlit("3");
        reveal_strlit("4");
        reveal_strlit("5");
        reveal_strlit("6");
        reveal_strlit("7");
        reveal_strlit("8");
        reveal_strlit("9");
    }
    let s = if d == 0 {
        "0"
    } else if d == 1 {
        "1"
    } else if d == 2 {
        "2"
    } else if d == 3 {
        "3"
    } else if d == 4 {
        "4"
    } else if d == 5 {
        "5"
    } else if d == 6 {
        "6"
    } else if d == 7 {
        "7"
    } else if d == 8 {
        "8"
    } else {
        "9"
    };
    assert(s@ =~= seq![digits()[d as int]]);
    s
}

fn push_decimal_nat(out: &mut String, n: u64)
    ensures
        final(out)@ == old(out)@ + decimal_nat(n as nat),
    decreases n,
{
    if n >= 10 {
        push_decimal_nat(out, n / 10);
    }
    out.append(digit_str(n % 10));
    assert(out@ =~= old(out)@ + decimal_nat(n as nat));
}

/// Writes a number in decimal at the end of a text.
pub fn push_decimal(out: &mut String, n: i32)
    ensures
        final(out)@ == old(out)@ + decimal(n as int),
{
    if n < 0 {
        proof {
            reveal_strlit("-");
        }
        out.append("-");
        assert(out@ =~= old(out)@ + seq!['-']);
        push_decimal_nat(out, (-(n as i64)) as u64);
        assert(out@ =~= old(out)@ + decimal(n as int));
    } else {
        push_decimal_nat(out, n as u64);
    }
}

/// The command as messages name it: the program and its arguments,
/// separated by single spaces.
pub fn get_command_str(program: &str, args: &Vec<String>) -> (cmd_str: String)
    ensures
        cmd_str@ == joined(program@, arg_views(args@)),
{
    let mut cmd_str = String::from_str(program);
    let mut i: usize = 0;
    while i < args.len()
        invariant
            i <= args@.len(),
            cmd_str@ == joined(program@, arg_views(args@).take(i as int)),
        decreases args@.len() - i,
    {
        proof {
            reveal_strlit(" ");
            assert(arg_views(args@).take(i + 1).drop_last() =~= arg_views(args@).take(i as int));
            assert(" "@ =~= seq![' ']);
        }
        cmd_str.append(" ");
        cmd_str.append(args[i].as_str());
        i += 1;
    }
    assert(arg_views(args@).take(args@.len() as int) =~= arg_views(args@));
    cmd_str
}

/// The verdict on a finished process: its output where it exited with code
/// zero, and else the failure together with the command `cmd_str`.
pub fn get_command_output(cmd_str: &str, output: Output) -> (result: Result<Vec<u8>, CommandError>)
    ensures
        match verdict(output.status) {
            None => result == Ok::<Vec<u8>, CommandError>(output.stdout),
            Some(failure) => result matches Err(e) && e.failure == failure && e.detail@
                == cmd_str@,
        },
{
    match output.status {
        Exit::Code(code) => {
            if code == 0 {
                Ok(output.stdout)
            } else {
                Err(
                    CommandError {
                        failure: Failure::Exited(code),
                        detail: String::from_str(cmd_str),
                    },
                )
            }
        },
        Exit::Signal(signal) => Err(
            CommandError { failure: Failure::Signaled(signal), detail: String::from_str(cmd_str) },
        ),
        Exit::NotStarted => Err(
            CommandError { failure: Failure::NotStarted, detail: String::from_str(cmd_str) },
        ),
    }
}

#[verifier::external_type_specification]
#[verifier::external_body]
pub struct ExFromUtf8Error(std::string::FromUtf8Error);

/// Calls `String::from_utf8`: bytes that are UTF-8 become the text that
/// they encode, and bytes that are not give an error.
#[verifier::external_body]
fn string_from_utf8(bytes: Vec<u8>) -> (text: Result<String, std::string::FromUtf8Error>)
    ensures
        text is Ok <==> valid_utf8(bytes@),
        text matches Ok(s) ==> s@ == decode_utf8(bytes@),
{
    String::from_utf8(bytes)
}

/// The verdict on a finished process whose output is text: as
/// [`get_command_output`], and the output decoded from UTF-8.
pub fn get_command_output_string(cmd_str: &str, output: Output) -> (result: Result<
    String,
    CommandError,
>)
    ensures
        match verdict(output.status) {
            None => if valid_utf8(output.stdout@) {
                result matches Ok(s) && s@ == decode_utf8(output.stdout@)
            } else {
                result matches Err(e) && e.failure == Failure::NotUtf8
            },
            Some(failure) => result matches Err(e) && e.failure == failure && e.detail@
                == cmd_str@,
        },
{
    match get_command_output(cmd_str, output) {
        Err(e) => Err(e),
        Ok(stdout) => match string_from_utf8(stdout) {
            Ok(s) => Ok(s),
            Err(e) => Err(CommandError { failure: Failure::NotUtf8, detail: e.to_string() }),
        },
    }
}

impl CommandError {
    /// The error in words.
    pub fn message(&self) -> (text: String)
        ensures
            text@ == failure_message(self.failure, self.detail@),
    {
        match self.failure {
            Failure::Exited(code) => {
                let mut text = String::from_str("Exited with code: ");
                push_decimal(&mut text, code);
                text.append(", cmd: ");
                text.append(self.detail.as_str());
                text
            },
            Failure::Signaled(signal) => {
                let mut text = String::from_str("Process terminated by signal: ");
                push_decimal(&mut text, signal);
                text.append(", cmd: ");
                text.append(self.detail.as_str());
                text
            },
            Failure::NotStarted => {
                let mut text = String::from_str("Failed to start, cmd: ");
                text.append(self.detail.as_str());
                text
            },
            Failure::NotUtf8 => self.detail.clone(),
        }
    }
}

} // verus!

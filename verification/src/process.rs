//! Programs to run, and what their results mean.

use vstd::prelude::*;
use vstd::string::*;

use crate::text;

verus! {

/// A program to run, with its arguments.
#[derive(Debug, PartialEq)]
pub struct Command {
    pub program: String,
    pub args: Vec<String>,
}

/// The model of a `Command`.
pub struct CommandModel {
    pub program: Seq<char>,
    pub args: Seq<Seq<char>>,
}

impl DeepView for Command {
    type V = CommandModel;

    open spec fn deep_view(&self) -> CommandModel {
        CommandModel { program: self.program@, args: self.args.deep_view() }
    }
}

/// What a program left behind when it ended.
#[derive(Debug, PartialEq)]
pub struct CommandOutput {
    /// Whether it ended with success.
    pub success: bool,
    pub stdout: Vec<u8>,
    pub stderr: Vec<u8>,
}

/// Something to tell the user.
#[derive(Debug, PartialEq)]
pub enum Message {
    /// A line for standard output.
    Print(String),
    /// A line for standard error.
    Warn(String),
}

/// The model of a `Message`.
pub enum MessageModel {
    Print(Seq<char>),
    Warn(Seq<char>),
}

impl DeepView for Message {
    type V = MessageModel;

    open spec fn deep_view(&self) -> MessageModel {
        match self {
            Message::Print(s) => MessageModel::Print(s@),
            Message::Warn(s) => MessageModel::Warn(s@),
        }
    }
}

/// `list` as strings of its own.
pub fn strings(list: &[&str]) -> (r: Vec<String>)
    ensures
        r.deep_view() == list.deep_view(),
{
    let mut r: Vec<String> = Vec::new();
    for i in 0..list.len()
        invariant
            r@.len() == i,
            forall|k: int| 0 <= k < i ==> (#[trigger] r@[k])@ == list@[k]@,
    {
        r.push(list[i].to_owned());
    }
    assert(r.deep_view() =~= list.deep_view());
    r
}

/// The program `program` with the arguments `args`.
pub fn command(program: &str, args: &[&str]) -> (c: Command)
    ensures
        c.deep_view() == (CommandModel { program: program@, args: args.deep_view() }),
{
    Command { program: program.to_owned(), args: strings(args) }
}

// ---------------------------------------------------------------------------
// Results
// ---------------------------------------------------------------------------

/// The error of a program that could not be run.
pub open spec fn not_run(program: Seq<char>, reason: Seq<char>) -> Seq<char> {
    "failed to run "@ + program + ": "@ + reason
}

/// What the end of a program means: `status` says whether it ended with success, or why it could
/// not be run; `failure` is the error for one that failed.
pub open spec fn status_result(
    program: Seq<char>,
    failure: Seq<char>,
    status: Result<bool, Seq<char>>,
) -> Result<(), Seq<char>> {
    match status {
        Ok(true) => Ok(()),
        Ok(false) => Err(failure),
        Err(e) => Err(not_run(program, e)),
    }
}

/// What the end of a program means, if the error for its failure is to show the command line.
pub open spec fn run_result(command: CommandModel, status: Result<bool, Seq<char>>) -> Result<
    (),
    Seq<char>,
> {
    status_result(
        command.program,
        "`"@ + command.program + " "@ + text::join(command.args, " "@) + "` failed"@,
        status,
    )
}

/// The error of a program that could not be run.
pub fn not_run_error(program: &str, reason: &str) -> (s: String)
    ensures
        s@ == not_run(program@, reason@),
{
    let mut s = text::join3("failed to run ", program, ": ");
    s.append(reason);
    s
}

/// What the end of a program means, with `failure` as the error for one that failed.
pub fn check_status(program: &str, failure: &str, status: Result<bool, String>) -> (r: Result<
    (),
    String,
>)
    ensures
        text::outcome(r) == status_result(program@, failure@, text::outcome(status)),
{
    match status {
        Ok(true) => Ok(()),
        Ok(false) => Err(failure.to_owned()),
        Err(e) => Err(not_run_error(program, e.as_str())),
    }
}

/// What the end of `command` means.
pub fn run(command: &Command, status: Result<bool, String>) -> (r: Result<(), String>)
    ensures
        text::outcome(r) == run_result(command.deep_view(), text::outcome(status)),
{
    let line = text::joined(command.args.as_slice(), " ");
    let mut failure = text::join3("`", command.program.as_str(), " ");
    failure.append(line.as_str());
    failure.append("` failed");
    check_status(command.program.as_str(), failure.as_str(), status)
}

/// Whether a program could be run and ended with success.
pub fn succeeded(status: &Result<bool, String>) -> (yes: bool)
    ensures
        yes == (text::outcome(*status) == Ok::<bool, Seq<char>>(true)),
{
    match status {
        Ok(success) => *success,
        Err(_) => false,
    }
}

// ---------------------------------------------------------------------------
// Output as text
// ---------------------------------------------------------------------------

/// What `String::from_utf8_lossy` makes of bytes that are not all UTF-8.
pub uninterp spec fn lossy(bytes: Seq<u8>) -> Seq<char>;

/// How `std::string::FromUtf8Error` words what is wrong with bytes that are not all UTF-8.
pub uninterp spec fn utf8_error(bytes: Seq<u8>) -> Seq<char>;

/// What a program printed, as text: what the bytes encode, or as close to it as can be.
pub open spec fn printed_text(bytes: Seq<u8>) -> Seq<char> {
    if vstd::utf8::valid_utf8(bytes) {
        vstd::utf8::decode_utf8(bytes)
    } else {
        lossy(bytes)
    }
}

/// `String::from_utf8_lossy`: the text that the bytes encode, with replacement characters for
/// what is not UTF-8. Where these stand is left to the name.
#[verifier::external_body]
pub(crate) fn from_utf8_lossy(bytes: &[u8]) -> (s: String)
    ensures
        vstd::utf8::valid_utf8(bytes@) ==> s@ == vstd::utf8::decode_utf8(bytes@),
        !vstd::utf8::valid_utf8(bytes@) ==> s@ == lossy(bytes@),
{
    String::from_utf8_lossy(bytes).into_owned()
}

/// `String::from_utf8`: the text that the bytes encode, or, if they are not UTF-8, what is wrong
/// with them, in words that are left to the name.
#[verifier::external_body]
pub(crate) fn from_utf8(bytes: Vec<u8>) -> (r: Result<String, String>)
    ensures
        match r {
            Ok(s) => vstd::utf8::valid_utf8(bytes@) && s@ == vstd::utf8::decode_utf8(bytes@),
            Err(e) => !vstd::utf8::valid_utf8(bytes@) && e@ == utf8_error(bytes@),
        },
{
    match String::from_utf8(bytes) {
        Ok(s) => Ok(s),
        Err(e) => Err(e.to_string()),
    }
}

// ---------------------------------------------------------------------------
// Laws
// ---------------------------------------------------------------------------

/// A program did its work exactly if it could be run and ended with success. If it could not be
/// run, the error names it and the reason; if it failed, the error is the one for that.
pub proof fn law_only_success_is_success(
    program: Seq<char>,
    failure: Seq<char>,
    status: Result<bool, Seq<char>>,
)
    ensures
        status_result(program, failure, status) is Ok <==> status == Ok::<bool, Seq<char>>(true),
        status == Ok::<bool, Seq<char>>(false) ==> status_result(program, failure, status) == Err::<
            (),
            Seq<char>,
        >(failure),
        status matches Err(e) ==> status_result(program, failure, status) == Err::<(), Seq<char>>(
            "failed to run "@ + program + ": "@ + e,
        ),
{
}

/// The error of a command that failed shows its program and all its arguments.
pub proof fn law_failures_show_the_command(
    command: CommandModel,
    status: Result<bool, Seq<char>>,
)
    ensures
        run_result(command, status) is Ok <==> status == Ok::<bool, Seq<char>>(true),
        status == Ok::<bool, Seq<char>>(false) ==> run_result(command, status) == Err::<
            (),
            Seq<char>,
        >("`"@ + command.program + " "@ + text::join(command.args, " "@) + "` failed"@),
        status matches Err(e) ==> run_result(command, status) == Err::<(), Seq<char>>(
            "failed to run "@ + command.program + ": "@ + e,
        ),
{
}

/// What a program prints in UTF-8 is read as it is, and all else as well as can be.
pub proof fn law_printed_text_is_read(t: Seq<char>, bytes: Seq<u8>)
    ensures
        printed_text(vstd::utf8::encode_utf8(t)) == t,
        !vstd::utf8::valid_utf8(bytes) ==> printed_text(bytes) == lossy(bytes),
{
    vstd::utf8::encode_utf8_valid_utf8(t);
    vstd::utf8::encode_utf8_decode_utf8(t);
}

/// The models show every field.
pub proof fn law_models_show_every_field(c: Command, m: Message)
    ensures
        c.deep_view().program == c.program@,
        c.deep_view().args.len() == c.args@.len(),
        forall|i: int|
            0 <= i < c.args@.len() ==> #[trigger] c.deep_view().args[i] == c.args@[i]@,
        m matches Message::Print(line) ==> m.deep_view() == MessageModel::Print(line@),
        m matches Message::Warn(line) ==> m.deep_view() == MessageModel::Warn(line@),
{
}

} // verus!

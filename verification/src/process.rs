//! One run of an external tool: the command to start, what came of it, and
//! how a failed run is read.

use crate::chars::{chars_contain, contains, str_chars};
use vstd::prelude::*;
use vstd::utf8::{decode_utf8, valid_utf8};

verus! {

/// `std::io::Error`: carried from a run that broke off into the error that
/// reports it; nothing is known of what it holds.
#[verifier::external_type_specification]
#[verifier::external_body]
pub struct ExIoError(std::io::Error);

/// A program and its arguments. The document goes to the program's standard
/// input.
#[derive(Debug, Clone, PartialEq, Eq)]
pub struct Command {
    pub program: String,
    pub args: Vec<String>,
}

impl Command {
    /// The program's name and its arguments, as character sequences.
    pub open spec fn view(&self) -> (Seq<char>, Seq<Seq<char>>) {
        (self.program@, self.args.deep_view())
    }
}

/// Appends the text `arg` to an argument list.
pub fn push_text(args: &mut Vec<String>, arg: &str)
    ensures
        final(args).deep_view() == old(args).deep_view().push(arg@),
{
    args.push(arg.to_string());
    assert(args.deep_view() =~= old(args).deep_view().push(arg@));
}

/// Appends the argument `arg` to an argument list.
pub fn push_string(args: &mut Vec<String>, arg: String)
    ensures
        final(args).deep_view() == old(args).deep_view().push(arg@),
{
    args.push(arg);
    assert(args.deep_view() =~= old(args).deep_view().push(arg@));
}

/// Appends the arguments `more` to an argument list.
pub fn push_all(args: &mut Vec<String>, more: Vec<String>)
    ensures
        final(args).deep_view() == old(args).deep_view() + more.deep_view(),
{
    let ghost added = more.deep_view();
    let mut rest = more;
    args.append(&mut rest);
    assert(args.deep_view() =~= old(args).deep_view() + added);
}

/// What came of one run of a tool. `T` is what a successful run leaves on
/// its standard output.
#[derive(Debug)]
pub enum Outcome<T> {
    /// The tool could not be started.
    SpawnFailed(std::io::Error),
    /// The document could not be written to the tool.
    WriteFailed(std::io::Error),
    /// The tool's output could not be collected.
    WaitFailed(std::io::Error),
    /// The tool ran and reported a failure.
    Failed {
        /// The exit code, where the tool ended with one.
        code: Option<i32>,
        /// What the tool wrote to its standard error.
        stderr: String,
    },
    /// The tool ran and reported success.
    Succeeded(T),
}

/// Why a tool refused a document.
#[derive(Debug, Clone, Copy, PartialEq, Eq, Structural)]
pub enum Failure {
    /// The input is no PDF file.
    NotPdfFile,
    /// The document is encrypted and no password was given.
    PdfEncrypted,
    /// The password given does not open the document.
    IncorrectPassword,
    /// Anything else.
    Other,
}

/// The failure that a tool's error text stands for. `has_password` says
/// whether the tool was given a password.
pub open spec fn failure_of(stderr: Seq<char>, has_password: bool) -> Failure {
    if contains(stderr, "May not be a PDF file"@) {
        Failure::NotPdfFile
    } else if contains(stderr, "Incorrect password"@) {
        if has_password {
            Failure::IncorrectPassword
        } else {
            Failure::PdfEncrypted
        }
    } else {
        Failure::Other
    }
}

/// Reads the error text of a failed run.
pub fn classify_failure(stderr: &str, has_password: bool) -> (r: Failure)
    ensures
        r == failure_of(stderr@, has_password),
{
    let text = str_chars(stderr);
    let not_pdf = str_chars("May not be a PDF file");
    let password = str_chars("Incorrect password");
    if chars_contain(text.as_slice(), not_pdf.as_slice()) {
        Failure::NotPdfFile
    } else if chars_contain(text.as_slice(), password.as_slice()) {
        if has_password {
            Failure::IncorrectPassword
        } else {
            Failure::PdfEncrypted
        }
    } else {
        Failure::Other
    }
}

/// Error text that says that the input may be no PDF file is read as that
/// failure and no other, with or without a password.
pub proof fn lemma_not_pdf_file(stderr: Seq<char>, has_password: bool)
    requires
        contains(stderr, "May not be a PDF file"@),
    ensures
        failure_of(stderr, has_password) == Failure::NotPdfFile,
{
}

/// A failed run is never read both as a missing and as a wrong password:
/// without a password it is never a wrong one, with a password never a
/// missing one, and error text that gives the one without a password gives
/// the other with one.
pub proof fn lemma_password_failures_distinct(stderr: Seq<char>)
    ensures
        failure_of(stderr, false) != Failure::IncorrectPassword,
        failure_of(stderr, true) != Failure::PdfEncrypted,
        failure_of(stderr, false) == Failure::PdfEncrypted <==> failure_of(stderr, true)
            == Failure::IncorrectPassword,
{
}

/// The text that `String::from_utf8_lossy` reads from bytes.
pub uninterp spec fn utf8_lossy(bytes: Seq<u8>) -> Seq<char>;

/// Whether `text` is the reading of `bytes` as UTF-8, with the replacement
/// character in place of what is no valid encoding. Of valid UTF-8 it is
/// the text that the bytes encode.
pub open spec fn reads_as(bytes: Seq<u8>, text: Seq<char>) -> bool {
    &&& text == utf8_lossy(bytes)
    &&& valid_utf8(bytes) ==> text == decode_utf8(bytes)
}

/// `String::from_utf8_lossy`: the text that the bytes encode in UTF-8, with
/// the replacement character in place of what is no valid encoding. The
/// result depends on the bytes alone; of valid UTF-8 it is the text encoded.
#[verifier::external_body]
fn lossy_text(bytes: &[u8]) -> (r: String)
    ensures
        r@ == utf8_lossy(bytes@),
        valid_utf8(bytes@) ==> r@ == decode_utf8(bytes@),
{
    String::from_utf8_lossy(bytes).into_owned()
}

/// The outcome of a run that ended, for a tool that writes text.
pub fn text_outcome(success: bool, code: Option<i32>, stdout: &[u8], stderr: &[u8]) -> (r: Outcome<
    String,
>)
    ensures
        success ==> (r matches Outcome::Succeeded(text) && reads_as(stdout@, text@)),
        !success ==> (r matches Outcome::Failed { code: c, stderr: e } && c == code && reads_as(
            stderr@,
            e@,
        )),
{
    if success {
        Outcome::Succeeded(lossy_text(stdout))
    } else {
        Outcome::Failed { code, stderr: lossy_text(stderr) }
    }
}

/// The outcome of a run that ended, for a tool that writes bytes.
pub fn bytes_outcome(success: bool, code: Option<i32>, stdout: Vec<u8>, stderr: &[u8]) -> (r:
    Outcome<Vec<u8>>)
    ensures
        success ==> r == Outcome::Succeeded(stdout),
        !success ==> (r matches Outcome::Failed { code: c, stderr: e } && c == code && reads_as(
            stderr@,
            e@,
        )),
{
    if success {
        Outcome::Succeeded(stdout)
    } else {
        Outcome::Failed { code, stderr: lossy_text(stderr) }
    }
}

} // verus!

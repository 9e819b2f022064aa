//! The text of a document, as `pdftotext` extracts it.
//!
//! * [text_all_pages] - Gets the text from all pages as a single string
//! * [text_all_pages_split] - Gets the text from all pages as separate strings
//! * [text_pages] - Gets the text from a specific set of pages as separate strings
//! * [text_single_page] - Gets the text from a specific page

use crate::chars::{
    chars_string, contains, join, lemma_join_split, replace, replace_char, split, split_at_char, str_chars,
    views,
};
use crate::decimal::{decimal, u32_decimal};
use crate::info::PdfInfo;
use crate::pages::{find_beyond, first_beyond, lemma_first_beyond};
use crate::process::{
    classify_failure, failure_of, push_all, push_string, push_text, Command, Failure, Outcome,
};
use crate::shared::Password;
use vstd::prelude::*;
use vstd::slice::slice_subrange;

verus! {

/// Character that indicates the end of a page in a PDF file
pub const PAGE_END_CHARACTER: char = '\u{c}';

#[derive(Debug)]
pub enum PdfTextError {
    /// pdftotext could not be started.
    SpawnProcess(std::io::Error),
    /// The document could not be written to pdftotext.
    WritePdf(std::io::Error),
    /// The output of pdftotext could not be collected.
    WaitOutput(std::io::Error),
    /// pdftotext failed; the text is what it wrote to its standard error.
    PdfTextFailure(String),
    /// The page asked for, and the number of pages that the document has.
    PageOutOfBounds(u32, u32),
    /// The page count is missing or no number.
    PageCountUnknown,
    /// The document is encrypted and no password was given.
    PdfEncrypted,
    /// The password given does not open the document.
    IncorrectPassword,
    /// The input is no PDF file.
    NotPdfFile,
}

/// Options of a pdftotext run.
#[derive(Debug, Clone)]
pub struct PdfTextArgs {
    /// Password for the PDF
    pub password: Option<Password>,
}

impl Default for PdfTextArgs {
    fn default() -> (r: Self)
        ensures
            r.password is None,
    {
        PdfTextArgs { password: None }
    }
}

impl PdfTextArgs {
    /// The arguments that the options stand for.
    pub open spec fn flags(&self) -> Seq<Seq<char>> {
        match self.password {
            Some(password) => password.flags(),
            None => Seq::empty(),
        }
    }

    pub fn set_password(self, password: Password) -> (r: Self)
        ensures
            r.password == Some(password),
    {
        PdfTextArgs { password: Some(password) }
    }

    /// Builds an argument list from all the options
    pub fn build_args(&self) -> (r: Vec<String>)
        ensures
            r.deep_view() == self.flags(),
    {
        let mut out: Vec<String> = Vec::new();
        assert(out.deep_view() =~= Seq::<Seq<char>>::empty());
        if let Some(password) = self.password.as_ref() {
            password.push_arg(&mut out);
        }
        assert(out.deep_view() =~= self.flags());
        out
    }
}

/// The arguments of the run that extracts the text of all pages: the
/// document comes from standard input, the text goes to standard output.
pub open spec fn pages_text_flags(args: PdfTextArgs) -> Seq<Seq<char>> {
    seq!["-"@, "-"@] + args.flags()
}

/// The arguments of the run that extracts the text of one page.
pub open spec fn page_text_flags(page: u32, args: PdfTextArgs) -> Seq<Seq<char>> {
    seq!["-"@, "-"@, "-f"@, decimal(page as nat), "-l"@, decimal(page as nat)] + args.flags()
}

/// Whether `command` extracts the text of the page `page`.
pub open spec fn is_page_text_command(command: Command, page: u32, args: PdfTextArgs) -> bool {
    command@ == ("pdftotext"@, page_text_flags(page, args))
}

/// The command that extracts the text of all pages.
pub fn pages_text_command(args: &PdfTextArgs) -> (r: Command)
    ensures
        r@ == ("pdftotext"@, pages_text_flags(*args)),
{
    let mut cli: Vec<String> = Vec::new();
    assert(cli.deep_view() =~= Seq::<Seq<char>>::empty());
    push_text(&mut cli, "-");
    push_text(&mut cli, "-");
    push_all(&mut cli, args.build_args());
    assert(cli.deep_view() =~= pages_text_flags(*args));
    Command { program: "pdftotext".to_string(), args: cli }
}

/// The command that extracts the text of one page. Whether the document has
/// that page is not looked at.
pub fn page_text_command(page: u32, args: &PdfTextArgs) -> (r: Command)
    ensures
        is_page_text_command(r, page, *args),
{
    let mut cli: Vec<String> = Vec::new();
    assert(cli.deep_view() =~= Seq::<Seq<char>>::empty());
    push_text(&mut cli, "-");
    push_text(&mut cli, "-");
    push_text(&mut cli, "-f");
    push_string(&mut cli, u32_decimal(page));
    push_text(&mut cli, "-l");
    push_string(&mut cli, u32_decimal(page));
    push_all(&mut cli, args.build_args());
    assert(cli.deep_view() =~= page_text_flags(page, *args));
    Command { program: "pdftotext".to_string(), args: cli }
}

/// Whether `e` is the error that a failed pdftotext run with the error text
/// `stderr` gives.
pub open spec fn is_text_failure(e: PdfTextError, stderr: Seq<char>, has_password: bool) -> bool {
    match failure_of(stderr, has_password) {
        Failure::NotPdfFile => e is NotPdfFile,
        Failure::PdfEncrypted => e is PdfEncrypted,
        Failure::IncorrectPassword => e is IncorrectPassword,
        Failure::Other => e matches PdfTextError::PdfTextFailure(text) && text@ == stderr,
    }
}

/// Error text that says that the input may be no PDF file gives the error
/// for that, and not the one that holds the error text.
pub proof fn lemma_text_of_no_pdf(e: PdfTextError, stderr: Seq<char>, has_password: bool)
    requires
        is_text_failure(e, stderr, has_password),
        contains(stderr, "May not be a PDF file"@),
    ensures
        e is NotPdfFile,
{
}

/// Whether `e` is the error that a run of pdftotext without success gives.
pub open spec fn is_text_error(e: PdfTextError, outcome: Outcome<String>, has_password: bool) -> bool {
    match outcome {
        Outcome::SpawnFailed(x) => e == PdfTextError::SpawnProcess(x),
        Outcome::WriteFailed(x) => e == PdfTextError::WritePdf(x),
        Outcome::WaitFailed(x) => e == PdfTextError::WaitOutput(x),
        Outcome::Failed { code, stderr } => is_text_failure(e, stderr@, has_password),
        Outcome::Succeeded(_) => false,
    }
}

/// The text that a page's run gives: what pdftotext wrote, without the page
/// end that it closes with.
pub open spec fn strip_page_end(text: Seq<char>) -> Seq<char> {
    if text.len() > 0 && text.last() == PAGE_END_CHARACTER {
        text.drop_last()
    } else {
        text
    }
}

/// The text of all pages from what came of the run of [pages_text_command],
/// as pdftotext wrote it: each page closes with [PAGE_END_CHARACTER].
///
/// ## Arguments
/// * outcome - What came of the run
/// * args - The args that pdftotext was given
pub fn pages_text(outcome: Outcome<String>, args: &PdfTextArgs) -> (r: Result<String, PdfTextError>)
    ensures
        match outcome {
            Outcome::Succeeded(text) => r == Ok::<_, PdfTextError>(text),
            _ => r matches Err(e) && is_text_error(e, outcome, args.password is Some),
        },
{
    match outcome {
        Outcome::SpawnFailed(e) => Err(PdfTextError::SpawnProcess(e)),
        Outcome::WriteFailed(e) => Err(PdfTextError::WritePdf(e)),
        Outcome::WaitFailed(e) => Err(PdfTextError::WaitOutput(e)),
        Outcome::Failed { code, stderr } => Err(
            match classify_failure(stderr.as_str(), args.password.is_some()) {
                Failure::NotPdfFile => PdfTextError::NotPdfFile,
                Failure::PdfEncrypted => PdfTextError::PdfEncrypted,
                Failure::IncorrectPassword => PdfTextError::IncorrectPassword,
                Failure::Other => PdfTextError::PdfTextFailure(stderr),
            },
        ),
        Outcome::Succeeded(text) => Ok(text),
    }
}

/// The text of one page from what came of the run of [page_text_command],
/// without the page end.
///
/// ## Arguments
/// * outcome - What came of the run
/// * args - The args that pdftotext was given
pub fn page_text(outcome: Outcome<String>, args: &PdfTextArgs) -> (r: Result<String, PdfTextError>)
    ensures
        match outcome {
            Outcome::Succeeded(text) => r matches Ok(page) && page@ == strip_page_end(text@),
            _ => r matches Err(e) && is_text_error(e, outcome, args.password is Some),
        },
{
    let text = pages_text(outcome, args)?;
    let chars = str_chars(text.as_str());
    let n = chars.len();
    if n > 0 && chars[n - 1] == PAGE_END_CHARACTER {
        let kept = slice_subrange(chars.as_slice(), 0, n - 1);
        assert(kept@ =~= strip_page_end(text@));
        Ok(chars_string(kept))
    } else {
        Ok(text)
    }
}

/// Extracts the text from all the pages, as a single string, from what came
/// of the run of [pages_text_command]. Replaces the page break characters
/// with a single new line.
///
/// Use [text_all_pages_split] to get a separate string for
/// each page as a list
///
/// ## Arguments
/// * outcome - What came of the run
/// * args - The args that pdftotext was given
pub fn text_all_pages(outcome: Outcome<String>, args: &PdfTextArgs) -> (r: Result<
    String,
    PdfTextError,
>)
    ensures
        match outcome {
            Outcome::Succeeded(text) => r matches Ok(all) && all@ == replace(
                text@,
                PAGE_END_CHARACTER,
                '\n',
            ),
            _ => r matches Err(e) && is_text_error(e, outcome, args.password is Some),
        },
{
    let value = pages_text(outcome, args)?;
    Ok(replace_char(value.as_str(), PAGE_END_CHARACTER, '\n'))
}

/// Extracts the text from all the pages, from what came of the run of
/// [pages_text_command]. Provides a list of strings, split on the
/// [PAGE_END_CHARACTER]: one string per page, and one more for what stands
/// behind the last page end.
///
/// ## Arguments
/// * outcome - What came of the run
/// * args - The args that pdftotext was given
pub fn text_all_pages_split(outcome: Outcome<String>, args: &PdfTextArgs) -> (r: Result<
    Vec<String>,
    PdfTextError,
>)
    ensures
        match outcome {
            Outcome::Succeeded(text) => r matches Ok(pages) && pages.deep_view() == split(
                text@,
                PAGE_END_CHARACTER,
            ),
            _ => r matches Err(e) && is_text_error(e, outcome, args.password is Some),
        },
{
    let value = pages_text(outcome, args)?;
    let chars = str_chars(value.as_str());
    let parts = split_at_char(chars.as_slice(), PAGE_END_CHARACTER);
    let mut out: Vec<String> = Vec::new();
    let mut i: usize = 0;
    while i < parts.len()
        invariant
            0 <= i <= parts.len(),
            out.deep_view() == views(parts@).take(i as int),
        decreases parts.len() - i,
    {
        let ghost before = out.deep_view();
        out.push(chars_string(parts[i]));
        assert(out.deep_view() =~= before.push(parts@[i as int]@));
        assert(views(parts@).take(i + 1) =~= views(parts@).take(i as int).push(parts@[i as int]@));
        i += 1;
    }
    assert(views(parts@).take(i as int) =~= views(parts@));
    Ok(out)
}

/// Whether `r` is the answer to a request for the text of `pages` of a
/// document: the commands for the pages, in the order of the request, or the
/// error for an encrypted document without a password, for a page count that
/// is not known, or for the first page that the document does not have, the
/// first of these that applies.
pub open spec fn is_text_request(
    r: Result<Vec<Command>, PdfTextError>,
    encrypted: bool,
    count: Option<u32>,
    pages: Seq<u32>,
    args: PdfTextArgs,
) -> bool {
    if encrypted && args.password is None {
        r matches Err(PdfTextError::PdfEncrypted)
    } else {
        match count {
            None => r matches Err(PdfTextError::PageCountUnknown),
            Some(count) => match first_beyond(pages, count) {
                Some(page) => r == Err::<Vec<Command>, _>(
                    PdfTextError::PageOutOfBounds(page, count),
                ),
                None => r matches Ok(commands) && commands@.len() == pages.len() && forall|i: int|
                    0 <= i < pages.len() ==> is_page_text_command(
                        #[trigger] commands@[i],
                        pages[i],
                        args,
                    ),
            },
        }
    }
}

/// Checks a request for the text of some pages: the commands to run, one
/// for each page in the order of the request, each to be read by
/// [page_text]. No command is given where the document is encrypted and no
/// password is given, nor where a page is out of bounds.
///
/// ## Arguments
/// * info - The PDF info to use for the page count and encryption state
/// * pages - The page numbers to get text from
/// * args - Optional args for the pdf to text
pub fn text_pages(info: &PdfInfo, pages: Vec<u32>, args: &PdfTextArgs) -> (r: Result<
    Vec<Command>,
    PdfTextError,
>)
    ensures
        is_text_request(r, info.is_encrypted(), info.page_count(), pages@, *args),
{
    // Check encryption
    if info.encrypted().unwrap_or(false) && args.password.is_none() {
        return Err(PdfTextError::PdfEncrypted);
    }
    // Get the page count
    let page_count = match info.pages() {
        Some(Ok(count)) => count,
        _ => {
            return Err(PdfTextError::PageCountUnknown);
        },
    };
    // Validate requested pages
    if let Some(page) = find_beyond(pages.as_slice(), page_count) {
        return Err(PdfTextError::PageOutOfBounds(page, page_count));
    }
    let mut commands: Vec<Command> = Vec::new();
    let mut i: usize = 0;
    while i < pages.len()
        invariant
            0 <= i <= pages.len(),
            commands@.len() == i,
            forall|k: int|
                0 <= k < i ==> is_page_text_command(#[trigger] commands@[k], pages@[k], *args),
        decreases pages.len() - i,
    {
        commands.push(page_text_command(pages[i], args));
        i += 1;
    }
    Ok(commands)
}

/// Checks a request for the text of one page: the command to run, to be
/// read by [page_text]. No command is given where the document is encrypted
/// and no password is given, nor where the page is out of bounds.
///
/// ## Arguments
/// * info - The PDF info to use for the page count and encryption state
/// * page - The page number to get text from
/// * args - Optional args for the pdf to text
pub fn text_single_page(info: &PdfInfo, page: u32, args: &PdfTextArgs) -> (r: Result<
    Command,
    PdfTextError,
>)
    ensures
        if info.is_encrypted() && args.password is None {
            r matches Err(PdfTextError::PdfEncrypted)
        } else {
            match info.page_count() {
                None => r matches Err(PdfTextError::PageCountUnknown),
                Some(count) => if page > count {
                    r == Err::<Command, _>(PdfTextError::PageOutOfBounds(page, count))
                } else {
                    r matches Ok(command) && is_page_text_command(command, page, *args)
                },
            }
        },
{
    // Check encryption
    if info.encrypted().unwrap_or(false) && args.password.is_none() {
        return Err(PdfTextError::PdfEncrypted);
    }
    // Get the page count
    let page_count = match info.pages() {
        Some(Ok(count)) => count,
        _ => {
            return Err(PdfTextError::PageCountUnknown);
        },
    };
    // Validate chosen page
    if page > page_count {
        return Err(PdfTextError::PageOutOfBounds(page, page_count));
    }
    Ok(page_text_command(page, args))
}

/// A request that names a page beyond the document's last page fails,
/// unless the document is encrypted and no password is given, which is
/// reported first. The error holds a page of the request that is beyond the
/// last page, namely the first such page, and the document's page count.
pub proof fn lemma_text_page_out_of_bounds(
    r: Result<Vec<Command>, PdfTextError>,
    encrypted: bool,
    count: u32,
    pages: Seq<u32>,
    args: PdfTextArgs,
    i: int,
)
    requires
        is_text_request(r, encrypted, Some(count), pages, args),
        !encrypted || args.password is Some,
        0 <= i < pages.len(),
        pages[i] > count,
    ensures
        r matches Err(PdfTextError::PageOutOfBounds(page, total)) && total == count && page
            > count && pages.contains(page) && first_beyond(pages, count) == Some(page),
{
    lemma_first_beyond(pages, count);
}

/// A request for the text of pages of an encrypted document without a
/// password fails, and gives no command to run.
pub proof fn lemma_text_encrypted_without_password(
    r: Result<Vec<Command>, PdfTextError>,
    count: Option<u32>,
    pages: Seq<u32>,
    args: PdfTextArgs,
)
    requires
        is_text_request(r, true, count, pages, args),
        args.password is None,
    ensures
        r matches Err(PdfTextError::PdfEncrypted),
{
}

/// The text of all pages as one string is what the texts of the single
/// pages give that the split form holds, joined by line feeds.
pub proof fn lemma_all_pages_joined(text: Seq<char>)
    ensures
        join(split(text, PAGE_END_CHARACTER), '\n') == replace(text, PAGE_END_CHARACTER, '\n'),
{
    lemma_join_split(text, PAGE_END_CHARACTER, '\n');
}

} // verus!

//! What `pdfinfo` says about a document.

use crate::chars::{
    chars_eq, contains, is_whitespace, lemma_lines_first, lines, lines_of, split_once, split_once_char, split_whitespace, starts_with,
    str_chars, str_eq, str_starts_with, words_of,
};
use crate::decimal::{parse_u32, parsed_u32};
use crate::fields::{entry, fields_of, lemma_entry_of_line, lemma_fields_of_last, Fields};
use crate::process::{
    classify_failure, failure_of, push_all, push_text, Command, Failure, Outcome,
};
use crate::shared::Password;
use vstd::prelude::*;
use vstd::slice::slice_subrange;

verus! {

/// Whether a value is the word `yes`.
pub open spec fn is_yes(value: Seq<char>) -> bool {
    value == "yes"@
}

/// Reads a yes-or-no value: only `yes` is true.
pub fn parse_bool(value: &str) -> (r: bool)
    ensures
        r == is_yes(value@),
{
    str_eq(value, "yes")
}

/// The view of an optional string slice.
pub open spec fn text_of(value: Option<&str>) -> Option<Seq<char>> {
    match value {
        Some(v) => Some(v@),
        None => None,
    }
}

/// The yes-or-no reading of an optional value.
pub open spec fn flag_of(value: Option<Seq<char>>) -> Option<bool> {
    match value {
        Some(v) => Some(is_yes(v)),
        None => None,
    }
}

/// Whether the options permit what `name` stands for: they do unless they
/// give `name` a value other than `yes`.
pub open spec fn permits(options: Map<Seq<char>, Seq<char>>, name: Seq<char>) -> bool {
    options.contains_key(name) ==> is_yes(options[name])
}

/// How a document is encrypted, and what its encryption permits. A document
/// may be encrypted and still readable.
#[derive(Debug)]
pub struct PdfInfoEncryption {
    /// Whether encryption is enabled
    encrypted: bool,
    /// Encryption options that are set
    options: Fields,
}

impl PdfInfoEncryption {
    /// Whether encryption is enabled.
    pub closed spec fn enabled(&self) -> bool {
        self.encrypted
    }

    /// The encryption options by name.
    pub closed spec fn options(&self) -> Map<Seq<char>, Seq<char>> {
        self.options@
    }

    pub fn is_encrypted(&self) -> (r: bool)
        ensures
            r == self.enabled(),
    {
        self.encrypted
    }

    fn allows(&self, name: &str) -> (r: bool)
        ensures
            r == permits(self.options(), name@),
    {
        match self.options.get(name) {
            Some(value) => parse_bool(value),
            None => true,
        }
    }

    pub fn is_print_allowed(&self) -> (r: bool)
        ensures
            r == permits(self.options(), "print"@),
    {
        self.allows("print")
    }

    pub fn is_copy_allowed(&self) -> (r: bool)
        ensures
            r == permits(self.options(), "copy"@),
    {
        self.allows("copy")
    }

    pub fn is_change_allowed(&self) -> (r: bool)
        ensures
            r == permits(self.options(), "change"@),
    {
        self.allows("change")
    }

    pub fn is_add_notes_allowed(&self) -> (r: bool)
        ensures
            r == permits(self.options(), "addNotes"@),
    {
        self.allows("addNotes")
    }

    pub fn algorithm(&self) -> (r: Option<&str>)
        ensures
            text_of(r) == (if self.options().contains_key("algorithm"@) {
                Some(self.options()["algorithm"@])
            } else {
                None
            }),
    {
        self.options.get("algorithm")
    }
}

/// What an encryption line says: whether encryption is enabled, and the
/// options. The line is a word, a space, and the options in round brackets,
/// separated by white space, each a name, a colon and a value. `None` where
/// the line has another shape.
pub open spec fn encryption_of(line: Seq<char>) -> Option<(bool, Map<Seq<char>, Seq<char>>)> {
    match split_once(line, ' ') {
        Some((flag, rest)) => {
            if rest.len() >= 2 && rest.first() == '(' && rest.last() == ')' {
                Some(
                    (
                        is_yes(flag),
                        fields_of(split_whitespace(rest.subrange(1, rest.len() - 1))),
                    ),
                )
            } else {
                None
            }
        },
        None => None,
    }
}

/// Parses the encryption line of the pdfinfo response.
pub fn parse_pdf_info_encryption(output: &str) -> (r: Result<PdfInfoEncryption, PdfInfoError>)
    ensures
        match encryption_of(output@) {
            Some((enabled, options)) => r matches Ok(e) && e.enabled() == enabled && e.options()
                == options,
            None => r matches Err(PdfInfoError::MalformedEncryptionOptions),
        },
{
    let chars = str_chars(output);
    let (flag, rest) = match split_once_char(chars.as_slice(), ' ') {
        Some(parts) => parts,
        None => {
            return Err(PdfInfoError::MalformedEncryptionOptions);
        },
    };
    if rest.len() < 2 || rest[0] != '(' || rest[rest.len() - 1] != ')' {
        return Err(PdfInfoError::MalformedEncryptionOptions);
    }
    let yes = str_chars("yes");
    let encrypted = chars_eq(flag, yes.as_slice());
    let inner = slice_subrange(rest, 1, rest.len() - 1);
    let words = words_of(inner);
    let options = Fields::from_parts(&words);
    Ok(PdfInfoEncryption { encrypted, options })
}

#[derive(Debug)]
pub enum PdfInfoError {
    /// pdfinfo could not be started.
    SpawnProcess(std::io::Error),
    /// The document could not be written to pdfinfo.
    WritePdf(std::io::Error),
    /// The output of pdfinfo could not be collected.
    WaitOutput(std::io::Error),
    /// The page count is no number.
    InvalidPageCount(std::num::ParseIntError),
    /// pdfinfo failed; the text is what it wrote to its standard error.
    PdfInfoFailure(String),
    /// The document is encrypted and no password was given.
    PdfEncrypted,
    /// The password given does not open the document.
    IncorrectPassword,
    /// The input is no PDF file.
    NotPdfFile,
    /// The encryption line has not the expected shape.
    MalformedEncryptionOptions,
}

/// The fields that the text of pdfinfo gives, by name: each line gives the
/// field named before its first colon.
pub open spec fn info_fields(output: Seq<char>) -> Map<Seq<char>, Seq<char>> {
    fields_of(lines(output))
}

/// One line of the text of pdfinfo: a name, a colon, white space that
/// aligns the values, and a value.
pub open spec fn info_line(line: (Seq<char>, Seq<char>, Seq<char>)) -> Seq<char> {
    line.0 + seq![':'] + line.1 + line.2
}

/// Whether a name, the white space behind its colon and a value make up a
/// line that can be read back: the name holds no colon, none of them holds a
/// line feed, the value does not begin with white space, and the line does
/// not end with a carriage return.
pub open spec fn is_info_line(line: (Seq<char>, Seq<char>, Seq<char>)) -> bool {
    &&& !line.0.contains(':')
    &&& !line.0.contains('\n')
    &&& forall|i: int|
        0 <= i < line.1.len() ==> is_whitespace(#[trigger] line.1[i]) && line.1[i] != '\n'
    &&& !line.2.contains('\n')
    &&& line.2.len() > 0 ==> !is_whitespace(line.2[0])
    &&& info_line(line).last() != '\r'
}

/// The text that holds the given lines, each closed by a line feed.
pub open spec fn info_text(lines: Seq<(Seq<char>, Seq<char>, Seq<char>)>) -> Seq<char>
    decreases lines.len(),
{
    if lines.len() == 0 {
        Seq::empty()
    } else {
        info_line(lines[0]) + seq!['\n'] + info_text(lines.skip(1))
    }
}

/// The text of lines that can be read back has these lines as its lines.
pub proof fn lemma_lines_of_info_text(given: Seq<(Seq<char>, Seq<char>, Seq<char>)>)
    requires
        forall|i: int| 0 <= i < given.len() ==> is_info_line(#[trigger] given[i]),
    ensures
        lines(info_text(given)) == given.map_values(
            |line: (Seq<char>, Seq<char>, Seq<char>)| info_line(line),
        ),
    decreases given.len(),
{
    let expected = given.map_values(|line: (Seq<char>, Seq<char>, Seq<char>)| info_line(line));
    if given.len() == 0 {
        assert(lines(info_text(given)) =~= expected);
    } else {
        let first = info_line(given[0]);
        let rest = given.skip(1);
        assert(is_info_line(given[0]));
        assert forall|i: int| 0 <= i < rest.len() implies is_info_line(#[trigger] rest[i]) by {
            assert(rest[i] == given[i + 1]);
        }
        lemma_lines_of_info_text(rest);
        assert(!first.contains('\n')) by {
            if first.contains('\n') {
                let k = choose|k: int| 0 <= k < first.len() && first[k] == '\n';
                let (name, pad, value) = given[0];
                if k < name.len() {
                    assert(name[k] == '\n');
                } else if k == name.len() {
                } else if k < name.len() + 1 + pad.len() {
                    assert(pad[k - name.len() - 1] == '\n');
                } else {
                    assert(value[k - name.len() - 1 - pad.len()] == '\n');
                }
            }
        }
        lemma_lines_first(first, info_text(rest));
        assert(lines(info_text(given)) =~= expected);
    }
}

/// Text that is written line by line is read back field by field: a name
/// has the value of the last line that gives it.
pub proof fn lemma_info_round_trip(given: Seq<(Seq<char>, Seq<char>, Seq<char>)>, i: int)
    requires
        forall|k: int| 0 <= k < given.len() ==> is_info_line(#[trigger] given[k]),
        0 <= i < given.len(),
        forall|k: int| i < k < given.len() ==> (#[trigger] given[k]).0 != given[i].0,
    ensures
        info_fields(info_text(given)).contains_key(given[i].0),
        info_fields(info_text(given))[given[i].0] == given[i].2,
{
    lemma_lines_of_info_text(given);
    let parts = lines(info_text(given));
    assert forall|k: int| 0 <= k < given.len() implies entry(#[trigger] parts[k]) == Some(
        (given[k].0, given[k].2),
    ) by {
        assert(is_info_line(given[k]));
        lemma_entry_of_line(given[k].0, given[k].1, given[k].2);
    }
    lemma_fields_of_last(parts, i, given[i].0, given[i].2);
}

/// What pdfinfo says about a document.
#[derive(Debug)]
pub struct PdfInfo {
    /// Data parsed from the pdfinfo cli
    data: Fields,
}

impl PdfInfo {
    /// The fields by name.
    pub closed spec fn view(&self) -> Map<Seq<char>, Seq<char>> {
        self.data@
    }

    /// The value of the field `name`, if there is one.
    pub open spec fn field(&self, name: Seq<char>) -> Option<Seq<char>> {
        if self@.contains_key(name) {
            Some(self@[name])
        } else {
            None
        }
    }

    /// The page count, where the field `Pages` holds a number.
    pub open spec fn page_count(&self) -> Option<u32> {
        match self.field("Pages"@) {
            Some(v) => parsed_u32(v),
            None => None,
        }
    }

    /// Whether the document is encrypted: the field `Encrypted` is there and
    /// begins with `yes`.
    pub open spec fn is_encrypted(&self) -> bool {
        match self.field("Encrypted"@) {
            Some(v) => starts_with(v, "yes"@),
            None => false,
        }
    }

    /// Looks a field up by name.
    pub fn data(&self, key: &str) -> (r: Option<&str>)
        ensures
            text_of(r) == self.field(key@),
    {
        self.data.get(key)
    }

    fn flag(&self, key: &str) -> (r: Option<bool>)
        ensures
            r == flag_of(self.field(key@)),
    {
        match self.data.get(key) {
            Some(value) => Some(parse_bool(value)),
            None => None,
        }
    }

    pub fn pages(&self) -> (r: Option<Result<u32, std::num::ParseIntError>>)
        ensures
            r is Some <==> self.field("Pages"@) is Some,
            r matches Some(Ok(n)) ==> self.page_count() == Some(n),
            r matches Some(Err(_)) ==> self.page_count() is None,
    {
        match self.data.get("Pages") {
            Some(value) => Some(parse_u32(value)),
            None => None,
        }
    }

    pub fn title(&self) -> (r: Option<&str>)
        ensures
            text_of(r) == self.field("Title"@),
    {
        self.data("Title")
    }

    pub fn subject(&self) -> (r: Option<&str>)
        ensures
            text_of(r) == self.field("Subject"@),
    {
        self.data("Subject")
    }

    pub fn keywords(&self) -> (r: Option<&str>)
        ensures
            text_of(r) == self.field("Keywords"@),
    {
        self.data("Keywords")
    }

    pub fn creator(&self) -> (r: Option<&str>)
        ensures
            text_of(r) == self.field("Creator"@),
    {
        self.data("Creator")
    }

    pub fn producer(&self) -> (r: Option<&str>)
        ensures
            text_of(r) == self.field("Producer"@),
    {
        self.data("Producer")
    }

    pub fn creation_date(&self) -> (r: Option<&str>)
        ensures
            text_of(r) == self.field("CreationDate"@),
    {
        self.data("CreationDate")
    }

    pub fn mod_date(&self) -> (r: Option<&str>)
        ensures
            text_of(r) == self.field("ModDate"@),
    {
        self.data("ModDate")
    }

    pub fn author(&self) -> (r: Option<&str>)
        ensures
            text_of(r) == self.field("Author"@),
    {
        self.data("Author")
    }

    pub fn custom_metadata(&self) -> (r: Option<bool>)
        ensures
            r == flag_of(self.field("Custom Metadata"@)),
    {
        self.flag("Custom Metadata")
    }

    pub fn metadata_stream(&self) -> (r: Option<bool>)
        ensures
            r == flag_of(self.field("Metadata Stream"@)),
    {
        self.flag("Metadata Stream")
    }

    pub fn tagged(&self) -> (r: Option<bool>)
        ensures
            r == flag_of(self.field("Tagged"@)),
    {
        self.flag("Tagged")
    }

    pub fn user_properties(&self) -> (r: Option<bool>)
        ensures
            r == flag_of(self.field("UserProperties"@)),
    {
        self.flag("UserProperties")
    }

    pub fn suspects(&self) -> (r: Option<bool>)
        ensures
            r == flag_of(self.field("Suspects"@)),
    {
        self.flag("Suspects")
    }

    pub fn form(&self) -> (r: Option<&str>)
        ensures
            text_of(r) == self.field("Form"@),
    {
        self.data("Form")
    }

    pub fn page_size(&self) -> (r: Option<&str>)
        ensures
            text_of(r) == self.field("Page size"@),
    {
        self.data("Page size")
    }

    pub fn javascript(&self) -> (r: Option<bool>)
        ensures
            r == flag_of(self.field("JavaScript"@)),
    {
        self.flag("JavaScript")
    }

    /// Whether the document is encrypted, where pdfinfo says so: the value
    /// begins with `yes`.
    pub fn encrypted(&self) -> (r: Option<bool>)
        ensures
            r == (match self.field("Encrypted"@) {
                Some(v) => Some(starts_with(v, "yes"@)),
                None => None,
            }),
            r.unwrap_or(false) == self.is_encrypted(),
    {
        match self.data.get("Encrypted") {
            Some(value) => Some(str_starts_with(value, "yes")),
            None => None,
        }
    }

    pub fn encryption_raw(&self) -> (r: Option<&str>)
        ensures
            text_of(r) == self.field("Encrypted"@),
    {
        self.data("Encrypted")
    }

    /// Obtains the encryption details from the file
    pub fn encryption(&self) -> (r: Option<Result<PdfInfoEncryption, PdfInfoError>>)
        ensures
            match self.field("Encrypted"@) {
                Some(line) => match encryption_of(line) {
                    Some((enabled, options)) => r matches Some(Ok(e)) && e.enabled() == enabled
                        && e.options() == options,
                    None => r matches Some(Err(PdfInfoError::MalformedEncryptionOptions)),
                },
                None => r is None,
            },
    {
        match self.data.get("Encrypted") {
            Some(value) => Some(parse_pdf_info_encryption(value)),
            None => None,
        }
    }

    pub fn page_rot(&self) -> (r: Option<&str>)
        ensures
            text_of(r) == self.field("Page rot"@),
    {
        self.data("Page rot")
    }

    pub fn file_size(&self) -> (r: Option<&str>)
        ensures
            text_of(r) == self.field("File size"@),
    {
        self.data("File size")
    }

    pub fn optimized(&self) -> (r: Option<bool>)
        ensures
            r == flag_of(self.field("Optimized"@)),
    {
        self.flag("Optimized")
    }

    pub fn pdf_version(&self) -> (r: Option<&str>)
        ensures
            text_of(r) == self.field("PDF version"@),
    {
        self.data("PDF version")
    }
}

/// Parses the fields from the pdfinfo response
pub fn parse_pdf_info(output: &str) -> (r: Result<PdfInfo, PdfInfoError>)
    ensures
        r matches Ok(info) && info@ == info_fields(output@),
{
    let chars = str_chars(output);
    let parts = lines_of(chars.as_slice());
    Ok(PdfInfo { data: Fields::from_parts(&parts) })
}

/// Options of a pdfinfo run.
#[derive(Debug, Clone)]
pub struct PdfInfoArgs {
    /// Password for the PDF
    pub password: Option<Password>,
}

impl Default for PdfInfoArgs {
    fn default() -> (r: Self)
        ensures
            r.password is None,
    {
        PdfInfoArgs { password: None }
    }
}

impl PdfInfoArgs {
    /// The arguments that the options stand for.
    pub open spec fn flags(&self) -> Seq<Seq<char>> {
        match self.password {
            Some(password) => password.flags(),
            None => Seq::empty(),
        }
    }

    pub fn set_password(self, password: Password) -> (r: Self)
        ensures
            r.password == Some(password),
    {
        PdfInfoArgs { password: Some(password) }
    }

    /// Builds an argument list from all the options
    pub fn build_args(&self) -> (r: Vec<String>)
        ensures
            r.deep_view() == self.flags(),
    {
        let mut out: Vec<String> = Vec::new();
        assert(out.deep_view() =~= Seq::<Seq<char>>::empty());
        if let Some(password) = self.password.as_ref() {
            password.push_arg(&mut out);
        }
        assert(out.deep_view() =~= self.flags());
        out
    }
}

/// The command that asks pdfinfo about the document on its standard input.
pub fn pdf_info_command(args: &PdfInfoArgs) -> (r: Command)
    ensures
        r.program@ == "pdfinfo"@,
        r.args.deep_view() == seq!["-"@] + args.flags(),
{
    let mut cli: Vec<String> = Vec::new();
    assert(cli.deep_view() =~= Seq::<Seq<char>>::empty());
    push_text(&mut cli, "-");
    push_all(&mut cli, args.build_args());
    assert(cli.deep_view() =~= seq!["-"@] + args.flags());
    Command { program: "pdfinfo".to_string(), args: cli }
}

/// Whether `e` is the error that a failed pdfinfo run with the error text
/// `stderr` gives.
pub open spec fn is_info_failure(e: PdfInfoError, stderr: Seq<char>, has_password: bool) -> bool {
    match failure_of(stderr, has_password) {
        Failure::NotPdfFile => e is NotPdfFile,
        Failure::PdfEncrypted => e is PdfEncrypted,
        Failure::IncorrectPassword => e is IncorrectPassword,
        Failure::Other => e matches PdfInfoError::PdfInfoFailure(text) && text@ == stderr,
    }
}

/// Error text that says that the input may be no PDF file gives the error
/// for that, and not the one that holds the error text.
pub proof fn lemma_info_of_no_pdf(e: PdfInfoError, stderr: Seq<char>, has_password: bool)
    requires
        is_info_failure(e, stderr, has_password),
        contains(stderr, "May not be a PDF file"@),
    ensures
        e is NotPdfFile,
{
}

/// Extracts information about a document from what came of the run of
/// pdfinfo on it.
///
/// ## Arguments
/// * outcome - What came of the run
/// * args - The args that pdfinfo was given
pub fn pdf_info(outcome: Outcome<String>, args: &PdfInfoArgs) -> (r: Result<PdfInfo, PdfInfoError>)
    ensures
        match outcome {
            Outcome::SpawnFailed(e) => r == Err::<PdfInfo, _>(PdfInfoError::SpawnProcess(e)),
            Outcome::WriteFailed(e) => r == Err::<PdfInfo, _>(PdfInfoError::WritePdf(e)),
            Outcome::WaitFailed(e) => r == Err::<PdfInfo, _>(PdfInfoError::WaitOutput(e)),
            Outcome::Failed { code, stderr } => r matches Err(e) && is_info_failure(
                e,
                stderr@,
                args.password is Some,
            ),
            Outcome::Succeeded(text) => r matches Ok(info) && info@ == info_fields(text@),
        },
{
    match outcome {
        Outcome::SpawnFailed(e) => Err(PdfInfoError::SpawnProcess(e)),
        Outcome::WriteFailed(e) => Err(PdfInfoError::WritePdf(e)),
        Outcome::WaitFailed(e) => Err(PdfInfoError::WaitOutput(e)),
        Outcome::Failed { code, stderr } => Err(
            match classify_failure(stderr.as_str(), args.password.is_some()) {
                Failure::NotPdfFile => PdfInfoError::NotPdfFile,
                Failure::PdfEncrypted => PdfInfoError::PdfEncrypted,
                Failure::IncorrectPassword => PdfInfoError::IncorrectPassword,
                Failure::Other => PdfInfoError::PdfInfoFailure(stderr),
            },
        ),
        Outcome::Succeeded(text) => parse_pdf_info(text.as_str()),
    }
}

} // verus!

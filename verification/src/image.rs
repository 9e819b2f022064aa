//! Pages of a document as images, as `pdftocairo` renders them.
//!
//! * [render_all_pages] - Renders all pages in the PDF file
//! * [render_pages] - Renders a specific set of pages
//! * [render_single_page] - Renders a specific page

use crate::chars::contains;
use crate::decimal::{decimal, i32_decimal, signed_decimal, u32_decimal};
use crate::info::PdfInfo;
use crate::pages::{
    all_pages, find_beyond, first_beyond, lemma_all_pages, lemma_first_beyond, pages_up_to,
};
use crate::process::{
    classify_failure, failure_of, push_all, push_string, push_text, Command, Failure, Outcome,
};
use crate::shared::Password;
use vstd::prelude::*;

verus! {

/// `image::DynamicImage`: a decoded image; nothing is known of what it
/// holds.
#[verifier::external_type_specification]
#[verifier::external_body]
pub struct ExDynamicImage(::image::DynamicImage);

/// `image::ImageError`: why bytes could not be decoded; nothing is known of
/// what it holds.
#[verifier::external_type_specification]
#[verifier::external_body]
pub struct ExImageError(::image::ImageError);

/// `image::ImageFormat`: the formats that the decoder knows by name, an
/// enumeration without fields. Its variants are known, so that
/// [OutputFormat::image_format] can be held to the variant it names.
#[verifier::external_type_specification]
pub struct ExImageFormat(::image::ImageFormat);

/// Color to use as the background of pages
#[derive(Debug, Clone, Copy, PartialEq, Eq, Structural)]
pub enum PageColor {
    White,
    /// Only supported on PNG/TIFF [OutputFormat]s
    Transparent,
}

impl Default for PageColor {
    fn default() -> (r: Self)
        ensures
            r == PageColor::White,
    {
        PageColor::White
    }
}

impl PageColor {
    /// The arguments that ask for this background.
    pub open spec fn flags(&self) -> Seq<Seq<char>> {
        match self {
            PageColor::White => Seq::empty(),
            PageColor::Transparent => seq!["-transp"@],
        }
    }

    pub fn push_arg(&self, args: &mut Vec<String>)
        ensures
            final(args).deep_view() == old(args).deep_view() + self.flags(),
    {
        match self {
            PageColor::White => {},
            PageColor::Transparent => push_text(args, "-transp"),
        }
        assert(args.deep_view() =~= old(args).deep_view() + self.flags());
    }
}

#[derive(Debug, Clone, Copy, PartialEq, Eq, Structural)]
pub enum Antialias {
    /// Use the default antialiasing for the target device.
    Default,
    /// Antialiasing is disabled.
    Off,
    /// Perform single-color antialiasing using shades of gray.
    Gray,
    /// Perform antialiasing by taking advantage of the order of subpixel
    /// elements on devices such as LCD.
    Subpixel,
    /// Hint that the backend should perform some antialiasing but prefer speed over quality.
    Fast,
    /// The backend should balance quality against performance.
    Good,
    /// Hint that the backend should render at the highest quality, sacrificing speed if necessary.
    Best,
}

impl Default for Antialias {
    fn default() -> (r: Self)
        ensures
            r == Antialias::Default,
    {
        Antialias::Default
    }
}

impl Antialias {
    /// The name by which pdftocairo knows this kind of antialiasing.
    pub open spec fn name(&self) -> Seq<char> {
        match self {
            Antialias::Default => "default"@,
            Antialias::Off => "none"@,
            Antialias::Gray => "gray"@,
            Antialias::Subpixel => "subpixel"@,
            Antialias::Fast => "fast"@,
            Antialias::Good => "good"@,
            Antialias::Best => "best"@,
        }
    }

    /// The arguments that ask for this kind of antialiasing.
    pub open spec fn flags(&self) -> Seq<Seq<char>> {
        seq!["-anti"@, self.name()]
    }

    pub fn push_arg(&self, args: &mut Vec<String>)
        ensures
            final(args).deep_view() == old(args).deep_view() + self.flags(),
    {
        push_text(args, "-anti");
        match self {
            Antialias::Default => push_text(args, "default"),
            Antialias::Off => push_text(args, "none"),
            Antialias::Gray => push_text(args, "gray"),
            Antialias::Subpixel => push_text(args, "subpixel"),
            Antialias::Fast => push_text(args, "fast"),
            Antialias::Good => push_text(args, "good"),
            Antialias::Best => push_text(args, "best"),
        };
        assert(args.deep_view() =~= old(args).deep_view() + self.flags());
    }
}

#[derive(Debug, Clone, Copy, PartialEq, Eq, Structural)]
pub enum RenderColor {
    Color,
    Monochrome,
    Grayscale,
}

impl Default for RenderColor {
    fn default() -> (r: Self)
        ensures
            r == RenderColor::Color,
    {
        RenderColor::Color
    }
}

impl RenderColor {
    /// The arguments that ask for these colors.
    pub open spec fn flags(&self) -> Seq<Seq<char>> {
        match self {
            RenderColor::Color => Seq::empty(),
            RenderColor::Monochrome => seq!["-mono"@],
            RenderColor::Grayscale => seq!["-gray"@],
        }
    }

    pub fn push_arg(&self, args: &mut Vec<String>)
        ensures
            final(args).deep_view() == old(args).deep_view() + self.flags(),
    {
        match self {
            RenderColor::Color => {},
            RenderColor::Monochrome => push_text(args, "-mono"),
            RenderColor::Grayscale => push_text(args, "-gray"),
        };
        assert(args.deep_view() =~= old(args).deep_view() + self.flags());
    }
}

#[derive(Debug, Clone, Copy, PartialEq, Eq, Structural)]
pub enum RenderArea {
    MediaBox,
    CropBox,
}

impl Default for RenderArea {
    fn default() -> (r: Self)
        ensures
            r == RenderArea::MediaBox,
    {
        RenderArea::MediaBox
    }
}

impl RenderArea {
    /// The arguments that ask for this area.
    pub open spec fn flags(&self) -> Seq<Seq<char>> {
        match self {
            RenderArea::MediaBox => Seq::empty(),
            RenderArea::CropBox => seq!["-cropbox"@],
        }
    }

    pub fn push_arg(&self, args: &mut Vec<String>)
        ensures
            final(args).deep_view() == old(args).deep_view() + self.flags(),
    {
        match self {
            RenderArea::MediaBox => {},
            RenderArea::CropBox => push_text(args, "-cropbox"),
        }
        assert(args.deep_view() =~= old(args).deep_view() + self.flags());
    }
}

/// The part of a page to render, in pixels.
#[derive(Debug, Clone, Copy)]
pub struct Crop {
    x: u32,
    y: u32,
    width: u32,
    height: u32,
}

impl Crop {
    /// The corner `(x, y)`, the width and the height.
    pub closed spec fn view(&self) -> (u32, u32, u32, u32) {
        (self.x, self.y, self.width, self.height)
    }

    /// The arguments that ask for this part.
    pub open spec fn flags(&self) -> Seq<Seq<char>> {
        seq![
            "-x"@,
            decimal(self@.0 as nat),
            "-y"@,
            decimal(self@.1 as nat),
            "-W"@,
            decimal(self@.2 as nat),
            "-H"@,
            decimal(self@.3 as nat),
        ]
    }

    pub fn new(x: u32, y: u32, width: u32, height: u32) -> (r: Self)
        ensures
            r@ == (x, y, width, height),
    {
        Self { x, y, width, height }
    }

    pub fn uniform(x: u32, y: u32, size: u32) -> (r: Self)
        ensures
            r@ == (x, y, size, size),
    {
        Self::new(x, y, size, size)
    }

    pub fn push_arg(&self, args: &mut Vec<String>)
        ensures
            final(args).deep_view() == old(args).deep_view() + self.flags(),
    {
        push_text(args, "-x");
        push_string(args, u32_decimal(self.x));
        push_text(args, "-y");
        push_string(args, u32_decimal(self.y));
        push_text(args, "-W");
        push_string(args, u32_decimal(self.width));
        push_text(args, "-H");
        push_string(args, u32_decimal(self.height));
        assert(args.deep_view() =~= old(args).deep_view() + self.flags());
    }
}

/// Scales the output image to fit inside the provided size
#[derive(Debug, Clone, Copy)]
pub struct ScaleTo {
    /// The X bounds to scale to fit within
    x: i32,
    /// The Y bounds to scale to fit within
    y: i32,
}

impl Default for ScaleTo {
    fn default() -> (r: Self)
        ensures
            r@ == (ScaleTo::MAINTAIN_ASPECT_RATIO, ScaleTo::MAINTAIN_ASPECT_RATIO),
    {
        Self::new(Self::MAINTAIN_ASPECT_RATIO, Self::MAINTAIN_ASPECT_RATIO)
    }
}

impl ScaleTo {
    /// The bound that follows from the other bound and the page's aspect
    /// ratio.
    pub const MAINTAIN_ASPECT_RATIO: i32 = -1;

    /// The bounds in X and in Y.
    pub closed spec fn view(&self) -> (i32, i32) {
        (self.x, self.y)
    }

    /// The arguments that ask for these bounds.
    pub open spec fn flags(&self) -> Seq<Seq<char>> {
        seq![
            "-scale-to-x"@,
            signed_decimal(self@.0 as int),
            "-scale-to-y"@,
            signed_decimal(self@.1 as int),
        ]
    }

    pub fn new(x: i32, y: i32) -> (r: Self)
        ensures
            r@ == (x, y),
    {
        Self { x, y }
    }

    pub fn x(x: i32) -> (r: Self)
        ensures
            r@ == (x, ScaleTo::MAINTAIN_ASPECT_RATIO),
    {
        Self { x, y: Self::MAINTAIN_ASPECT_RATIO }
    }

    pub fn y(y: i32) -> (r: Self)
        ensures
            r@ == (ScaleTo::MAINTAIN_ASPECT_RATIO, y),
    {
        Self { x: Self::MAINTAIN_ASPECT_RATIO, y }
    }

    pub fn uniform(scale: i32) -> (r: Self)
        ensures
            r@ == (scale, scale),
    {
        Self::new(scale, scale)
    }

    pub fn push_arg(&self, args: &mut Vec<String>)
        ensures
            final(args).deep_view() == old(args).deep_view() + self.flags(),
    {
        push_text(args, "-scale-to-x");
        push_string(args, i32_decimal(self.x));
        push_text(args, "-scale-to-y");
        push_string(args, i32_decimal(self.y));
        assert(args.deep_view() =~= old(args).deep_view() + self.flags());
    }
}

/// The resolution that a [Resolution] takes where none is given, in pixels
/// per inch.
pub const DEFAULT_RESOLUTION: u32 = 150;

#[derive(Debug, Clone, Copy)]
pub struct Resolution {
    /// X resolution in pixels per inch
    x: u32,
    /// Y resolution in pixels per inch
    y: u32,
}

impl Default for Resolution {
    fn default() -> (r: Self)
        ensures
            r@ == (DEFAULT_RESOLUTION, DEFAULT_RESOLUTION),
    {
        Self::uniform(DEFAULT_RESOLUTION)
    }
}

impl Resolution {
    /// The resolution in X and in Y, in pixels per inch.
    pub closed spec fn view(&self) -> (u32, u32) {
        (self.x, self.y)
    }

    /// The arguments that ask for this resolution.
    pub open spec fn flags(&self) -> Seq<Seq<char>> {
        seq!["-rx"@, decimal(self@.0 as nat), "-ry"@, decimal(self@.1 as nat)]
    }

    pub fn new(x: u32, y: u32) -> (r: Self)
        ensures
            r@ == (x, y),
    {
        Self { x, y }
    }

    pub fn x(x: u32) -> (r: Self)
        ensures
            r@ == (x, DEFAULT_RESOLUTION),
    {
        Self { x, y: DEFAULT_RESOLUTION }
    }

    pub fn y(y: u32) -> (r: Self)
        ensures
            r@ == (DEFAULT_RESOLUTION, y),
    {
        Self { x: DEFAULT_RESOLUTION, y }
    }

    pub fn uniform(size: u32) -> (r: Self)
        ensures
            r@ == (size, size),
    {
        Self::new(size, size)
    }

    pub fn push_arg(&self, args: &mut Vec<String>)
        ensures
            final(args).deep_view() == old(args).deep_view() + self.flags(),
    {
        push_text(args, "-rx");
        push_string(args, u32_decimal(self.x));
        push_text(args, "-ry");
        push_string(args, u32_decimal(self.y));
        assert(args.deep_view() =~= old(args).deep_view() + self.flags());
    }
}

/// Output formats for pdftocairo, the program
/// supports other formats but we only use these
/// types
#[derive(Debug, Clone, Copy, PartialEq, Eq, Structural)]
pub enum OutputFormat {
    /// Portable Network Graphics (PNG)
    Png,
    /// JPEG Interchange Format (JPEG)
    Jpeg,
    /// Tagged Image File Format (TIFF)
    Tiff,
}

impl Default for OutputFormat {
    fn default() -> (r: Self)
        ensures
            r == OutputFormat::Jpeg,
    {
        OutputFormat::Jpeg
    }
}

impl OutputFormat {
    /// The arguments that ask for this format.
    pub open spec fn flags(&self) -> Seq<Seq<char>> {
        match self {
            OutputFormat::Png => seq!["-png"@],
            OutputFormat::Jpeg => seq!["-jpeg"@],
            OutputFormat::Tiff => seq!["-tiff"@],
        }
    }

    /// The format as the decoder knows it.
    pub open spec fn decoder_format(&self) -> ::image::ImageFormat {
        match self {
            OutputFormat::Png => ::image::ImageFormat::Png,
            OutputFormat::Jpeg => ::image::ImageFormat::Jpeg,
            OutputFormat::Tiff => ::image::ImageFormat::Tiff,
        }
    }

    pub fn push_arg(&self, args: &mut Vec<String>)
        ensures
            final(args).deep_view() == old(args).deep_view() + self.flags(),
    {
        match self {
            OutputFormat::Png => push_text(args, "-png"),
            OutputFormat::Jpeg => push_text(args, "-jpeg"),
            OutputFormat::Tiff => push_text(args, "-tiff"),
        };
        assert(args.deep_view() =~= old(args).deep_view() + self.flags());
    }

    pub fn image_format(&self) -> (r: ::image::ImageFormat)
        ensures
            r == self.decoder_format(),
    {
        match self {
            OutputFormat::Png => ::image::ImageFormat::Png,
            OutputFormat::Jpeg => ::image::ImageFormat::Jpeg,
            OutputFormat::Tiff => ::image::ImageFormat::Tiff,
        }
    }
}

/// Options of a pdftocairo run.
pub struct RenderArgs {
    /// Optional custom resolution to render at, defaults to 150 PPI
    pub resolution: Option<Resolution>,
    /// Optionally scale to a specific size
    pub scale_to: Option<ScaleTo>,
    /// Area to render
    pub render_area: Option<RenderArea>,
    /// Rendered page content colors
    pub render_color: Option<RenderColor>,
    /// Rendered page color
    pub page_color: Option<PageColor>,
    /// Password for the PDF
    pub password: Option<Password>,
}

impl Default for RenderArgs {
    fn default() -> (r: Self)
        ensures
            r.resolution is None,
            r.scale_to is None,
            r.render_area is None,
            r.render_color is None,
            r.page_color is None,
            r.password is None,
    {
        RenderArgs {
            resolution: None,
            scale_to: None,
            render_area: None,
            render_color: None,
            page_color: None,
            password: None,
        }
    }
}

impl RenderArgs {
    /// The arguments that the options stand for: resolution, scale, area,
    /// colors, background and password, in this order, each where it is set.
    pub open spec fn flags(&self) -> Seq<Seq<char>> {
        (match self.resolution {
            Some(resolution) => resolution.flags(),
            None => Seq::empty(),
        }) + (match self.scale_to {
            Some(scale_to) => scale_to.flags(),
            None => Seq::empty(),
        }) + (match self.render_area {
            Some(render_area) => render_area.flags(),
            None => Seq::empty(),
        }) + (match self.render_color {
            Some(render_color) => render_color.flags(),
            None => Seq::empty(),
        }) + (match self.page_color {
            Some(page_color) => page_color.flags(),
            None => Seq::empty(),
        }) + (match self.password {
            Some(password) => password.flags(),
            None => Seq::empty(),
        })
    }

    /// Builds an argument list from all the options
    pub fn build_args(&self) -> (r: Vec<String>)
        ensures
            r.deep_view() == self.flags(),
    {
        let mut out: Vec<String> = Vec::new();
        assert(out.deep_view() =~= Seq::<Seq<char>>::empty());
        if let Some(res) = self.resolution.as_ref() {
            res.push_arg(&mut out);
        }
        if let Some(scale_to) = self.scale_to.as_ref() {
            scale_to.push_arg(&mut out);
        }
        if let Some(render_area) = self.render_area.as_ref() {
            render_area.push_arg(&mut out);
        }
        if let Some(render_color) = self.render_color.as_ref() {
            render_color.push_arg(&mut out);
        }
        if let Some(page_color) = self.page_color.as_ref() {
            page_color.push_arg(&mut out);
        }
        if let Some(password) = self.password.as_ref() {
            password.push_arg(&mut out);
        }
        assert(out.deep_view() =~= self.flags());
        out
    }
}

#[derive(Debug)]
pub enum PdfRenderError {
    /// pdftocairo could not be started.
    SpawnProcess(std::io::Error),
    /// The document could not be written to pdftocairo.
    WritePdf(std::io::Error),
    /// The output of pdftocairo could not be collected.
    WaitOutput(std::io::Error),
    /// pdftocairo failed; the text is what it wrote to its standard error.
    PdfRenderFailure(String),
    /// pdftocairo reported that the document does not permit the rendering.
    PermissionError(String),
    /// What pdftocairo wrote is no image of the format asked for.
    Image(::image::ImageError),
    /// The page asked for, and the number of pages that the document has.
    PageOutOfBounds(u32, u32),
    /// The page count is missing or no number.
    PageCountUnknown,
    /// The document is encrypted and no password was given.
    PdfEncrypted,
    /// The password given does not open the document.
    IncorrectPassword,
    /// The input is no PDF file.
    NotPdfFile,
}

/// The exit code by which pdftocairo reports that the document's
/// permissions forbid what was asked.
pub const PERMISSION_EXIT_CODE: i32 = 3;

/// The arguments of the run that renders one page: the document comes from
/// standard input, the image goes to standard output.
pub open spec fn render_page_flags(format: OutputFormat, page: u32, args: RenderArgs) -> Seq<
    Seq<char>,
> {
    seq![
        "-"@,
        "-"@,
        "-singlefile"@,
        "-f"@,
        decimal(page as nat),
        "-l"@,
        decimal(page as nat),
    ] + args.flags() + format.flags()
}

/// Whether `command` renders the page `page`.
pub open spec fn is_render_page_command(
    command: Command,
    format: OutputFormat,
    page: u32,
    args: RenderArgs,
) -> bool {
    command@ == ("pdftocairo"@, render_page_flags(format, page, args))
}

/// The command that renders one page. Whether the document has that page is
/// not looked at.
pub fn render_page_command(format: OutputFormat, page: u32, args: &RenderArgs) -> (r: Command)
    ensures
        is_render_page_command(r, format, page, *args),
{
    let mut cli_args = args.build_args();
    format.push_arg(&mut cli_args);
    let mut cli: Vec<String> = Vec::new();
    assert(cli.deep_view() =~= Seq::<Seq<char>>::empty());
    // Take input from stdin and provide to stdout
    push_text(&mut cli, "-");
    push_text(&mut cli, "-");
    // Specify first and last pages
    push_text(&mut cli, "-singlefile");
    push_text(&mut cli, "-f");
    push_string(&mut cli, u32_decimal(page));
    push_text(&mut cli, "-l");
    push_string(&mut cli, u32_decimal(page));
    // Add optional args and output format
    push_all(&mut cli, cli_args);
    assert(cli.deep_view() =~= render_page_flags(format, page, *args));
    Command { program: "pdftocairo".to_string(), args: cli }
}

/// Whether `e` is the error that a failed pdftocairo run gives, by its exit
/// code and its error text.
pub open spec fn is_render_failure(
    e: PdfRenderError,
    code: Option<i32>,
    stderr: Seq<char>,
    has_password: bool,
) -> bool {
    match failure_of(stderr, has_password) {
        Failure::NotPdfFile => e is NotPdfFile,
        Failure::PdfEncrypted => e is PdfEncrypted,
        Failure::IncorrectPassword => e is IncorrectPassword,
        Failure::Other => if code == Some(PERMISSION_EXIT_CODE) {
            e matches PdfRenderError::PermissionError(text) && text@ == stderr
        } else {
            e matches PdfRenderError::PdfRenderFailure(text) && text@ == stderr
        },
    }
}

/// Error text that says that the input may be no PDF file gives the error
/// for that, whatever the exit code.
pub proof fn lemma_render_of_no_pdf(
    e: PdfRenderError,
    code: Option<i32>,
    stderr: Seq<char>,
    has_password: bool,
)
    requires
        is_render_failure(e, code, stderr, has_password),
        contains(stderr, "May not be a PDF file"@),
    ensures
        e is NotPdfFile,
{
}

/// What `image::load_from_memory_with_format` makes of bytes that are to
/// hold an image of a given format.
pub uninterp spec fn decoded_image(bytes: Seq<u8>, format: ::image::ImageFormat) -> Result<
    ::image::DynamicImage,
    ::image::ImageError,
>;

/// `image::load_from_memory_with_format`: decodes the bytes as an image of
/// the given format. The result depends on the bytes and the format alone.
#[verifier::external_body]
fn decode_image(bytes: &[u8], format: ::image::ImageFormat) -> (r: Result<
    ::image::DynamicImage,
    ::image::ImageError,
>)
    ensures
        r == decoded_image(bytes@, format),
{
    ::image::load_from_memory_with_format(bytes, format)
}

/// The result of rendering for what the decoder made of the tool's output.
pub fn rendered(decoded: Result<::image::DynamicImage, ::image::ImageError>) -> (r: Result<
    ::image::DynamicImage,
    PdfRenderError,
>)
    ensures
        r == (match decoded {
            Ok(image) => Ok::<_, PdfRenderError>(image),
            Err(e) => Err(PdfRenderError::Image(e)),
        }),
{
    match decoded {
        Ok(image) => Ok(image),
        Err(e) => Err(PdfRenderError::Image(e)),
    }
}

/// The image of one page from what came of the run of
/// [render_page_command].
///
/// ## Arguments
/// * outcome - What came of the run
/// * format - The output format that pdftocairo was asked for
/// * args - The args that pdftocairo was given
pub fn render_page(outcome: Outcome<Vec<u8>>, format: OutputFormat, args: &RenderArgs) -> (r:
    Result<::image::DynamicImage, PdfRenderError>)
    ensures
        match outcome {
            Outcome::SpawnFailed(e) => r == Err::<::image::DynamicImage, _>(
                PdfRenderError::SpawnProcess(e),
            ),
            Outcome::WriteFailed(e) => r == Err::<::image::DynamicImage, _>(
                PdfRenderError::WritePdf(e),
            ),
            Outcome::WaitFailed(e) => r == Err::<::image::DynamicImage, _>(
                PdfRenderError::WaitOutput(e),
            ),
            Outcome::Failed { code, stderr } => r matches Err(e) && is_render_failure(
                e,
                code,
                stderr@,
                args.password is Some,
            ),
            Outcome::Succeeded(bytes) => r == (match decoded_image(
                bytes@,
                format.decoder_format(),
            ) {
                Ok(image) => Ok::<_, PdfRenderError>(image),
                Err(e) => Err(PdfRenderError::Image(e)),
            }),
        },
{
    match outcome {
        Outcome::SpawnFailed(e) => Err(PdfRenderError::SpawnProcess(e)),
        Outcome::WriteFailed(e) => Err(PdfRenderError::WritePdf(e)),
        Outcome::WaitFailed(e) => Err(PdfRenderError::WaitOutput(e)),
        Outcome::Failed { code, stderr } => Err(
            match classify_failure(stderr.as_str(), args.password.is_some()) {
                Failure::NotPdfFile => PdfRenderError::NotPdfFile,
                Failure::PdfEncrypted => PdfRenderError::PdfEncrypted,
                Failure::IncorrectPassword => PdfRenderError::IncorrectPassword,
                Failure::Other => match code {
                    Some(c) if c == PERMISSION_EXIT_CODE => PdfRenderError::PermissionError(
                        stderr,
                    ),
                    _ => PdfRenderError::PdfRenderFailure(stderr),
                },
            },
        ),
        Outcome::Succeeded(bytes) => rendered(decode_image(bytes.as_slice(), format.image_format())),
    }
}

/// Whether `r` is the answer to a request to render `pages` of a document:
/// the commands for the pages, in the order of the request, or the error
/// for an encrypted document without a password, for a page count that is
/// not known, or for the first page that the document does not have, the
/// first of these that applies.
pub open spec fn is_render_request(
    r: Result<Vec<Command>, PdfRenderError>,
    encrypted: bool,
    count: Option<u32>,
    format: OutputFormat,
    pages: Seq<u32>,
    args: RenderArgs,
) -> bool {
    if encrypted && args.password is None {
        r matches Err(PdfRenderError::PdfEncrypted)
    } else {
        match count {
            None => r matches Err(PdfRenderError::PageCountUnknown),
            Some(count) => match first_beyond(pages, count) {
                Some(page) => r == Err::<Vec<Command>, _>(
                    PdfRenderError::PageOutOfBounds(page, count),
                ),
                None => r matches Ok(commands) && commands@.len() == pages.len() && forall|i: int|
                    0 <= i < pages.len() ==> is_render_page_command(
                        #[trigger] commands@[i],
                        format,
                        pages[i],
                        args,
                    ),
            },
        }
    }
}

/// Checks a request to render all the pages of a document: the
/// commands to run, one for each page in ascending order, each to be read
/// by [render_page].
///
/// If you only want a specific page use [render_single_page]
///
/// ## Arguments
/// * info - The PDF info to use for the page count and encryption state
/// * format - The output format to render as
/// * args - Optional args to pdftocairo
pub fn render_all_pages(info: &PdfInfo, format: OutputFormat, args: &RenderArgs) -> (r: Result<
    Vec<Command>,
    PdfRenderError,
>)
    ensures
        is_render_request(
            r,
            info.is_encrypted(),
            info.page_count(),
            format,
            match info.page_count() {
                Some(count) => all_pages(count),
                None => Seq::empty(),
            },
            *args,
        ),
{
    // Check encryption
    if info.encrypted().unwrap_or(false) && args.password.is_none() {
        return Err(PdfRenderError::PdfEncrypted);
    }
    // Get the page count
    let page_count = match info.pages() {
        Some(Ok(count)) => count,
        _ => {
            return Err(PdfRenderError::PageCountUnknown);
        },
    };
    proof {
        lemma_all_pages(page_count);
    }
    Ok(page_commands(format, pages_up_to(page_count).as_slice(), args))
}

/// The commands that render `pages`, in their order.
fn page_commands(format: OutputFormat, pages: &[u32], args: &RenderArgs) -> (commands: Vec<Command>)
    ensures
        commands@.len() == pages@.len(),
        forall|i: int|
            0 <= i < pages@.len() ==> is_render_page_command(
                #[trigger] commands@[i],
                format,
                pages@[i],
                *args,
            ),
{
    let mut commands: Vec<Command> = Vec::new();
    let mut i: usize = 0;
    while i < pages.len()
        invariant
            0 <= i <= pages.len(),
            commands@.len() == i,
            forall|k: int|
                0 <= k < i ==> is_render_page_command(
                    #[trigger] commands@[k],
                    format,
                    pages@[k],
                    *args,
                ),
        decreases pages.len() - i,
    {
        commands.push(render_page_command(format, pages[i], args));
        i += 1;
    }
    commands
}

/// Checks a request to render some pages: the commands to run, one for each
/// page in the order of the request, each to be read by [render_page].
///
/// If you only want a specific page use [render_single_page]
///
/// ## Arguments
/// * info - The PDF info to use for the page count and encryption state
/// * format - The output format to render as
/// * pages - The list of page numbers to render
/// * args - Optional args to pdftocairo
pub fn render_pages(
    info: &PdfInfo,
    format: OutputFormat,
    pages: Vec<u32>,
    args: &RenderArgs,
) -> (r: Result<Vec<Command>, PdfRenderError>)
    ensures
        is_render_request(r, info.is_encrypted(), info.page_count(), format, pages@, *args),
{
    // Check encryption
    if info.encrypted().unwrap_or(false) && args.password.is_none() {
        return Err(PdfRenderError::PdfEncrypted);
    }
    // Get the page count
    let page_count = match info.pages() {
        Some(Ok(count)) => count,
        _ => {
            return Err(PdfRenderError::PageCountUnknown);
        },
    };
    // Validate requested pages
    if let Some(page) = find_beyond(pages.as_slice(), page_count) {
        return Err(PdfRenderError::PageOutOfBounds(page, page_count));
    }
    Ok(page_commands(format, pages.as_slice(), args))
}

/// Checks a request to render one page: the command to run, to be read by
/// [render_page].
///
/// ## Arguments
/// * info - The PDF info to use for the page count and encryption state
/// * format - The output format to render as
/// * page - The page to render
/// * args - Optional args to pdftocairo
pub fn render_single_page(
    info: &PdfInfo,
    format: OutputFormat,
    page: u32,
    args: &RenderArgs,
) -> (r: Result<Command, PdfRenderError>)
    ensures
        if info.is_encrypted() && args.password is None {
            r matches Err(PdfRenderError::PdfEncrypted)
        } else {
            match info.page_count() {
                None => r matches Err(PdfRenderError::PageCountUnknown),
                Some(count) => if page > count {
                    r == Err::<Command, _>(PdfRenderError::PageOutOfBounds(page, count))
                } else {
                    r matches Ok(command) && is_render_page_command(command, format, page, *args)
                },
            }
        },
{
    // Check encryption
    if info.encrypted().unwrap_or(false) && args.password.is_none() {
        return Err(PdfRenderError::PdfEncrypted);
    }
    // Get the page count
    let page_count = match info.pages() {
        Some(Ok(count)) => count,
        _ => {
            return Err(PdfRenderError::PageCountUnknown);
        },
    };
    // Validate chosen page
    if page > page_count {
        return Err(PdfRenderError::PageOutOfBounds(page, page_count));
    }
    Ok(render_page_command(format, page, args))
}

/// A request that names a page beyond the document's last page fails,
/// unless the document is encrypted and no password is given, which is
/// reported first. The error holds a page of the request that is beyond the
/// last page, namely the first such page, and the document's page count.
pub proof fn lemma_render_page_out_of_bounds(
    r: Result<Vec<Command>, PdfRenderError>,
    encrypted: bool,
    count: u32,
    format: OutputFormat,
    pages: Seq<u32>,
    args: RenderArgs,
    i: int,
)
    requires
        is_render_request(r, encrypted, Some(count), format, pages, args),
        !encrypted || args.password is Some,
        0 <= i < pages.len(),
        pages[i] > count,
    ensures
        r matches Err(PdfRenderError::PageOutOfBounds(page, total)) && total == count && page
            > count && pages.contains(page) && first_beyond(pages, count) == Some(page),
{
    lemma_first_beyond(pages, count);
}

/// A request to render pages of an encrypted document without a password
/// fails, and gives no command to run.
pub proof fn lemma_render_encrypted_without_password(
    r: Result<Vec<Command>, PdfRenderError>,
    count: Option<u32>,
    format: OutputFormat,
    pages: Seq<u32>,
    args: RenderArgs,
)
    requires
        is_render_request(r, true, count, format, pages, args),
        args.password is None,
    ensures
        r matches Err(PdfRenderError::PdfEncrypted),
{
}

/// A request to render all pages that succeeds gives one command for each
/// page of the document, in ascending order of the pages.
pub proof fn lemma_render_all_pages_ascending(
    r: Result<Vec<Command>, PdfRenderError>,
    encrypted: bool,
    count: u32,
    format: OutputFormat,
    args: RenderArgs,
)
    requires
        is_render_request(r, encrypted, Some(count), format, all_pages(count), args),
        r is Ok,
    ensures
        r->Ok_0@.len() == count,
        forall|i: int|
            0 <= i < count ==> is_render_page_command(
                #[trigger] r->Ok_0@[i],
                format,
                (i + 1) as u32,
                args,
            ),
{
    lemma_all_pages(count);
    let commands = r->Ok_0@;
    assert forall|i: int| 0 <= i < count implies is_render_page_command(
        #[trigger] commands[i],
        format,
        (i + 1) as u32,
        args,
    ) by {
        assert(all_pages(count)[i] == (i + 1) as u32);
    }
}

} // verus!

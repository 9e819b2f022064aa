//! A programmatic interface over three command-line PDF utilities:
//! `pdfinfo`, `pdftocairo` and `pdftotext`.
//!
//! The library decides which commands to run and reads what they leave
//! behind; running them is left to the caller. A request is checked against
//! what is known of the document and answered with the commands to run; the
//! outcome of each run is then read into the value asked for.

pub mod chars;
pub mod decimal;
pub mod fields;
pub mod image;
pub mod info;
pub mod join;
pub mod pages;
pub mod process;
pub mod seqs;
pub mod shared;
pub mod text;

pub use image::{
    render_all_pages, render_page, render_page_command, render_pages, render_single_page,
    Antialias, Crop, OutputFormat, PageColor, PdfRenderError, RenderArea, RenderArgs, RenderColor,
    Resolution, ScaleTo,
};
pub use info::{
    parse_bool, parse_pdf_info, parse_pdf_info_encryption, pdf_info, pdf_info_command, PdfInfo,
    PdfInfoArgs, PdfInfoEncryption, PdfInfoError,
};
pub use join::OrderedJoin;
pub use process::{bytes_outcome, text_outcome, Command, Failure, Outcome};
pub use shared::{Password, Secret};
pub use text::{
    page_text, page_text_command, pages_text, pages_text_command, text_all_pages,
    text_all_pages_split, text_pages, text_single_page, PdfTextArgs, PdfTextError,
    PAGE_END_CHARACTER,
};

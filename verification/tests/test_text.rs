use pdf_process::{
    page_text, page_text_command, pages_text, pages_text_command, parse_pdf_info, text_all_pages,
    text_all_pages_split, text_outcome, text_pages, text_single_page, Outcome, Password,
    PdfTextArgs, PdfTextError, Secret, PAGE_END_CHARACTER,
};

const TWO_PAGES: &str = "Test pdf with text in it\n\n\u{c}Test page 2\n\n\u{c}";

fn succeeded(text: &str) -> Outcome<String> {
    Outcome::Succeeded(text.to_string())
}

fn failed(stderr: &str) -> Outcome<String> {
    Outcome::Failed {
        code: Some(1),
        stderr: stderr.to_string(),
    }
}

#[test]
fn page_end_character_is_form_feed() {
    assert_eq!(PAGE_END_CHARACTER, '\u{c}');
    assert_eq!(PAGE_END_CHARACTER as u32, 12);
}

/// Tests reading text from all pages
#[test]
fn all_content_keeps_page_ends() {
    let expected = "Test pdf with text in it\n\n\u{c}";
    let text = pages_text(succeeded(expected), &PdfTextArgs::default()).unwrap();
    assert_eq!(text.as_str(), expected);
}

/// Tests reading the text from a specific page
#[test]
fn single_page_loses_its_page_end() {
    let args = PdfTextArgs::default();
    let text = page_text(succeeded("Test pdf with text in it\n\n\u{c}"), &args).unwrap();
    assert_eq!(text.as_str(), "Test pdf with text in it\n\n");

    let text = page_text(succeeded("Test page 2\n\n\u{c}"), &args).unwrap();
    assert_eq!(text.as_str(), "Test page 2\n\n");
}

#[test]
fn single_page_loses_one_page_end_only() {
    let args = PdfTextArgs::default();
    assert_eq!(page_text(succeeded("a\u{c}\u{c}"), &args).unwrap(), "a\u{c}");
    assert_eq!(page_text(succeeded("\u{c}a"), &args).unwrap(), "\u{c}a");
    assert_eq!(page_text(succeeded("\u{c}"), &args).unwrap(), "");
    assert_eq!(page_text(succeeded(""), &args).unwrap(), "");
    assert_eq!(page_text(succeeded("päge"), &args).unwrap(), "päge");
}

/// Tests reading the text from all pages
#[test]
fn all_pages_as_one_string() {
    let expected = "Test pdf with text in it\n\n\nTest page 2\n\n\n";
    let text = text_all_pages(succeeded(TWO_PAGES), &PdfTextArgs::default()).unwrap();
    assert_eq!(text.as_str(), expected);
}

/// Tests reading all pages text in split form
#[test]
fn all_pages_split() {
    let expected = vec![
        "Test pdf with text in it\n\n".to_string(),
        "Test page 2\n\n".to_string(),
        "".to_string(),
    ];
    let text = text_all_pages_split(succeeded(TWO_PAGES), &PdfTextArgs::default()).unwrap();
    assert_eq!(text, expected);
}

#[test]
fn all_pages_split_of_text_without_page_end() {
    let args = PdfTextArgs::default();
    assert_eq!(text_all_pages_split(succeeded(""), &args).unwrap(), vec![""]);
    assert_eq!(text_all_pages_split(succeeded("a"), &args).unwrap(), vec!["a"]);
    assert_eq!(
        text_all_pages_split(succeeded("\u{c}\u{c}"), &args).unwrap(),
        vec!["", "", ""]
    );
}

/// The single string is the split form joined by line feeds
#[test]
fn all_pages_agree_with_split() {
    let args = PdfTextArgs::default();
    for text in ["", "a", TWO_PAGES, "\u{c}", "a\u{c}\u{c}b\nc\u{c}", "é\u{c}ü"] {
        let all = text_all_pages(succeeded(text), &args).unwrap();
        let split = text_all_pages_split(succeeded(text), &args).unwrap();
        assert_eq!(split.join("\n"), all, "{text:?}");
        assert_eq!(all, text.replace(PAGE_END_CHARACTER, "\n"));
        let expected: Vec<String> = text.split(PAGE_END_CHARACTER).map(|v| v.to_string()).collect();
        assert_eq!(split, expected);
    }
}

/// Tests reading specific pages text
#[test]
fn pages_are_asked_for_in_the_order_of_the_request() {
    let info = parse_pdf_info("Pages:          2\n").unwrap();
    let args = PdfTextArgs::default();
    let commands = text_pages(&info, vec![2, 1, 2], &args).unwrap();
    assert_eq!(commands.len(), 3);
    for (command, page) in commands.iter().zip(["2", "1", "2"]) {
        assert_eq!(command.program, "pdftotext");
        assert_eq!(command.args, vec!["-", "-", "-f", page, "-l", page]);
    }
    assert!(text_pages(&info, vec![], &args).unwrap().is_empty());
}

/// Tests preventing attempts extracting text on a page that goes out
/// of bounds from the acceptable number of pages
#[test]
fn page_bounds_of_text() {
    let info = parse_pdf_info("Pages:          2\n").unwrap();
    let args = PdfTextArgs::default();

    let err = text_single_page(&info, 99, &args).unwrap_err();
    assert!(matches!(err, PdfTextError::PageOutOfBounds(99, 2)));

    let err = text_pages(&info, vec![99], &args).unwrap_err();
    assert!(matches!(err, PdfTextError::PageOutOfBounds(99, 2)));

    let err = text_pages(&info, vec![1, 3, 2, 99], &args).unwrap_err();
    assert!(matches!(err, PdfTextError::PageOutOfBounds(3, 2)));

    let err = text_single_page(&info, 3, &args).unwrap_err();
    assert!(matches!(err, PdfTextError::PageOutOfBounds(3, 2)));
    assert!(text_single_page(&info, 2, &args).is_ok());
    assert!(text_single_page(&info, 0, &args).is_ok());
}

/// Tests that no command is given for an encrypted file without a password
#[test]
fn text_of_an_encrypted_file_is_refused_before_the_run() {
    let info = parse_pdf_info(
        "Pages:          2\nEncrypted:      yes (print:yes copy:yes change:yes addNotes:yes algorithm:AES)\n",
    )
    .unwrap();
    let args = PdfTextArgs::default();

    let err = text_single_page(&info, 1, &args).unwrap_err();
    assert!(matches!(err, PdfTextError::PdfEncrypted));
    let err = text_single_page(&info, 99, &args).unwrap_err();
    assert!(matches!(err, PdfTextError::PdfEncrypted));
    let err = text_pages(&info, vec![1, 2], &args).unwrap_err();
    assert!(matches!(err, PdfTextError::PdfEncrypted));
    let err = text_pages(&info, vec![99], &args).unwrap_err();
    assert!(matches!(err, PdfTextError::PdfEncrypted));
    let err = text_pages(&info, vec![], &args).unwrap_err();
    assert!(matches!(err, PdfTextError::PdfEncrypted));

    let info = parse_pdf_info("Encrypted: yes").unwrap();
    let err = text_single_page(&info, 1, &args).unwrap_err();
    assert!(matches!(err, PdfTextError::PdfEncrypted));
}

/// Tests reading when the file is encrypted but the password
/// is provided
#[test]
fn text_of_an_encrypted_file_with_a_password_is_asked_for() {
    let info = parse_pdf_info(
        "Pages:          2\nEncrypted:      yes (print:yes copy:yes change:yes addNotes:yes algorithm:AES)\n",
    )
    .unwrap();
    let args = PdfTextArgs {
        password: Some(Password::User(Secret("password".to_string()))),
    };

    let command = text_single_page(&info, 1, &args).unwrap();
    assert_eq!(
        command.args,
        vec!["-", "-", "-f", "1", "-l", "1", "-upw", "password"]
    );
    let commands = text_pages(&info, vec![1, 2], &args).unwrap();
    assert_eq!(commands.len(), 2);
    let err = text_single_page(&info, 3, &args).unwrap_err();
    assert!(matches!(err, PdfTextError::PageOutOfBounds(3, 2)));

    let info = parse_pdf_info("Pages: 2\nEncrypted: no").unwrap();
    assert!(text_single_page(&info, 1, &PdfTextArgs::default()).is_ok());
    assert!(text_pages(&info, vec![2, 1], &PdfTextArgs::default()).is_ok());
}

#[test]
fn page_count_unknown_for_text() {
    let args = PdfTextArgs::default();
    for text in ["", "Pages: two", "Pages: ", "Pages: 2 pages", "pages: 2"] {
        let info = parse_pdf_info(text).unwrap();
        let err = text_single_page(&info, 1, &args).unwrap_err();
        assert!(matches!(err, PdfTextError::PageCountUnknown), "{text:?}");
        let err = text_pages(&info, vec![1], &args).unwrap_err();
        assert!(matches!(err, PdfTextError::PageCountUnknown), "{text:?}");
        let err = text_pages(&info, vec![], &args).unwrap_err();
        assert!(matches!(err, PdfTextError::PageCountUnknown), "{text:?}");
    }
}

#[test]
fn text_commands() {
    let args = PdfTextArgs::default();
    let command = pages_text_command(&args);
    assert_eq!(command.program, "pdftotext");
    assert_eq!(command.args, vec!["-", "-"]);

    let command = page_text_command(4294967295, &args);
    assert_eq!(command.program, "pdftotext");
    assert_eq!(
        command.args,
        vec!["-", "-", "-f", "4294967295", "-l", "4294967295"]
    );

    let args = PdfTextArgs {
        password: Some(Password::User(Secret("password".to_string()))),
    };
    assert_eq!(args.build_args(), vec!["-upw", "password"]);
    assert_eq!(
        pages_text_command(&args).args,
        vec!["-", "-", "-upw", "password"]
    );
    assert_eq!(
        page_text_command(7, &args).args,
        vec!["-", "-", "-f", "7", "-l", "7", "-upw", "password"]
    );
    let args = PdfTextArgs::default().set_password(Password::owner("o w"));
    assert_eq!(
        page_text_command(10, &args).args,
        vec!["-", "-", "-f", "10", "-l", "10", "-opw", "o w"]
    );

    let info = parse_pdf_info("Pages: 12").unwrap();
    let command = text_single_page(&info, 12, &args).unwrap();
    assert_eq!(command, page_text_command(12, &args));
}

/// Tests invalid files are handled
#[test]
fn text_of_what_is_no_pdf() {
    let stderr = "Syntax Warning: May not be a PDF file (continuing anyway)\n";
    let args = PdfTextArgs::default();
    let err = pages_text(failed(stderr), &args).unwrap_err();
    assert!(matches!(err, PdfTextError::NotPdfFile));
    let err = page_text(failed(stderr), &args).unwrap_err();
    assert!(matches!(err, PdfTextError::NotPdfFile));
    let err = text_all_pages(failed(stderr), &args).unwrap_err();
    assert!(matches!(err, PdfTextError::NotPdfFile));
    let err = text_all_pages_split(failed(stderr), &args).unwrap_err();
    assert!(matches!(err, PdfTextError::NotPdfFile));
}

/// Tests reading when the file is encrypted
#[test]
fn text_of_an_encrypted_file() {
    let stderr = "Command Line Error: Incorrect password\n";
    let args = PdfTextArgs::default();
    let err = text_all_pages(failed(stderr), &args).unwrap_err();
    assert!(matches!(err, PdfTextError::PdfEncrypted));
    let err = page_text(failed(stderr), &args).unwrap_err();
    assert!(matches!(err, PdfTextError::PdfEncrypted));
    let err = text_all_pages_split(failed(stderr), &args).unwrap_err();
    assert!(matches!(err, PdfTextError::PdfEncrypted));
    let err = pages_text(failed(stderr), &args).unwrap_err();
    assert!(matches!(err, PdfTextError::PdfEncrypted));
}

/// Tests reading when the file is encrypted and the incorrect password
/// is provided
#[test]
fn text_with_an_incorrect_password() {
    let stderr = "Command Line Error: Incorrect password\n";
    let args = PdfTextArgs {
        password: Some(Password::User(Secret("incorrect".to_string()))),
    };
    let err = text_all_pages(failed(stderr), &args).unwrap_err();
    assert!(matches!(err, PdfTextError::IncorrectPassword));
    let err = page_text(failed(stderr), &args).unwrap_err();
    assert!(matches!(err, PdfTextError::IncorrectPassword));
    let err = text_all_pages_split(failed(stderr), &args).unwrap_err();
    assert!(matches!(err, PdfTextError::IncorrectPassword));
    let err = pages_text(failed(stderr), &args).unwrap_err();
    assert!(matches!(err, PdfTextError::IncorrectPassword));
}

#[test]
fn text_of_another_failure() {
    let args = PdfTextArgs::default();
    let err = pages_text(failed("Incorrect Password"), &args).unwrap_err();
    match err {
        PdfTextError::PdfTextFailure(text) => assert_eq!(text, "Incorrect Password"),
        other => panic!("{other:?}"),
    }
    let err = pages_text(failed(""), &args).unwrap_err();
    assert!(matches!(err, PdfTextError::PdfTextFailure(text) if text.is_empty()));
}

#[test]
fn not_a_pdf_comes_before_the_password() {
    let stderr = "Incorrect password; May not be a PDF file";
    let err = pages_text(failed(stderr), &PdfTextArgs::default()).unwrap_err();
    assert!(matches!(err, PdfTextError::NotPdfFile));
}

#[test]
fn text_of_a_run_that_did_not_end() {
    let args = PdfTextArgs::default();
    let error = || std::io::Error::new(std::io::ErrorKind::BrokenPipe, "pipe");
    assert!(matches!(
        pages_text(Outcome::SpawnFailed(error()), &args),
        Err(PdfTextError::SpawnProcess(_))
    ));
    assert!(matches!(
        page_text(Outcome::WriteFailed(error()), &args),
        Err(PdfTextError::WritePdf(e)) if e.kind() == std::io::ErrorKind::BrokenPipe
    ));
    assert!(matches!(
        text_all_pages(Outcome::WaitFailed(error()), &args),
        Err(PdfTextError::WaitOutput(_))
    ));
    assert!(matches!(
        text_all_pages_split(Outcome::SpawnFailed(error()), &args),
        Err(PdfTextError::SpawnProcess(_))
    ));
}

#[test]
fn text_outcome_reads_bytes_as_text() {
    let outcome = text_outcome(true, Some(0), "päge\u{c}".as_bytes(), b"ignored");
    assert!(matches!(&outcome, Outcome::Succeeded(text) if text == "päge\u{c}"));
    let outcome = text_outcome(true, None, b"a\xffb", b"");
    assert!(matches!(&outcome, Outcome::Succeeded(text) if text == "a\u{fffd}b"));
    let outcome = text_outcome(false, Some(2), b"out", b"err\x80");
    assert!(matches!(
        &outcome,
        Outcome::Failed { code: Some(2), stderr } if stderr == "err\u{fffd}"
    ));
    let outcome = text_outcome(false, None, b"out", b"");
    assert!(matches!(&outcome, Outcome::Failed { code: None, stderr } if stderr.is_empty()));
}

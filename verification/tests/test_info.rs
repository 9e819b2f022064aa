use pdf_process::{
    parse_bool, parse_pdf_info, parse_pdf_info_encryption, pdf_info, pdf_info_command,
    text_outcome, Outcome, Password, PdfInfoArgs, PdfInfoError,
};

/// Tests the output parser logic
#[test]
fn test_parsing_output() {
    let value = r#"
Title:           Ropes: an Alternative to Strings
Subject:         
Keywords:        character strings, concatenation, Cedar, immutable, C, balanced trees
Author:          Hans-J. Boehm, Russ Atkinson and Michael Plass
Producer:        Acrobat Distiller 2.0 for Windows
CreationDate:    Sun Aug 25 21:00:20 1996 NZST
ModDate:         Sat Nov  2 06:49:17 1996 NZDT
Custom Metadata: no
Metadata Stream: no
Tagged:          no
UserProperties:  no
Suspects:        no
Form:            none
JavaScript:      no
Pages:           16
Encrypted:       no
Page size:       540 x 738 pts
Page rot:        0
File size:       169205 bytes
Optimized:       yes
PDF version:     1.2
        "#;
    let output = parse_pdf_info(value).unwrap();

    assert_eq!(output.title(), Some("Ropes: an Alternative to Strings"));
    assert_eq!(output.subject(), Some(""));
    assert_eq!(
        output.keywords(),
        Some("character strings, concatenation, Cedar, immutable, C, balanced trees")
    );
    assert_eq!(
        output.author(),
        Some("Hans-J. Boehm, Russ Atkinson and Michael Plass")
    );
    assert_eq!(output.producer(), Some("Acrobat Distiller 2.0 for Windows"));
    assert_eq!(
        output.creation_date(),
        Some("Sun Aug 25 21:00:20 1996 NZST")
    );
    assert_eq!(output.mod_date(), Some("Sat Nov  2 06:49:17 1996 NZDT"));
    assert_eq!(output.custom_metadata(), Some(false));
    assert_eq!(output.metadata_stream(), Some(false));
    assert_eq!(output.tagged(), Some(false));
    assert_eq!(output.user_properties(), Some(false));
    assert_eq!(output.suspects(), Some(false));
    assert_eq!(output.form(), Some("none"));
    assert_eq!(output.javascript(), Some(false));
    assert_eq!(output.pages(), Some(Ok(16)));
    assert_eq!(output.encrypted(), Some(false));
    assert_eq!(output.page_size(), Some("540 x 738 pts"));
    assert_eq!(output.page_rot(), Some("0"));
    assert_eq!(output.file_size(), Some("169205 bytes"));
    assert_eq!(output.optimized(), Some(true));
    assert_eq!(output.pdf_version(), Some("1.2"));
}

#[test]
fn info_fields_that_are_missing() {
    let info = parse_pdf_info("Title: a\n").unwrap();
    assert_eq!(info.title(), Some("a"));
    assert_eq!(info.creator(), None);
    assert_eq!(info.pages(), None);
    assert_eq!(info.encrypted(), None);
    assert_eq!(info.encryption_raw(), None);
    assert!(info.encryption().is_none());
    assert_eq!(info.tagged(), None);
    assert_eq!(info.data("Title"), Some("a"));
    assert_eq!(info.data("title"), None);
}

#[test]
fn info_later_line_replaces_earlier() {
    let info = parse_pdf_info("Title: a\nPages: 1\nTitle: b").unwrap();
    assert_eq!(info.title(), Some("b"));
    assert_eq!(info.pages(), Some(Ok(1)));
}

#[test]
fn info_lines_end_with_line_feed_or_carriage_return_and_line_feed() {
    let info = parse_pdf_info("Title: a\r\nCreator:\tb \r\n\nProducer: c\r").unwrap();
    assert_eq!(info.title(), Some("a"));
    assert_eq!(info.creator(), Some("b "));
    assert_eq!(info.producer(), Some("c\r"));
}

#[test]
fn info_agrees_with_std_on_lines() {
    for text in [
        "",
        "\n",
        "a",
        "a\n",
        "a\r\n",
        "a\r",
        "\r\n\r\n",
        "k: v\n\nq:w\r\r\n:x\n y : z :: \u{a0}\u{3000}t",
    ] {
        let info = parse_pdf_info(text).unwrap();
        for line in text.lines() {
            if let Some((key, value)) = line.split_once(':') {
                let last = text
                    .lines()
                    .filter_map(|l| l.split_once(':'))
                    .filter(|(k, _)| *k == key)
                    .last()
                    .unwrap();
                assert_eq!(info.data(key), Some(last.1.trim_start()), "{text:?} {value:?}");
            }
        }
    }
}

#[test]
fn page_count_is_a_decimal_number() {
    for (text, expected) in [
        ("16", Some(16u32)),
        ("+16", Some(16)),
        ("0016", Some(16)),
        ("0", Some(0)),
        ("4294967295", Some(u32::MAX)),
        ("4294967296", None),
        ("", None),
        ("+", None),
        ("-1", None),
        ("1 ", None),
        ("1_0", None),
        ("0x10", None),
        ("++1", None),
    ] {
        let info = parse_pdf_info(&format!("Pages:{text}")).unwrap();
        assert_eq!(info.pages().unwrap().ok(), expected, "{text:?}");
    }
}

#[test]
fn encrypted_looks_at_the_start_of_the_value() {
    let info = parse_pdf_info("Encrypted: yes (print:yes copy:no)").unwrap();
    assert_eq!(info.encrypted(), Some(true));
    assert_eq!(
        info.encryption_raw(),
        Some("yes (print:yes copy:no)")
    );
    let info = parse_pdf_info("Encrypted: no").unwrap();
    assert_eq!(info.encrypted(), Some(false));
    let info = parse_pdf_info("Encrypted: ye").unwrap();
    assert_eq!(info.encrypted(), Some(false));
    let info = parse_pdf_info("Encrypted: yesterday").unwrap();
    assert_eq!(info.encrypted(), Some(true));
}

#[test]
fn parse_bool_takes_only_yes() {
    assert!(parse_bool("yes"));
    assert!(!parse_bool("no"));
    assert!(!parse_bool("Yes"));
    assert!(!parse_bool("yes "));
    assert!(!parse_bool(""));
    assert!(!parse_bool("ye"));
}

#[test]
fn encryption_options() {
    let encryption = parse_pdf_info_encryption(
        "yes (print:yes copy:no change:no addNotes:no algorithm:AES-256)",
    )
    .unwrap();
    assert!(encryption.is_encrypted());
    assert!(encryption.is_print_allowed());
    assert!(!encryption.is_copy_allowed());
    assert!(!encryption.is_change_allowed());
    assert!(!encryption.is_add_notes_allowed());
    assert_eq!(encryption.algorithm(), Some("AES-256"));
}

#[test]
fn encryption_options_that_are_missing_are_allowed() {
    let encryption = parse_pdf_info_encryption("no ()").unwrap();
    assert!(!encryption.is_encrypted());
    assert!(encryption.is_print_allowed());
    assert!(encryption.is_copy_allowed());
    assert!(encryption.is_change_allowed());
    assert!(encryption.is_add_notes_allowed());
    assert_eq!(encryption.algorithm(), None);
}

#[test]
fn encryption_through_info() {
    let info = parse_pdf_info(
        "Pages: 2\nEncrypted:      yes (print:yes copy:yes change:yes addNotes:yes algorithm:AES)\n",
    )
    .unwrap();
    assert_eq!(info.pages(), Some(Ok(2)));
    assert_eq!(info.encrypted(), Some(true));
    let encryption = info.encryption().unwrap().unwrap();
    assert!(encryption.is_encrypted());
    assert!(encryption.is_print_allowed());
    assert!(encryption.is_copy_allowed());
    assert!(encryption.is_change_allowed());
    assert!(encryption.is_add_notes_allowed());
    assert_eq!(encryption.algorithm(), Some("AES"));
}

#[test]
fn encryption_options_separated_by_any_white_space() {
    let encryption =
        parse_pdf_info_encryption("yes ( print:no\t\tcopy:yes \n nothing  algorithm:RC4 )")
            .unwrap();
    assert!(!encryption.is_print_allowed());
    assert!(encryption.is_copy_allowed());
    assert_eq!(encryption.algorithm(), Some("RC4"));
}

#[test]
fn encryption_malformed() {
    for text in ["", "yes", "no", "yes print:yes", "yes (", "yes )", "yes (print:yes", "yes print:yes)", "yes  (print:yes)"] {
        let err = parse_pdf_info_encryption(text).unwrap_err();
        assert!(matches!(err, PdfInfoError::MalformedEncryptionOptions), "{text:?}");
    }
    let info = parse_pdf_info("Encrypted: no").unwrap();
    let err = info.encryption().unwrap().unwrap_err();
    assert!(matches!(err, PdfInfoError::MalformedEncryptionOptions));
}

#[test]
fn info_command() {
    let command = pdf_info_command(&PdfInfoArgs::default());
    assert_eq!(command.program, "pdfinfo");
    assert_eq!(command.args, vec!["-"]);

    let args = PdfInfoArgs::default().set_password(Password::user("password"));
    let command = pdf_info_command(&args);
    assert_eq!(command.program, "pdfinfo");
    assert_eq!(command.args, vec!["-", "-upw", "password"]);
    assert_eq!(args.build_args(), vec!["-upw", "password"]);

    let args = PdfInfoArgs::default().set_password(Password::owner("secret"));
    assert_eq!(args.build_args(), vec!["-opw", "secret"]);
    assert!(PdfInfoArgs::default().build_args().is_empty());
}

/// An input that is no PDF file is told from other failures
#[test]
fn info_of_what_is_no_pdf() {
    let outcome = text_outcome(
        false,
        Some(1),
        b"",
        b"Syntax Warning: May not be a PDF file (continuing anyway)\nSyntax Error: Couldn't find trailer dictionary\n",
    );
    let err = pdf_info(outcome, &PdfInfoArgs::default()).unwrap_err();
    assert!(matches!(err, PdfInfoError::NotPdfFile));
}

#[test]
fn info_of_an_encrypted_file() {
    let stderr = b"Command Line Error: Incorrect password\n";
    let outcome = text_outcome(false, Some(1), b"", stderr);
    let err = pdf_info(outcome, &PdfInfoArgs::default()).unwrap_err();
    assert!(matches!(err, PdfInfoError::PdfEncrypted));

    let args = PdfInfoArgs::default().set_password(Password::user("incorrect"));
    let outcome = text_outcome(false, Some(1), b"", stderr);
    let err = pdf_info(outcome, &args).unwrap_err();
    assert!(matches!(err, PdfInfoError::IncorrectPassword));
}

#[test]
fn info_of_another_failure() {
    let outcome = text_outcome(false, Some(99), b"Pages: 3\n", b"I/O Error: \xff\n");
    let err = pdf_info(outcome, &PdfInfoArgs::default()).unwrap_err();
    match err {
        PdfInfoError::PdfInfoFailure(text) => assert_eq!(text, "I/O Error: \u{fffd}\n"),
        other => panic!("{other:?}"),
    }
}

#[test]
fn info_of_a_run_that_succeeded() {
    let outcome = text_outcome(true, Some(0), b"Pages:          2\nEncrypted:      no\n", b"May not be a PDF file");
    let info = pdf_info(outcome, &PdfInfoArgs::default()).unwrap();
    assert_eq!(info.pages(), Some(Ok(2)));
    assert_eq!(info.encrypted(), Some(false));
}

#[test]
fn info_of_a_run_that_did_not_end() {
    let args = PdfInfoArgs::default();
    let error = || std::io::Error::new(std::io::ErrorKind::NotFound, "gone");
    assert!(matches!(
        pdf_info(Outcome::SpawnFailed(error()), &args),
        Err(PdfInfoError::SpawnProcess(e)) if e.kind() == std::io::ErrorKind::NotFound
    ));
    assert!(matches!(
        pdf_info(Outcome::WriteFailed(error()), &args),
        Err(PdfInfoError::WritePdf(_))
    ));
    assert!(matches!(
        pdf_info(Outcome::WaitFailed(error()), &args),
        Err(PdfInfoError::WaitOutput(_))
    ));
}

use pdf_process::chars::{lines_of, str_chars, words_of};
use pdf_process::fields::Fields;

#[test]
fn fields_are_found_by_name() {
    let mut fields = Fields::new();
    assert_eq!(fields.get("a"), None);
    fields.insert("a".to_string(), "1".to_string());
    fields.insert("b".to_string(), "2".to_string());
    fields.insert("".to_string(), "3".to_string());
    assert_eq!(fields.get("a"), Some("1"));
    assert_eq!(fields.get("b"), Some("2"));
    assert_eq!(fields.get(""), Some("3"));
    assert_eq!(fields.get("A"), None);
    assert_eq!(fields.get("ab"), None);
}

#[test]
fn a_later_value_replaces_an_earlier_one() {
    let mut fields = Fields::new();
    fields.insert("a".to_string(), "1".to_string());
    fields.insert("b".to_string(), "2".to_string());
    fields.insert("a".to_string(), "3".to_string());
    assert_eq!(fields.get("a"), Some("3"));
    assert_eq!(fields.get("b"), Some("2"));
}

#[test]
fn fields_of_lines() {
    let chars = str_chars("a: 1\nno colon\nb:2:3\n:4\nc:\na:\t5 ");
    let fields = Fields::from_parts(&lines_of(&chars));
    assert_eq!(fields.get("a"), Some("5 "));
    assert_eq!(fields.get("b"), Some("2:3"));
    assert_eq!(fields.get("c"), Some(""));
    assert_eq!(fields.get(""), Some("4"));
    assert_eq!(fields.get("no colon"), None);
}

#[test]
fn fields_of_words() {
    let chars = str_chars("print:yes copy:no word algorithm:AES-256 print:no");
    let fields = Fields::from_parts(&words_of(&chars));
    assert_eq!(fields.get("print"), Some("no"));
    assert_eq!(fields.get("copy"), Some("no"));
    assert_eq!(fields.get("algorithm"), Some("AES-256"));
    assert_eq!(fields.get("word"), None);
    assert_eq!(Fields::from_parts(&Vec::new()).get("print"), None);
}

#[test]
fn fields_are_not_shown() {
    let mut fields = Fields::new();
    fields.insert("Title".to_string(), "a".to_string());
    assert_eq!(format!("{fields:?}"), "Fields { .. }");
    let info = pdf_process::parse_pdf_info("Title: a").unwrap();
    assert_eq!(format!("{info:?}"), "PdfInfo { data: Fields { .. } }");
}

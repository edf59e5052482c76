use timecode_previews::errors::PipelineError;
use timecode_previews::scanner::{scan_xml, trim};

#[test]
fn eleven_char_artwork_time_body_is_emitted() {
    let doc = "<root><artwork_time>01:02:03:04</artwork_time></root>";
    assert_eq!(scan_xml(doc), Ok(vec!["01:02:03:04".to_string()]));
}

#[test]
fn short_artwork_time_body_is_discarded() {
    let doc = "<root><artwork_time>1:2:3:4</artwork_time></root>";
    assert_eq!(scan_xml(doc), Ok(vec![]));
}

#[test]
fn bodies_are_trimmed_before_the_length_check() {
    let doc = "<root><artwork_time>  01:02:03:04  </artwork_time></root>";
    assert_eq!(scan_xml(doc), Ok(vec!["01:02:03:04".to_string()]));
}

#[test]
fn document_order_and_duplicates_are_preserved() {
    let doc = "<r>\
        <artwork_time>01:02:03:04</artwork_time>\
        <other>99:99:99:99</other>\
        <artwork_time>too short</artwork_time>\
        <artwork_time>01:02:03:04</artwork_time>\
        <artwork_time>00:00:10:00</artwork_time>\
        </r>";
    assert_eq!(
        scan_xml(doc),
        Ok(vec![
            "01:02:03:04".to_string(),
            "01:02:03:04".to_string(),
            "00:00:10:00".to_string(),
        ])
    );
}

#[test]
fn other_elements_are_never_emitted() {
    let doc = "<root><artwork_start>01:02:03:04</artwork_start></root>";
    assert_eq!(scan_xml(doc), Ok(vec![]));
}

#[test]
fn a_document_with_no_elements_yields_the_empty_sequence() {
    assert_eq!(scan_xml("<root/>"), Ok(vec![]));
}

#[test]
fn malformed_xml_is_a_syntax_failure() {
    let doc = "<root><artwork_time>01:02:03:04</root>";
    assert_eq!(scan_xml(doc), Err(PipelineError::XmlSyntax));
}

#[test]
fn trim_removes_leading_and_trailing_whitespace_only() {
    assert_eq!(trim(" \t a b \n "), "a b".to_string());
    assert_eq!(trim(""), "".to_string());
    assert_eq!(trim(" \r\n\t "), "".to_string());
    assert_eq!(trim("abc"), "abc".to_string());
}

#[test]
fn trim_removes_unicode_whitespace_as_str_trim_does() {
    let padded = "\u{a0}\u{2003}01:02:03:04\u{2028}\u{3000}";
    assert_eq!(trim(padded), padded.trim().to_string());
    assert_eq!(trim(padded), "01:02:03:04".to_string());
}

#[test]
fn bodies_padded_with_unicode_whitespace_are_still_emitted() {
    let doc = "<r><artwork_time>\u{a0}01:02:03:04\u{a0}</artwork_time></r>";
    assert_eq!(scan_xml(doc), Ok(vec!["01:02:03:04".to_string()]));
}

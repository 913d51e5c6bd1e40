use serde_xml::ser::{to_string, to_string_ns, to_writer, to_writer_ns};
use serde_xml::sink::{EventSink, Output};
use serde_xml::value::{Content, Entry, Value};

fn document_of(sink: EventSink) -> Vec<u8> {
    match sink.finish() {
        Output::Document(bytes) => bytes,
        Output::Events(_) => panic!("no document"),
    }
}

fn text(s: &str) -> Value {
    Value::Text(s.to_string())
}

fn entry(key: &str, value: Value) -> Entry {
    Entry { key: key.to_string(), value }
}

fn record(name: &str, fields: Vec<Entry>) -> Value {
    Value::Struct { name: name.to_string(), fields }
}

fn document(fields: Vec<Entry>) -> Value {
    record("document", fields)
}

fn variant(name: &str, content: Content) -> Value {
    Value::Variant { name: name.to_string(), content }
}

fn lines(all: &[&str]) -> String {
    all.join("\n")
}

#[test]
fn one_element() {
    let input = document(vec![entry("value", text("plain text"))]);

    let expected = lines(&[
        r#"<?xml version="1.0" encoding="UTF-8"?>"#,
        r#"<document>"#,
        r#"  <value>plain text</value>"#,
        r#"</document>"#,
    ]);

    let actual = to_string(&input).unwrap();

    assert_eq!(expected, actual);
}

#[test]
fn nested_elements() {
    let input = document(vec![
        entry("inner", record("InnerElement", vec![entry("value", text("plain text"))])),
    ]);

    let expected = lines(&[
        r#"<?xml version="1.0" encoding="UTF-8"?>"#,
        r#"<document>"#,
        r#"  <inner>"#,
        r#"    <value>plain text</value>"#,
        r#"  </inner>"#,
        r#"</document>"#,
    ]);

    let actual = to_string(&input).unwrap();

    assert_eq!(expected, actual);
}

#[test]
fn multiple_elements() {
    let input = document(vec![
        entry("first", text("plain text")),
        entry("second", text("more text")),
    ]);

    let expected = lines(&[
        r#"<?xml version="1.0" encoding="UTF-8"?>"#,
        r#"<document>"#,
        r#"  <first>plain text</first>"#,
        r#"  <second>more text</second>"#,
        r#"</document>"#,
    ]);

    let actual = to_string(&input).unwrap();

    assert_eq!(expected, actual);
}

#[test]
fn map() {
    let input = document(vec![
        entry(
            "content",
            Value::Mapping(vec![
                entry("second-key", text("more text")),
                entry("first.key", text("plain text")),
            ]),
        ),
    ]);

    let expected1 = lines(&[
        r#"<?xml version="1.0" encoding="UTF-8"?>"#,
        r#"<document>"#,
        r#"  <content>"#,
        r#"    <first.key>plain text</first.key>"#,
        r#"    <second-key>more text</second-key>"#,
        r#"  </content>"#,
        r#"</document>"#,
    ]);

    let expected2 = lines(&[
        r#"<?xml version="1.0" encoding="UTF-8"?>"#,
        r#"<document>"#,
        r#"  <content>"#,
        r#"    <second-key>more text</second-key>"#,
        r#"    <first.key>plain text</first.key>"#,
        r#"  </content>"#,
        r#"</document>"#,
    ]);

    let actual = to_string(&input).unwrap();

    assert!(vec![expected1.to_string(), expected2.to_string()].contains(&actual));
}

#[test]
fn sequence() {
    let input = document(vec![
        entry("item", Value::Sequence(vec![text("first"), text("second"), text("third")])),
    ]);

    let expected = lines(&[
        r#"<?xml version="1.0" encoding="UTF-8"?>"#,
        r#"<document>"#,
        r#"  <item>first</item>"#,
        r#"  <item>second</item>"#,
        r#"  <item>third</item>"#,
        r#"</document>"#,
    ]);

    let actual = to_string(&input).unwrap();

    assert_eq!(expected, actual);
}

#[test]
fn unit_variant() {
    let input = document(vec![entry("content", variant("a", Content::Unit))]);

    let expected = lines(&[
        r#"<?xml version="1.0" encoding="UTF-8"?>"#,
        r#"<document>"#,
        r#"  <content>a</content>"#,
        r#"</document>"#,
    ]);

    let actual = to_string(&input).unwrap();

    assert_eq!(expected, actual);
}

#[test]
fn struct_variant() {
    let input = document(vec![
        entry("content", variant("trump", Content::Struct(vec![entry("number", Value::UInt(21))]))),
    ]);

    let expected = lines(&[
        r#"<?xml version="1.0" encoding="UTF-8"?>"#,
        r#"<document>"#,
        r#"  <content>"#,
        r#"    <trump>"#,
        r#"      <number>21</number>"#,
        r#"    </trump>"#,
        r#"  </content>"#,
        r#"</document>"#,
    ]);

    let actual = to_string(&input).unwrap();

    assert_eq!(expected, actual);
}

#[test]
fn newtype_variant() {
    let input = document(vec![
        entry("content", variant("i", Content::Newtype(Box::new(Value::Int(42))))),
    ]);

    let expected = lines(&[
        r#"<?xml version="1.0" encoding="UTF-8"?>"#,
        r#"<document>"#,
        r#"  <content>"#,
        r#"    <i>42</i>"#,
        r#"  </content>"#,
        r#"</document>"#,
    ]);

    let actual = to_string(&input).unwrap();

    assert_eq!(expected, actual);
}

#[test]
fn tuple_variant() {
    let input = document(vec![
        entry("content", variant("kv", Content::Tuple(vec![text("abc"), text("123")]))),
    ]);

    let expected = lines(&[
        r#"<?xml version="1.0" encoding="UTF-8"?>"#,
        r#"<document>"#,
        r#"  <content>"#,
        r#"    <kv>abc 123</kv>"#,
        r#"  </content>"#,
        r#"</document>"#,
    ]);

    let actual = to_string(&input).unwrap();

    assert_eq!(expected, actual);
}

#[test]
fn tuple_struct() {
    let input = document(vec![entry("content", Value::Tuple(vec![text("abc"), text("123")]))]);

    let expected = lines(&[
        r#"<?xml version="1.0" encoding="UTF-8"?>"#,
        r#"<document>"#,
        r#"  <content>abc 123</content>"#,
        r#"</document>"#,
    ]);

    let actual = to_string(&input).unwrap();

    assert_eq!(expected, actual);
}

#[test]
fn tuple() {
    let input = document(vec![
        entry(
            "content",
            Value::Tuple(vec![Value::Int(123), text(&1.23f64.to_string()), text("abc")]),
        ),
    ]);

    let expected = lines(&[
        r#"<?xml version="1.0" encoding="UTF-8"?>"#,
        r#"<document>"#,
        r#"  <content>123 1.23 abc</content>"#,
        r#"</document>"#,
    ]);

    let actual = to_string(&input).unwrap();

    assert_eq!(expected, actual);
}

#[test]
fn types_unit() {
    let input = document(vec![entry("content", Value::Unit)]);

    let expected = lines(&[
        r#"<?xml version="1.0" encoding="UTF-8"?>"#,
        r#"<document>"#,
        r#"  <content />"#,
        r#"</document>"#,
    ]);

    let actual = to_string(&input).unwrap();

    assert_eq!(expected, actual);
}

#[test]
fn unit_struct() {
    let input = document(vec![entry("content", Value::Unit)]);

    let expected = lines(&[
        r#"<?xml version="1.0" encoding="UTF-8"?>"#,
        r#"<document>"#,
        r#"  <content />"#,
        r#"</document>"#,
    ]);

    let actual = to_string(&input).unwrap();

    assert_eq!(expected, actual);
}

#[test]
fn newtype_struct() {
    let input = document(vec![entry("content", text("abc"))]);

    let expected = lines(&[
        r#"<?xml version="1.0" encoding="UTF-8"?>"#,
        r#"<document>"#,
        r#"  <content>abc</content>"#,
        r#"</document>"#,
    ]);

    let actual = to_string(&input).unwrap();

    assert_eq!(expected, actual);
}

#[test]
fn absent() {
    let input = document(vec![entry("content", Value::Absent)]);

    let expected = lines(&[
        r#"<?xml version="1.0" encoding="UTF-8"?>"#,
        r#"<document>"#,
        r#"  <content />"#,
        r#"</document>"#,
    ]);

    let actual = to_string(&input).unwrap();

    assert_eq!(expected, actual);
}

#[test]
fn present() {
    let input = document(vec![entry("content", Value::Present(Box::new(text("123"))))]);

    let expected = lines(&[
        r#"<?xml version="1.0" encoding="UTF-8"?>"#,
        r#"<document>"#,
        r#"  <content>123</content>"#,
        r#"</document>"#,
    ]);

    let actual = to_string(&input).unwrap();

    assert_eq!(expected, actual);
}

#[test]
fn single() {
    let input = document(vec![
        entry("content", record("entity", vec![entry("@id", text("123"))])),
    ]);

    let expected = lines(&[
        r#"<?xml version="1.0" encoding="UTF-8"?>"#,
        r#"<document>"#,
        r#"  <content id="123" />"#,
        r#"</document>"#,
    ]);

    let actual = to_string(&input).unwrap();

    assert_eq!(expected, actual);
}

#[test]
fn multiple() {
    let input = document(vec![
        entry(
            "content",
            record("entity", vec![entry("@x", Value::Int(20)), entry("@y", Value::Int(40))]),
        ),
    ]);

    let expected1 = lines(&[
        r#"<?xml version="1.0" encoding="UTF-8"?>"#,
        r#"<document>"#,
        r#"  <content x="20" y="40" />"#,
        r#"</document>"#,
    ]);
    let expected2 = lines(&[
        r#"<?xml version="1.0" encoding="UTF-8"?>"#,
        r#"<document>"#,
        r#"  <content y="40" x="20" />"#,
        r#"</document>"#,
    ]);

    let actual = to_string(&input).unwrap();

    assert!(vec![expected1.to_string(), expected2.to_string()].contains(&actual));
}

#[test]
fn root() {
    let input = document(vec![entry("@version", text("1.2.3"))]);

    let expected = lines(&[
        r#"<?xml version="1.0" encoding="UTF-8"?>"#,
        r#"<document version="1.2.3" />"#,
    ]);

    let actual = to_string(&input).unwrap();

    assert_eq!(expected, actual);
}

#[test]
fn root_and_subtag() {
    let input = document(vec![entry("@version", text("1.2.3")), entry("content", text("abc"))]);

    let expected = lines(&[
        r#"<?xml version="1.0" encoding="UTF-8"?>"#,
        r#"<document version="1.2.3">"#,
        r#"  <content>abc</content>"#,
        r#"</document>"#,
    ]);

    let actual = to_string(&input).unwrap();

    assert_eq!(expected, actual);
}

#[test]
fn attribute_and_body() {
    let input = document(vec![
        entry("content", record("entity", vec![entry("@id", text("123")), entry(".", text("abc"))])),
    ]);

    let expected = lines(&[
        r#"<?xml version="1.0" encoding="UTF-8"?>"#,
        r#"<document>"#,
        r#"  <content id="123">abc</content>"#,
        r#"</document>"#,
    ]);

    let actual = to_string(&input).unwrap();

    assert_eq!(expected, actual);
}

#[test]
fn ns_root() {
    let input = document(vec![entry("content", text("abc 123"))]);

    let expected = lines(&[
        r#"<?xml version="1.0" encoding="UTF-8"?>"#,
        r#"<document xmlns="urn:example:document">"#,
        r#"  <content>abc 123</content>"#,
        r#"</document>"#,
    ]);

    let actual = to_string_ns(&input, Some("urn:example:document"), &[]).unwrap();

    assert_eq!(expected, actual);
}

#[test]
fn a_document_is_written_as_its_text_is_made() {
    let values = vec![
        document(vec![entry("value", text("plain text"))]),
        document(vec![
            entry("@id", text("1")),
            entry("item", Value::Sequence(vec![text("a"), text("b")])),
            entry("inner", record("inner", vec![entry(".", text("body"))])),
        ]),
        document(vec![]),
    ];
    for value in values {
        let expected = to_string(&value).unwrap();
        let mut sink = EventSink::document();
        to_writer(&mut sink, &value).unwrap();
        assert_eq!(document_of(sink), expected.clone().into_bytes());
        let mut sink = EventSink::document();
        to_writer_ns(&mut sink, &value, None, &[]).unwrap();
        assert_eq!(document_of(sink), expected.clone().into_bytes());
        assert_eq!(to_string_ns(&value, None, &[]).unwrap(), expected);
    }
}

#[test]
fn a_failed_encoding_leaves_what_was_written() {
    let value = document(vec![entry("value", text("x")), entry("@late", text("1"))]);
    let err = to_string(&value).unwrap_err();
    assert_eq!(err.to_text(), "cannot add attribute outside an open tag");
    let mut sink = EventSink::document();
    let err = to_writer(&mut sink, &value).unwrap_err();
    assert_eq!(err.to_text(), "cannot add attribute outside an open tag");
    let written = String::from_utf8(document_of(sink)).unwrap();
    assert!(written.ends_with("<document>\n  <value>x</value>"));
}

#[test]
fn a_document_is_written_once() {
    let value = document(vec![entry("value", text("x"))]);
    let mut sink = EventSink::document();
    to_writer(&mut sink, &value).unwrap();
    let before = to_string(&value).unwrap();
    assert!(to_writer(&mut sink, &value).is_err());
    assert_eq!(document_of(sink), before.into_bytes());
}

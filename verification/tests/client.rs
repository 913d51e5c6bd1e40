use serde_xml::sink::{EventSink, Output};
use serde_xml::value::{Entry, FieldShape, Shape, Value};

fn document_shape() -> Shape {
    Shape::Struct {
        name: "document".to_string(),
        fields: vec![FieldShape { key: "content".to_string(), shape: Shape::Text }],
    }
}

fn document(content: &str) -> Value {
    Value::Struct {
        name: "document".to_string(),
        fields: vec![
            Entry { key: "content".to_string(), value: Value::Text(content.to_string()) },
        ],
    }
}

#[test]
fn from_str() {
    let s = "<document><content>abc</content></document>";
    let document_read = serde_xml::de::from_str(s, &document_shape()).unwrap();
    assert_eq!(document_read, document("abc"));
}

#[test]
fn from_reader() {
    let s = "<document><content>abc</content></document>";
    let document_read = serde_xml::de::from_reader(s.as_bytes(), &document_shape()).unwrap();
    assert_eq!(document_read, document("abc"));
}

#[test]
fn to_string() {
    let document = document("abc");
    let s: String = serde_xml::ser::to_string(&document).unwrap();
    assert!(s.ends_with("<document>\n  <content>abc</content>\n</document>"));
}

#[test]
fn to_writer() {
    let document = document("abc");
    let mut writer = EventSink::document();
    serde_xml::ser::to_writer(&mut writer, &document).unwrap();
    match writer.finish() {
        Output::Document(bytes) => {
            let s = String::from_utf8(bytes).unwrap();
            assert!(s.ends_with("<document>\n  <content>abc</content>\n</document>"));
        },
        Output::Events(_) => panic!("no document"),
    }
}

use serde_xml::de::{from_source, from_str};
use serde_xml::event::{Attribute, Event};
use serde_xml::ser::{to_events, to_string, to_writer_ns};
use serde_xml::sink::{EventSink, Output};
use serde_xml::source::EventSource;
use serde_xml::value::{Content, ContentShape, Entry, FieldShape, Shape, Value, VariantShape};

fn text(s: &str) -> Value {
    Value::Text(s.to_string())
}

fn entry(key: &str, value: Value) -> Entry {
    Entry { key: key.to_string(), value }
}

fn record(name: &str, fields: Vec<Entry>) -> Value {
    Value::Struct { name: name.to_string(), fields }
}

fn field(key: &str, shape: Shape) -> FieldShape {
    FieldShape { key: key.to_string(), shape }
}

fn record_of(name: &str, fields: Vec<FieldShape>) -> Shape {
    Shape::Struct { name: name.to_string(), fields }
}

fn optional(shape: Shape) -> Shape {
    Shape::Optional(Box::new(shape))
}

fn sequence(shape: Shape) -> Shape {
    Shape::Sequence(Box::new(shape))
}

fn open(name: &str, attributes: &[(&str, &str)]) -> Event {
    Event::StartElement {
        name: name.to_string(),
        attributes: attributes
            .iter()
            .map(|(name, value)| Attribute { name: name.to_string(), value: value.to_string() })
            .collect(),
        namespaces: vec![],
    }
}

fn close(name: &str) -> Event {
    Event::EndElement { name: name.to_string() }
}

fn chars(s: &str) -> Event {
    Event::Characters(s.to_string())
}

fn shape_of_everything() -> Shape {
    let point = record_of("point", vec![field("@x", Shape::Int), field("@y", Shape::Int)]);
    let choice = Shape::Enum {
        variants: vec![
            VariantShape { name: "none".to_string(), content: ContentShape::Unit },
            VariantShape {
                name: "one".to_string(),
                content: ContentShape::Newtype(Box::new(Shape::UInt)),
            },
            VariantShape {
                name: "pair".to_string(),
                content: ContentShape::Tuple(vec![Shape::Text, Shape::Bool]),
            },
            VariantShape {
                name: "point".to_string(),
                content: ContentShape::Struct(vec![
                    field("@x", Shape::Int),
                    field("label", Shape::Text),
                ]),
            },
        ],
    };
    record_of(
        "everything",
        vec![
            field("@id", Shape::UInt),
            field("@note", optional(Shape::Text)),
            field("@gone", optional(Shape::Text)),
            field("@mode", Shape::Enum {
                variants: vec![
                    VariantShape { name: "on".to_string(), content: ContentShape::Unit },
                    VariantShape { name: "off".to_string(), content: ContentShape::Unit },
                ],
            }),
            field("unit", Shape::Unit),
            field("flag", Shape::Bool),
            field("count", Shape::Int),
            field("name", Shape::Text),
            field("maybe", optional(Shape::Text)),
            field("never", optional(Shape::Int)),
            field("item", sequence(Shape::Text)),
            field("empty", sequence(Shape::Text)),
            field("point", sequence(point)),
            field("triple", Shape::Tuple(vec![Shape::Int, Shape::Text, Shape::Bool])),
            field("table", Shape::Mapping(Box::new(Shape::Int))),
            field("a", Shape::Enum {
                variants: vec![
                    VariantShape { name: "none".to_string(), content: ContentShape::Unit },
                ],
            }),
            field("b", choice_clone(&choice)),
            field("c", choice_clone(&choice)),
            field("d", choice),
            field(
                "inner",
                record_of(
                    "inner",
                    vec![field("@kind", Shape::Text), field(".", Shape::Text)],
                ),
            ),
        ],
    )
}

fn choice_clone(shape: &Shape) -> Shape {
    match shape {
        Shape::Enum { variants } => Shape::Enum {
            variants: variants
                .iter()
                .map(|v| VariantShape {
                    name: v.name.clone(),
                    content: match &v.content {
                        ContentShape::Unit => ContentShape::Unit,
                        ContentShape::Newtype(_) => ContentShape::Newtype(Box::new(Shape::UInt)),
                        ContentShape::Tuple(_) => {
                            ContentShape::Tuple(vec![Shape::Text, Shape::Bool])
                        },
                        ContentShape::Struct(_) => ContentShape::Struct(vec![
                            field("@x", Shape::Int),
                            field("label", Shape::Text),
                        ]),
                    },
                })
                .collect(),
        },
        _ => panic!("no enumeration"),
    }
}

fn everything() -> Value {
    let point = |x: i64, y: i64| {
        record("point", vec![entry("@x", Value::Int(x)), entry("@y", Value::Int(y))])
    };
    record(
        "everything",
        vec![
            entry("@id", Value::UInt(7)),
            entry("@note", Value::Present(Box::new(text("a < b & c")))),
            entry("@gone", Value::Absent),
            entry("@mode", Value::Variant { name: "off".to_string(), content: Content::Unit }),
            entry("unit", Value::Unit),
            entry("flag", Value::Bool(false)),
            entry("count", Value::Int(-12)),
            entry("name", text("plain text")),
            entry("maybe", Value::Present(Box::new(text("there")))),
            entry("never", Value::Absent),
            entry("item", Value::Sequence(vec![text("first"), text("second"), text("third")])),
            entry("empty", Value::Sequence(vec![])),
            entry("point", Value::Sequence(vec![point(1, 2), point(-3, 4)])),
            entry("triple", Value::Tuple(vec![Value::Int(123), text("1.23"), Value::Bool(true)])),
            entry(
                "table",
                Value::Mapping(vec![entry("one", Value::Int(1)), entry("two", Value::Int(2))]),
            ),
            entry("a", Value::Variant { name: "none".to_string(), content: Content::Unit }),
            entry(
                "b",
                Value::Variant {
                    name: "one".to_string(),
                    content: Content::Newtype(Box::new(Value::UInt(21))),
                },
            ),
            entry(
                "c",
                Value::Variant {
                    name: "pair".to_string(),
                    content: Content::Tuple(vec![text("abc"), Value::Bool(true)]),
                },
            ),
            entry(
                "d",
                Value::Variant {
                    name: "point".to_string(),
                    content: Content::Struct(vec![
                        entry("@x", Value::Int(5)),
                        entry("label", text("here")),
                    ]),
                },
            ),
            entry("inner", record("inner", vec![entry("@kind", text("k")), entry(".", text("body"))])),
        ],
    )
}

#[test]
fn the_events_of_a_value_give_the_value_back() {
    let value = everything();
    let events = to_events(&value).unwrap();
    let read = from_source(EventSource::replay(events), &shape_of_everything()).unwrap();
    assert_eq!(read, value);
}

#[test]
fn the_document_of_a_value_gives_the_value_back() {
    let value = everything();
    let document = to_string(&value).unwrap();
    let read = from_str(&document, &shape_of_everything()).unwrap();
    assert_eq!(read, value);
}

#[test]
fn a_small_record_makes_these_events() {
    let value = record(
        "document",
        vec![
            entry("@version", text("1.2.3")),
            entry("item", Value::Sequence(vec![text("a"), text("b")])),
            entry("last", Value::Absent),
        ],
    );
    assert_eq!(
        to_events(&value).unwrap(),
        vec![
            Event::StartDocument,
            open("document", &[("version", "1.2.3")]),
            open("item", &[]),
            chars("a"),
            close("item"),
            open("item", &[]),
            chars("b"),
            close("item"),
            open("last", &[]),
            close("last"),
            close("document"),
        ]
    );
}

fn items_under(value: &Value, key: &str) -> Vec<Event> {
    let mut events = to_events(value).unwrap();
    events.pop();
    let inner: Vec<Event> = events.into_iter().skip(2).collect();
    for event in &inner {
        if let Event::StartElement { name, .. } = event {
            assert_eq!(name, key);
        }
        if let Event::EndElement { name } = event {
            assert_eq!(name, key);
        }
    }
    inner
}

#[test]
fn a_sequence_makes_one_element_for_every_item() {
    for n in 0..6usize {
        let items: Vec<Value> = (0..n).map(|i| Value::UInt(i as u64)).collect();
        let value = record("document", vec![entry("item", Value::Sequence(items))]);
        let inner = items_under(&value, "item");
        assert_eq!(inner.len(), 3 * n);
        for i in 0..n {
            assert_eq!(inner[3 * i], open("item", &[]));
            assert_eq!(inner[3 * i + 1], chars(&i.to_string()));
            assert_eq!(inner[3 * i + 2], close("item"));
        }
        let shape = record_of("document", vec![field("item", sequence(Shape::UInt))]);
        let read = from_source(EventSource::replay(to_events(&value).unwrap()), &shape).unwrap();
        assert_eq!(read, value);
        let read = from_str(&to_string(&value).unwrap(), &shape).unwrap();
        assert_eq!(read, value);
    }
}

#[test]
fn another_tag_ends_a_sequence() {
    let shape = record_of(
        "document",
        vec![field("item", sequence(Shape::Text)), field("other", Shape::Text)],
    );
    let expected = record(
        "document",
        vec![
            entry("item", Value::Sequence(vec![text("first"), text("second")])),
            entry("other", text("x")),
        ],
    );
    let input = "<document><item>first</item><item>second</item><other>x</other></document>";
    assert_eq!(from_str(input, &shape).unwrap(), expected);
}

#[test]
fn the_end_of_the_parent_ends_a_sequence() {
    let shape = record_of(
        "document",
        vec![field("other", Shape::Text), field("item", sequence(Shape::Text))],
    );
    let expected = record(
        "document",
        vec![
            entry("other", text("x")),
            entry("item", Value::Sequence(vec![text("first"), text("second")])),
        ],
    );
    let input = "<document><other>x</other><item>first</item><item>second</item></document>";
    assert_eq!(from_str(input, &shape).unwrap(), expected);
}

#[test]
fn a_tag_that_comes_once_is_a_sequence_of_one() {
    let shape = record_of("document", vec![field("item", sequence(Shape::Text))]);
    let expected = record("document", vec![entry("item", Value::Sequence(vec![text("only")]))]);
    assert_eq!(from_str("<document><item>only</item></document>", &shape).unwrap(), expected);
}

#[test]
fn a_tag_that_never_comes_is_a_sequence_of_none() {
    let shape = record_of("document", vec![field("item", sequence(Shape::Text))]);
    let expected = record("document", vec![entry("item", Value::Sequence(vec![]))]);
    assert_eq!(from_str("<document></document>", &shape).unwrap(), expected);
    assert_eq!(
        to_string(&expected).unwrap(),
        "<?xml version=\"1.0\" encoding=\"UTF-8\"?>\n<document />"
    );
}

#[test]
fn the_items_of_a_sequence_keep_their_attributes() {
    let point = record_of("point", vec![field("@x", Shape::Int), field("y", Shape::Int)]);
    let shape = record_of("document", vec![field("point", sequence(point))]);
    let expected = record(
        "document",
        vec![
            entry(
                "point",
                Value::Sequence(vec![
                    record("point", vec![entry("@x", Value::Int(1)), entry("y", Value::Int(2))]),
                    record("point", vec![entry("@x", Value::Int(3)), entry("y", Value::Int(4))]),
                ]),
            ),
        ],
    );
    let input = r#"<document><point x="1"><y>2</y></point><point x="3"><y>4</y></point></document>"#;
    assert_eq!(from_str(input, &shape).unwrap(), expected);
    assert_eq!(from_str(&to_string(&expected).unwrap(), &shape).unwrap(), expected);
}

#[test]
fn an_empty_element_and_no_element_are_both_absent() {
    let shape = record_of("document", vec![field("content", optional(Shape::Text))]);
    let empty = from_str("<document><content></content></document>", &shape).unwrap();
    let closed = from_str("<document><content /></document>", &shape).unwrap();
    let missing = from_str("<document></document>", &shape).unwrap();
    let absent = record("document", vec![entry("content", Value::Absent)]);
    assert_eq!(empty, absent);
    assert_eq!(closed, absent);
    assert_eq!(missing, absent);
    assert_eq!(empty, missing);
}

#[test]
fn an_attribute_and_a_text_stand_side_by_side() {
    let shape = record_of(
        "document",
        vec![
            field(
                "content",
                record_of("entity", vec![field("@id", Shape::Text), field(".", Shape::Text)]),
            ),
        ],
    );
    let value = from_str(r#"<document><content id="123">abc</content></document>"#, &shape)
        .unwrap();
    assert_eq!(
        value,
        record(
            "document",
            vec![
                entry(
                    "content",
                    record("entity", vec![entry("@id", text("123")), entry(".", text("abc"))]),
                ),
            ],
        )
    );
    assert_eq!(
        to_events(&value).unwrap(),
        vec![
            Event::StartDocument,
            open("document", &[]),
            open("content", &[("id", "123")]),
            chars("abc"),
            close("content"),
            close("document"),
        ]
    );
    assert!(to_string(&value).unwrap().ends_with("<content id=\"123\">abc</content>\n</document>"));
}

#[test]
fn a_text_names_a_case_and_a_tag_names_a_case() {
    let card = Shape::Enum {
        variants: vec![
            VariantShape {
                name: "trump".to_string(),
                content: ContentShape::Struct(vec![field("number", Shape::UInt)]),
            },
            VariantShape { name: "a".to_string(), content: ContentShape::Unit },
        ],
    };
    let shape = record_of("document", vec![field("content", card)]);
    assert_eq!(
        from_str("<document><content>a</content></document>", &shape).unwrap(),
        record(
            "document",
            vec![entry("content", Value::Variant { name: "a".to_string(), content: Content::Unit })],
        )
    );
    assert_eq!(
        from_str(
            "<document><content><trump><number>21</number></trump></content></document>",
            &shape
        )
        .unwrap(),
        record(
            "document",
            vec![
                entry(
                    "content",
                    Value::Variant {
                        name: "trump".to_string(),
                        content: Content::Struct(vec![entry("number", Value::UInt(21))]),
                    },
                ),
            ],
        )
    );
}

#[test]
fn a_root_with_one_attribute_closes_itself() {
    let shape = record_of("document", vec![field("@version", Shape::Text)]);
    let value = from_str(r#"<document version="1.2.3"></document>"#, &shape).unwrap();
    assert_eq!(value, record("document", vec![entry("@version", text("1.2.3"))]));
    let written = to_string(&value).unwrap();
    assert_eq!(written, "<?xml version=\"1.0\" encoding=\"UTF-8\"?>\n<document version=\"1.2.3\" />");
    assert_eq!(from_str(&written, &shape).unwrap(), value);
}

#[test]
fn texts_with_markup_in_them_come_back() {
    let shape = record_of(
        "document",
        vec![field("@a", Shape::Text), field("content", Shape::Text)],
    );
    let value = record(
        "document",
        vec![entry("@a", text("\"quoted\" & <tagged>")), entry("content", text("1 < 2 && 3 > 2"))],
    );
    assert_eq!(from_str(&to_string(&value).unwrap(), &shape).unwrap(), value);
}

#[test]
fn the_first_start_tag_declares_the_namespaces() {
    let value = record(
        "document",
        vec![entry("content", record("inner", vec![entry("value", text("x"))]))],
    );
    let mut sink = EventSink::memory();
    to_writer_ns(&mut sink, &value, Some("urn:default"), &[("p", "urn:p")]).unwrap();
    let events = match sink.finish() {
        Output::Events(events) => events,
        Output::Document(_) => panic!("no events"),
    };
    let declared: Vec<Vec<Attribute>> = events
        .into_iter()
        .filter_map(|e| match e {
            Event::StartElement { namespaces, .. } => Some(namespaces),
            _ => None,
        })
        .collect();
    assert_eq!(
        declared,
        vec![
            vec![
                Attribute { name: "".to_string(), value: "urn:default".to_string() },
                Attribute { name: "p".to_string(), value: "urn:p".to_string() },
            ],
            vec![],
            vec![],
        ]
    );

    let mut sink = EventSink::document();
    to_writer_ns(&mut sink, &value, Some("urn:default"), &[("p", "urn:p")]).unwrap();
    match sink.finish() {
        Output::Document(bytes) => {
            let written = String::from_utf8(bytes).unwrap();
            assert!(written.contains(r#"<document xmlns="urn:default" xmlns:p="urn:p">"#));
            assert!(written.contains("<content>"));
        },
        Output::Events(_) => panic!("no document"),
    }
}

#[test]
fn sequences_stand_in_cases_and_in_maps() {
    let shape = record_of(
        "document",
        vec![
            field(
                "content",
                Shape::Enum {
                    variants: vec![VariantShape {
                        name: "v".to_string(),
                        content: ContentShape::Newtype(Box::new(sequence(Shape::Text))),
                    }],
                },
            ),
            field("table", Shape::Mapping(Box::new(sequence(Shape::Int)))),
            field("maybe", optional(sequence(Shape::Bool))),
        ],
    );
    let value = record(
        "document",
        vec![
            entry(
                "content",
                Value::Variant {
                    name: "v".to_string(),
                    content: Content::Newtype(Box::new(Value::Sequence(vec![text("a"), text("b")]))),
                },
            ),
            entry(
                "table",
                Value::Mapping(vec![
                    entry("k", Value::Sequence(vec![Value::Int(1), Value::Int(2)])),
                    entry("j", Value::Sequence(vec![Value::Int(3)])),
                ]),
            ),
            entry(
                "maybe",
                Value::Present(Box::new(Value::Sequence(vec![Value::Bool(true), Value::Bool(false)]))),
            ),
        ],
    );
    let input = "<document><content><v>a</v><v>b</v></content>\
        <table><k>1</k><k>2</k><j>3</j></table>\
        <maybe>true</maybe><maybe>false</maybe></document>";
    assert_eq!(from_str(input, &shape).unwrap(), value);
    let events = to_events(&value).unwrap();
    assert_eq!(from_source(EventSource::replay(events), &shape).unwrap(), value);
    assert_eq!(from_str(&to_string(&value).unwrap(), &shape).unwrap(), value);
}

#[test]
fn a_sequence_of_sequences_runs_together() {
    let shape = record_of("document", vec![field("item", sequence(sequence(Shape::Text)))]);
    let value = record(
        "document",
        vec![
            entry(
                "item",
                Value::Sequence(vec![
                    Value::Sequence(vec![text("a"), text("b")]),
                    Value::Sequence(vec![text("c")]),
                ]),
            ),
        ],
    );
    let read = from_str(&to_string(&value).unwrap(), &shape).unwrap();
    assert_eq!(
        read,
        record(
            "document",
            vec![
                entry(
                    "item",
                    Value::Sequence(vec![Value::Sequence(vec![text("a"), text("b"), text("c")])]),
                ),
            ],
        )
    );
}

#[test]
fn what_is_there_but_empty_comes_back_absent() {
    let shape = record_of("document", vec![field("content", optional(Shape::Unit))]);
    let value = record("document", vec![entry("content", Value::Present(Box::new(Value::Unit)))]);
    assert_eq!(
        from_str(&to_string(&value).unwrap(), &shape).unwrap(),
        record("document", vec![entry("content", Value::Absent)])
    );
}

fn parsed(text: &str) -> Vec<Event> {
    let mut source = EventSource::parse(text.as_bytes());
    let mut events = Vec::new();
    loop {
        match source.next().unwrap() {
            Event::EndDocument => return events,
            event => events.push(event),
        }
    }
}

#[test]
fn a_parser_yields_the_events_that_were_written() {
    let values = vec![
        record("document", vec![entry("content", text("a b"))]),
        record(
            "document",
            vec![
                entry("@id", Value::Int(-7)),
                entry("item", Value::Sequence(vec![Value::UInt(1), Value::UInt(2)])),
                entry("inner", record("inner", vec![entry("@k", text("v")), entry(".", text("body"))])),
                entry("pair", Value::Tuple(vec![text("x"), Value::Bool(true)])),
                entry("nothing", Value::Absent),
            ],
        ),
    ];
    for value in values {
        let written = to_events(&value).unwrap();
        assert_eq!(parsed(&to_string(&value).unwrap()), written);
    }
}

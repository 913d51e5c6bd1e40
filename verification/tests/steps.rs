use serde_xml::de::map::MapAccess;
use serde_xml::de::seq::SeqAccess;
use serde_xml::de::tuple::TupleAccess;
use serde_xml::de::var::{UnitVariantAccess, VariantAccess};
use serde_xml::de::{from_source, from_str, Deserializer, Route};
use serde_xml::event::{Attribute, Event};
use serde_xml::ser::Serializer;
use serde_xml::sink::{EventSink, Output};
use serde_xml::source::EventSource;
use serde_xml::value::{Entry, FieldShape, Shape, Value};

fn open(name: &str, attributes: &[(&str, &str)]) -> Event {
    Event::StartElement {
        name: name.to_string(),
        attributes: attributes
            .iter()
            .map(|(name, value)| Attribute { name: name.to_string(), value: value.to_string() })
            .collect(),
        namespaces: vec![],
    }
}

fn close(name: &str) -> Event {
    Event::EndElement { name: name.to_string() }
}

fn chars(s: &str) -> Event {
    Event::Characters(s.to_string())
}

fn decoder(events: Vec<Event>) -> Deserializer {
    Deserializer::new(EventSource::replay(events)).unwrap()
}

fn written(ser: Serializer) -> Vec<Event> {
    match ser.into_writer().finish() {
        Output::Events(events) => events,
        Output::Document(_) => panic!("no events"),
    }
}

#[test]
fn a_source_yields_its_events_and_then_the_end_for_ever() {
    let mut source = EventSource::replay(vec![Event::StartDocument, chars("a")]);
    assert_eq!(source.next().unwrap(), Event::StartDocument);
    assert_eq!(source.next().unwrap(), chars("a"));
    assert_eq!(source.next().unwrap(), Event::EndDocument);
    assert_eq!(source.next().unwrap(), Event::EndDocument);
}

#[test]
fn a_parser_yields_the_events_of_its_document() {
    let mut source =
        EventSource::parse("<a x=\"1\" p:y=\"2\" xmlns:p=\"urn:p\"><p:b> t </p:b><!-- c --></a>".as_bytes());
    assert_eq!(source.next().unwrap(), Event::StartDocument);
    assert_eq!(source.next().unwrap(), open("a", &[("x", "1"), ("p:y", "2")]));
    assert_eq!(source.next().unwrap(), open("p:b", &[]));
    assert_eq!(source.next().unwrap(), chars("t"));
    assert_eq!(source.next().unwrap(), close("p:b"));
    assert_eq!(source.next().unwrap(), close("a"));
    assert_eq!(source.next().unwrap(), Event::EndDocument);
    assert_eq!(source.next().unwrap(), Event::EndDocument);
}

#[test]
fn a_parser_that_failed_fails_again() {
    let mut source = EventSource::parse("<a></b>".as_bytes());
    assert_eq!(source.next().unwrap(), Event::StartDocument);
    assert_eq!(source.next().unwrap(), open("a", &[]));
    assert!(source.next().is_err());
    assert!(source.next().is_err());
}

#[test]
fn a_glance_reads_nothing() {
    let mut de = decoder(vec![chars("a"), chars("b")]);
    assert_eq!(de.peek().unwrap(), &chars("a"));
    assert_eq!(de.peek().unwrap(), &chars("a"));
    assert_eq!(de.next().unwrap(), chars("a"));
    assert_eq!(de.next().unwrap(), chars("b"));
    assert_eq!(de.peek().unwrap(), &Event::EndDocument);
    assert_eq!(de.next().unwrap(), Event::EndDocument);
    assert_eq!(de.next().unwrap(), Event::EndDocument);
}

#[test]
fn what_no_reader_needs_to_see_is_passed_over() {
    let mut de = decoder(vec![
        Event::Comment,
        Event::StartDocument,
        Event::ProcessingInstruction,
        Event::ProcessingInstruction,
        chars("a"),
        Event::Comment,
    ]);
    assert_eq!(de.next().unwrap(), Event::StartDocument);
    assert_eq!(de.peek().unwrap(), &chars("a"));
    assert_eq!(de.next().unwrap(), chars("a"));
    assert_eq!(de.next().unwrap(), Event::EndDocument);
}

#[test]
fn processing_instructions_and_comments_do_not_show_in_a_document() {
    let shape = Shape::Struct {
        name: "document".to_string(),
        fields: vec![FieldShape { key: "content".to_string(), shape: Shape::Text }],
    };
    let input = "<?xml version=\"1.0\"?><?pi one?><document><!-- c --><?pi two?><content>a<!-- c -->b</content></document>";
    assert_eq!(
        from_str(input, &shape).unwrap(),
        Value::Struct {
            name: "document".to_string(),
            fields: vec![Entry { key: "content".to_string(), value: Value::Text("ab".to_string()) }],
        }
    );
}

#[test]
fn the_boundaries_of_the_document_are_checked() {
    let mut de = decoder(vec![Event::StartDocument, open("a", &[("k", "v")]), close("a")]);
    de.start_document().unwrap();
    let (name, attributes) = de.start_tag().unwrap();
    assert_eq!(name, "a");
    assert_eq!(attributes, vec![Attribute { name: "k".to_string(), value: "v".to_string() }]);
    assert!(de.end_tag("b").is_err());
    assert!(de.end_document().is_ok());

    let mut de = decoder(vec![chars("a")]);
    assert!(de.start_document().is_err());
    let mut de = decoder(vec![chars("a")]);
    assert!(de.end_document().is_err());
    let mut de = decoder(vec![chars("a")]);
    assert!(de.start_tag().is_err());
    let mut de = decoder(vec![open("a", &[])]);
    assert!(de.characters().is_err());
    let mut de = decoder(vec![chars("a")]);
    assert_eq!(de.characters().unwrap(), "a");
}

#[test]
fn the_tag_context_is_set_and_cleared() {
    let mut de = decoder(vec![open("a", &[("k", "v")]), close("a")]);
    assert_eq!(de.current_tag(), None);
    assert!(de.is_root());
    assert_eq!(de.open_tag().unwrap(), "a");
    assert_eq!(de.current_tag(), Some("a".to_string()));
    assert_eq!(
        de.take_attributes(),
        vec![Attribute { name: "k".to_string(), value: "v".to_string() }]
    );
    assert_eq!(de.take_attributes(), vec![]);
    de.clear_tag().unwrap();
    assert_eq!(de.current_tag(), None);
    de.finish_element("a").unwrap();
    de.mark_closed();
    de.finish_element("a").unwrap();
    assert_eq!(de.next().unwrap(), Event::EndDocument);
}

#[test]
fn the_routes_follow_what_comes_next() {
    let mut de = decoder(vec![open("a", &[]), close("a"), chars("t"), Event::CData]);
    assert_eq!(de.any_route().unwrap(), Route::Mapping);
    assert_eq!(de.option_route().unwrap(), true);
    assert_eq!(de.enum_route().unwrap(), true);
    de.next().unwrap();
    assert_eq!(de.any_route().unwrap(), Route::Unit);
    assert_eq!(de.option_route().unwrap(), false);
    assert!(de.enum_route().is_err());
    de.next().unwrap();
    assert_eq!(de.any_route().unwrap(), Route::Text);
    assert_eq!(de.option_route().unwrap(), true);
    assert_eq!(de.enum_route().unwrap(), false);
    de.next().unwrap();
    assert_eq!(de.any_route().unwrap(), Route::Text);
    assert!(de.enum_route().is_err());
    de.next().unwrap();
    assert_eq!(de.any_route().unwrap(), Route::Text);
}

#[test]
fn the_keys_of_an_element_are_its_attributes_then_its_content() {
    let mut de = decoder(vec![
        Event::StartDocument,
        open("a", &[("x", "1"), ("p:y", "2")]),
        chars("body"),
        open("b", &[("z", "3")]),
        chars("inner"),
        close("b"),
        close("a"),
    ]);
    let (root, mut access) = de.map_begin().unwrap();
    assert_eq!(root, Some("a".to_string()));
    assert!(!de.is_root());

    assert_eq!(access.next_key(&mut de).unwrap(), Some("@x".to_string()));
    assert_eq!(access.next_value().unwrap().characters().unwrap(), "1");
    assert_eq!(access.next_key(&mut de).unwrap(), Some("@p:y".to_string()));
    assert_eq!(access.next_value().unwrap().characters().unwrap(), "2");
    assert_eq!(access.next_key(&mut de).unwrap(), Some(".".to_string()));
    assert_eq!(access.next_value().unwrap().characters().unwrap(), "body");
    assert_eq!(access.next_key(&mut de).unwrap(), Some("b".to_string()));
    assert!(access.next_value().is_none());
    assert_eq!(de.current_tag(), Some("b".to_string()));

    let (inner_root, mut inner) = de.map_begin().unwrap();
    assert_eq!(inner_root, None);
    assert_eq!(inner.next_key(&mut de).unwrap(), Some("@z".to_string()));
    assert_eq!(inner.next_value().unwrap().characters().unwrap(), "3");
    assert_eq!(inner.next_key(&mut de).unwrap(), Some(".".to_string()));
    assert_eq!(inner.next_value().unwrap().characters().unwrap(), "inner");
    assert_eq!(inner.next_key(&mut de).unwrap(), None);
    assert_eq!(inner.next_key(&mut de).unwrap(), None);
    de.map_end(inner_root).unwrap();

    access.finish_value(&mut de).unwrap();
    assert_eq!(access.next_key(&mut de).unwrap(), None);
    de.map_end(root).unwrap();
    assert_eq!(de.next().unwrap(), Event::EndDocument);
}

#[test]
fn a_sequence_goes_on_as_long_as_its_tag_repeats() {
    let mut de = decoder(vec![
        open("item", &[]),
        chars("a"),
        close("item"),
        open("item", &[("k", "v")]),
        chars("b"),
        close("item"),
        open("other", &[]),
    ]);
    de.open_tag().unwrap();
    let mut access = SeqAccess::new(&de).unwrap();
    assert!(access.next_element(&mut de).unwrap());
    assert_eq!(de.characters().unwrap(), "a");
    assert!(access.next_element(&mut de).unwrap());
    assert_eq!(
        de.take_attributes(),
        vec![Attribute { name: "k".to_string(), value: "v".to_string() }]
    );
    assert_eq!(de.characters().unwrap(), "b");
    assert!(!access.next_element(&mut de).unwrap());
    assert_eq!(de.peek().unwrap(), &open("other", &[]));
    de.finish_element("item").unwrap();
    assert_eq!(de.peek().unwrap(), &open("other", &[]));
    assert!(de.finish_element("item").is_err());
}

#[test]
fn a_tuple_hands_out_its_tokens() {
    let mut de = decoder(vec![chars(" 123  1.23\nabc ")]);
    let mut access = TupleAccess::new(&mut de).unwrap();
    assert_eq!(access.next_element().unwrap().characters().unwrap(), "123");
    assert_eq!(access.next_element().unwrap().characters().unwrap(), "1.23");
    assert_eq!(access.next_element().unwrap().characters().unwrap(), "abc");
    assert!(access.next_element().is_none());
    assert!(access.next_element().is_none());

    let mut de = decoder(vec![open("a", &[])]);
    assert!(TupleAccess::new(&mut de).is_err());
}

#[test]
fn a_case_is_named_by_its_tag_or_by_a_text() {
    let mut de = decoder(vec![open("trump", &[]), chars("a")]);
    assert!(VariantAccess::new(&de).is_err());
    de.open_tag().unwrap();
    let access = VariantAccess::new(&de).unwrap();
    assert_eq!(access.variant(), "trump");
    assert!(access.unit_variant().is_err());

    let access = UnitVariantAccess::new();
    assert_eq!(access.variant(&mut de).unwrap(), "a");
    assert!(access.unit_variant().is_ok());
    assert!(UnitVariantAccess::new().newtype_variant().is_err());
    assert!(UnitVariantAccess::new().tuple_variant().is_err());
    assert!(UnitVariantAccess::new().struct_variant().is_err());
}

#[test]
fn whatever_comes_is_decoded_as_it_comes() {
    let document = "<document kind=\"k\"><a>abc</a><b><c>1</c><c>2</c></b><d></d></document>";
    let text = |s: &str| Value::Text(s.to_string());
    let entry = |key: &str, value: Value| Entry { key: key.to_string(), value };
    assert_eq!(
        from_str(document, &Shape::Mapping(Box::new(Shape::Any))).unwrap(),
        Value::Mapping(vec![
            entry("@kind", text("k")),
            entry("a", text("abc")),
            entry("b", Value::Mapping(vec![entry("c", text("1")), entry("c", text("2"))])),
            entry("d", Value::Unit),
        ])
    );
}

#[test]
fn a_key_that_no_field_has_is_passed_over() {
    let shape = Shape::Struct {
        name: "document".to_string(),
        fields: vec![FieldShape { key: "wanted".to_string(), shape: Shape::Text }],
    };
    let document =
        "<document extra=\"1\"><more><deep>x</deep></more><wanted>w</wanted><empty/></document>";
    assert_eq!(
        from_str(document, &shape).unwrap(),
        Value::Struct {
            name: "document".to_string(),
            fields: vec![Entry { key: "wanted".to_string(), value: Value::Text("w".to_string()) }],
        }
    );
}

#[test]
fn a_value_in_an_attribute_may_be_optional_or_a_case() {
    let shape = Shape::Struct {
        name: "document".to_string(),
        fields: vec![
            FieldShape { key: "@a".to_string(), shape: Shape::Optional(Box::new(Shape::Int)) },
            FieldShape {
                key: "@b".to_string(),
                shape: Shape::Enum {
                    variants: vec![serde_xml::value::VariantShape {
                        name: "on".to_string(),
                        content: serde_xml::value::ContentShape::Unit,
                    }],
                },
            },
            FieldShape { key: "@c".to_string(), shape: Shape::Any },
        ],
    };
    assert_eq!(
        from_source(
            EventSource::replay(vec![
                Event::StartDocument,
                open("document", &[("a", "5"), ("b", "on"), ("c", "free")]),
                close("document"),
                Event::EndDocument,
            ]),
            &shape
        )
        .unwrap(),
        Value::Struct {
            name: "document".to_string(),
            fields: vec![
                Entry { key: "@a".to_string(), value: Value::Present(Box::new(Value::Int(5))) },
                Entry {
                    key: "@b".to_string(),
                    value: Value::Variant {
                        name: "on".to_string(),
                        content: serde_xml::value::Content::Unit,
                    },
                },
                Entry { key: "@c".to_string(), value: Value::Text("free".to_string()) },
            ],
        }
    );
}

#[test]
fn a_start_tag_waits_for_its_attributes() {
    let mut ser = Serializer::new(EventSink::memory(), None, &[]);
    ser.open_root_tag("document").unwrap();
    assert!(ser.has_pending_tag());
    assert_eq!(ser.current_tag(), "document");
    ser.add_attr("b", "1".to_string()).unwrap();
    ser.add_attr("a", "2".to_string()).unwrap();
    ser.add_attr("b", "3".to_string()).unwrap();
    assert!(ser.build_start_tag().unwrap());
    assert!(!ser.has_pending_tag());
    assert!(!ser.build_start_tag().unwrap());
    assert!(!ser.build_start_tag().unwrap());
    ser.characters("text").unwrap();
    ser.end_tag().unwrap();
    assert_eq!(
        written(ser),
        vec![
            Event::StartDocument,
            open("document", &[("b", "3"), ("a", "2")]),
            chars("text"),
            close("document"),
        ]
    );
}

#[test]
fn the_root_is_opened_once() {
    let mut ser = Serializer::new(EventSink::memory(), None, &[]);
    ser.open_root_tag("first").unwrap();
    ser.open_root_tag("second").unwrap();
    assert_eq!(ser.current_tag(), "first");
    ser.build_start_tag().unwrap();
    ser.open_tag("child").unwrap();
    ser.abandon_tag().unwrap();
    assert!(!ser.has_pending_tag());
    assert_eq!(ser.current_tag(), "");
    ser.open_tag("child").unwrap();
    ser.add_attr("k", "v".to_string()).unwrap();
    ser.reopen_tag().unwrap();
    ser.serialize_unit().unwrap();
    ser.close(false).unwrap();
    ser.close(true).unwrap();
    assert_eq!(
        written(ser),
        vec![
            Event::StartDocument,
            open("first", &[]),
            open("child", &[]),
            close("child"),
            close("first"),
        ]
    );
}

#[test]
fn a_scalar_closes_the_tag_that_it_wrote() {
    let mut ser = Serializer::new(EventSink::memory(), None, &[]);
    ser.serialize_str("loose").unwrap();
    ser.open_tag("a").unwrap();
    ser.serialize_i64(-5).unwrap();
    ser.open_tag("b").unwrap();
    ser.serialize_u64(5).unwrap();
    ser.open_tag("c").unwrap();
    ser.serialize_bool(true).unwrap();
    ser.open_tag("d").unwrap();
    ser.serialize_none().unwrap();
    ser.open_tag("e").unwrap();
    ser.serialize_unit_variant("on").unwrap();
    ser.serialize_none().unwrap();
    assert_eq!(
        written(ser),
        vec![
            chars("loose"),
            open("a", &[]),
            chars("-5"),
            close("a"),
            open("b", &[]),
            chars("5"),
            close("b"),
            open("c", &[]),
            chars("true"),
            close("c"),
            open("d", &[]),
            close("d"),
            open("e", &[]),
            chars("on"),
            close("e"),
        ]
    );
}

#[test]
fn nothing_is_flushed_where_nothing_waits() {
    let mut ser = Serializer::new(EventSink::document(), None, &[]);
    assert!(!ser.build_start_tag().unwrap());
    assert!(!ser.has_pending_tag());
    match ser.into_writer().finish() {
        Output::Document(bytes) => assert!(bytes.is_empty()),
        Output::Events(_) => panic!("no document"),
    }

    let mut ser = Serializer::new(EventSink::document(), None, &[]);
    ser.open_root_tag("document").unwrap();
    assert!(ser.build_start_tag().unwrap());
    assert!(!ser.build_start_tag().unwrap());
    ser.end_tag().unwrap();
    assert!(!ser.build_start_tag().unwrap());
    match ser.into_writer().finish() {
        Output::Document(bytes) => {
            let text = String::from_utf8(bytes).unwrap();
            assert_eq!(text.matches("<document").count(), 1);
        },
        Output::Events(_) => panic!("no document"),
    }
}

#[test]
fn the_root_is_refused_where_the_document_has_started() {
    let mut sink = EventSink::memory();
    sink.characters("x").unwrap();
    let mut ser = Serializer::new(sink, None, &[]);
    assert!(ser.open_root_tag("document").is_err());
    let mut ser = Serializer::new(EventSink::document(), None, &[]);
    ser.start_document().unwrap();
    assert!(ser.start_document().is_err());
    assert!(ser.open_root_tag("document").is_err());
}

#[test]
fn an_end_tag_closes_the_innermost_element() {
    let mut ser = Serializer::new(EventSink::memory(), None, &[]);
    ser.start_tag("a", vec![]).unwrap();
    ser.start_tag("b", vec![]).unwrap();
    ser.end_tag().unwrap();
    ser.end_tag().unwrap();
    assert!(ser.end_tag().is_err());
    assert_eq!(written(ser), vec![open("a", &[]), open("b", &[]), close("b"), close("a")]);
}

#[test]
fn an_event_that_is_refused_is_read_all_the_same() {
    let mut de = decoder(vec![open("a", &[]), chars("x"), close("a"), chars("y")]);
    assert!(de.characters().is_err());
    assert_eq!(de.characters().unwrap(), "x");
    assert!(de.start_tag().is_err());
    assert_eq!(de.next().unwrap(), chars("y"));
    let mut de = decoder(vec![chars("x"), open("a", &[]), close("a"), close("b")]);
    assert!(de.open_tag().is_err());
    let (name, _) = de.start_tag().unwrap();
    assert_eq!(name, "a");
    assert!(de.end_tag("b").is_err());
    assert!(de.finish_element("a").is_err());
    assert_eq!(de.next().unwrap(), Event::EndDocument);
}

use serde_xml::de::from_str;
use serde_xml::ser::to_string;
use serde_xml::value::{Content, ContentShape, Entry, FieldShape, Shape, Value, VariantShape};

fn round_trip(object: &Value, shape: &Shape) {
    let actual_repr = to_string(object).unwrap();
    let actual = from_str(&actual_repr, shape).unwrap();

    assert_eq!(object, &actual);
}

fn text(s: &str) -> Value {
    Value::Text(s.to_string())
}

fn entry(key: &str, value: Value) -> Entry {
    Entry { key: key.to_string(), value }
}

fn record(name: &str, fields: Vec<Entry>) -> Value {
    Value::Struct { name: name.to_string(), fields }
}

fn document(fields: Vec<Entry>) -> Value {
    record("document", fields)
}

fn variant(name: &str, content: Content) -> Value {
    Value::Variant { name: name.to_string(), content }
}

fn field(key: &str, shape: Shape) -> FieldShape {
    FieldShape { key: key.to_string(), shape }
}

fn record_of(name: &str, fields: Vec<FieldShape>) -> Shape {
    Shape::Struct { name: name.to_string(), fields }
}

fn document_of(fields: Vec<FieldShape>) -> Shape {
    record_of("document", fields)
}

fn unit_case(name: &str) -> VariantShape {
    VariantShape { name: name.to_string(), content: ContentShape::Unit }
}

fn case(name: &str, content: ContentShape) -> VariantShape {
    VariantShape { name: name.to_string(), content }
}

#[test]
fn round_trip_one_element() {
    let object = document(vec![entry("value", text("plain text"))]);

    round_trip(&object, &document_of(vec![field("value", Shape::Text)]));
}

#[test]
fn round_trip_nested_elements() {
    let object = document(vec![
        entry("inner", record("InnerElement", vec![entry("value", text("plain text"))])),
    ]);

    round_trip(
        &object,
        &document_of(vec![
            field("inner", record_of("InnerElement", vec![field("value", Shape::Text)])),
        ]),
    );
}

#[test]
fn round_trip_multiple_elements() {
    let object = document(vec![
        entry("first", text("plain text")),
        entry("second", text("more text")),
    ]);

    round_trip(
        &object,
        &document_of(vec![field("first", Shape::Text), field("second", Shape::Text)]),
    );
}

#[test]
fn round_trip_map() {
    let object = document(vec![
        entry(
            "content",
            Value::Mapping(vec![
                entry("first.key", text("plain text")),
                entry("second-key", text("more text")),
            ]),
        ),
    ]);

    round_trip(
        &object,
        &document_of(vec![field("content", Shape::Mapping(Box::new(Shape::Text)))]),
    );
}

#[test]
fn round_trip_sequence() {
    let object = document(vec![
        entry("item", Value::Sequence(vec![text("first"), text("second"), text("third")])),
    ]);

    round_trip(
        &object,
        &document_of(vec![field("item", Shape::Sequence(Box::new(Shape::Text)))]),
    );
}

#[test]
fn round_trip_unit_variant() {
    let object = document(vec![entry("content", variant("a", Content::Unit))]);

    round_trip(
        &object,
        &document_of(vec![
            field(
                "content",
                Shape::Enum { variants: vec![unit_case("a"), unit_case("b"), unit_case("c")] },
            ),
        ]),
    );
}

fn suit() -> Shape {
    Shape::Enum {
        variants: vec![
            unit_case("clubs"),
            unit_case("diamonds"),
            unit_case("hearts"),
            unit_case("spades"),
        ],
    }
}

fn rank() -> Shape {
    Shape::Enum {
        variants: vec![
            unit_case("ace"),
            unit_case("two"),
            unit_case("three"),
            unit_case("four"),
            unit_case("five"),
            unit_case("six"),
            unit_case("seven"),
            unit_case("eight"),
            unit_case("nine"),
            unit_case("ten"),
            unit_case("jack"),
            unit_case("knight"),
            unit_case("queen"),
            unit_case("king"),
        ],
    }
}

#[test]
fn round_trip_struct_variant() {
    let object = document(vec![
        entry("content", variant("trump", Content::Struct(vec![entry("number", Value::UInt(21))]))),
    ]);

    let card = Shape::Enum {
        variants: vec![
            case("trump", ContentShape::Struct(vec![field("number", Shape::UInt)])),
            unit_case("fool"),
            case(
                "suited",
                ContentShape::Struct(vec![field("suit", suit()), field("rank", rank())]),
            ),
        ],
    };

    round_trip(&object, &document_of(vec![field("content", card)]));
}

fn number_or_text() -> Vec<VariantShape> {
    vec![
        case("i", ContentShape::Newtype(Box::new(Shape::Int))),
        case("f", ContentShape::Newtype(Box::new(Shape::Text))),
        case("s", ContentShape::Newtype(Box::new(Shape::Text))),
    ]
}

#[test]
fn round_trip_newtype_variant() {
    let object = document(vec![
        entry("content", variant("i", Content::Newtype(Box::new(Value::Int(42))))),
    ]);

    round_trip(
        &object,
        &document_of(vec![field("content", Shape::Enum { variants: number_or_text() })]),
    );
}

#[test]
fn round_trip_tuple_variant() {
    let object = document(vec![
        entry("content", variant("kv", Content::Tuple(vec![text("abc"), text("123")]))),
    ]);

    let mut variants = number_or_text();
    variants.push(case("kv", ContentShape::Tuple(vec![Shape::Text, Shape::Text])));

    round_trip(&object, &document_of(vec![field("content", Shape::Enum { variants })]));
}

#[test]
fn round_trip_tuple_struct() {
    let object = document(vec![entry("content", Value::Tuple(vec![text("abc"), text("123")]))]);

    round_trip(
        &object,
        &document_of(vec![field("content", Shape::Tuple(vec![Shape::Text, Shape::Text]))]),
    );
}

#[test]
fn round_trip_tuple() {
    let object = document(vec![
        entry(
            "content",
            Value::Tuple(vec![Value::Int(123), text(&1.23f64.to_string()), text("abc")]),
        ),
    ]);

    round_trip(
        &object,
        &document_of(vec![
            field("content", Shape::Tuple(vec![Shape::Int, Shape::Text, Shape::Text])),
        ]),
    );
}

#[test]
fn round_trip_types_bool() {
    let object = record("Document", vec![entry("content", Value::Bool(true))]);

    round_trip(&object, &record_of("Document", vec![field("content", Shape::Bool)]));
}

#[test]
fn round_trip_types_unit() {
    let object = document(vec![entry("content", Value::Unit)]);

    round_trip(&object, &document_of(vec![field("content", Shape::Unit)]));
}

#[test]
fn round_trip_unit_struct() {
    let object = document(vec![entry("content", Value::Unit)]);

    round_trip(&object, &document_of(vec![field("content", Shape::Unit)]));
}

#[test]
fn round_trip_newtype_struct() {
    let object = document(vec![entry("content", text("abc"))]);

    round_trip(&object, &document_of(vec![field("content", Shape::Text)]));
}

fn optional_content() -> Shape {
    document_of(vec![field("content", Shape::Optional(Box::new(Shape::Text)))])
}

#[test]
fn round_trip_absent() {
    let object = document(vec![entry("content", Value::Absent)]);

    round_trip(&object, &optional_content());
}

#[test]
fn round_trip_present() {
    let object = document(vec![entry("content", Value::Present(Box::new(text("123"))))]);

    round_trip(&object, &optional_content());
}

#[test]
fn round_trip_single() {
    let object = document(vec![
        entry("content", record("entity", vec![entry("@id", text("123"))])),
    ]);

    round_trip(
        &object,
        &document_of(vec![field("content", record_of("entity", vec![field("@id", Shape::Text)]))]),
    );
}

#[test]
fn round_trip_root() {
    let object = document(vec![entry("@version", text("1.2.3"))]);

    round_trip(&object, &document_of(vec![field("@version", Shape::Text)]));
}

#[test]
fn round_trip_root_and_subtag() {
    let object = document(vec![entry("@version", text("1.2.3")), entry("content", text("abc"))]);

    round_trip(
        &object,
        &document_of(vec![field("@version", Shape::Text), field("content", Shape::Text)]),
    );
}

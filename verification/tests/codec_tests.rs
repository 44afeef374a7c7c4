use doctree::codec::decode_heading_level;
use doctree::codec::MAX_NODE_DEPTH;
use doctree::codec::decode_node;
use doctree::codec::decode_node_type;
use doctree::codec::encode_heading_level;
use doctree::codec::encode_node;
use doctree::codec::encode_node_type;
use doctree::ident::decode_id;
use doctree::ident::encode_id;
use doctree::value::Value;
use doctree::Error;
use doctree::HeadingLevel;
use doctree::Node;
use doctree::NodeType;
use doctree::TextFormat;
use doctree::TextNode;

fn plain_format(size: u8) -> TextFormat {
    TextFormat { size, underline: false, strong: false, strikethrough: false, emphasis: false }
}

fn text(content: &str, size: u8) -> TextNode {
    TextNode { content: String::from(content), format: plain_format(size) }
}

fn leaf(id: u128, node_type: NodeType, contents: Vec<TextNode>) -> Node {
    Node { id, node_type, contents, children: None }
}

fn id_field(id: &str) -> (String, Value) {
    (String::from("id"), Value::Str(String::from(id)))
}

fn node_value(id: &str, node_type: Value, children: Value, contents: Value) -> Value {
    Value::Obj(vec![
        id_field(id),
        (String::from("node_type"), node_type),
        (String::from("children"), children),
        (String::from("contents"), contents),
    ])
}

const SAMPLE_ID: u128 = 0x0123456789abcdef0123456789abcdefu128;
const SAMPLE_ID_TEXT: &str = "01234567-89ab-cdef-0123-456789abcdef";

#[test]
fn identifier_encodes_canonically() {
    assert_eq!(encode_id(SAMPLE_ID), SAMPLE_ID_TEXT);
    assert_eq!(encode_id(0), "00000000-0000-0000-0000-000000000000");
    assert_eq!(encode_id(u128::MAX), "ffffffff-ffff-ffff-ffff-ffffffffffff");
}

#[test]
fn identifier_round_trips() {
    for id in [0u128, 1, SAMPLE_ID, u128::MAX, 0x8000_0000_0000_0000_0000_0000_0000_0001] {
        assert_eq!(decode_id(&encode_id(id)), Ok(id));
    }
}

#[test]
fn identifier_accepts_uppercase_digits() {
    assert_eq!(decode_id("01234567-89AB-CDEF-0123-456789ABCDEF"), Ok(SAMPLE_ID));
}

#[test]
fn identifier_rejects_malformed_strings() {
    for bad in [
        "not-a-uuid",
        "",
        "01234567-89ab-cdef-0123-456789abcde",
        "01234567-89ab-cdef-0123-456789abcdef0",
        "0123456789ab-cdef-0123-456789abcdef",
        "01234567-89ab-cdef-0123-456789abcdeg",
        "01234567_89ab_cdef_0123_456789abcdef",
        "xyz",
    ] {
        assert_eq!(decode_id(bad), Err(Error::MalformedIdentifier));
    }
}

#[test]
fn heading_level_encodes_one_through_six() {
    let levels = [
        HeadingLevel::Level1,
        HeadingLevel::Level2,
        HeadingLevel::Level3,
        HeadingLevel::Level4,
        HeadingLevel::Level5,
        HeadingLevel::Level6,
    ];
    for (i, level) in levels.iter().enumerate() {
        assert_eq!(encode_heading_level(level), (i + 1) as i64);
    }
}

#[test]
fn heading_level_decode_clamps() {
    assert_eq!(decode_heading_level(0), HeadingLevel::Level1);
    assert_eq!(decode_heading_level(1), HeadingLevel::Level1);
    assert_eq!(decode_heading_level(2), HeadingLevel::Level2);
    assert_eq!(decode_heading_level(3), HeadingLevel::Level3);
    assert_eq!(decode_heading_level(4), HeadingLevel::Level4);
    assert_eq!(decode_heading_level(5), HeadingLevel::Level5);
    assert_eq!(decode_heading_level(6), HeadingLevel::Level6);
    assert_eq!(decode_heading_level(7), HeadingLevel::Level6);
    assert_eq!(decode_heading_level(-1), HeadingLevel::Level6);
    assert_eq!(decode_heading_level(i64::MIN), HeadingLevel::Level6);
    assert_eq!(decode_heading_level(i64::MAX), HeadingLevel::Level6);
}

#[test]
fn tag_shapes_match_the_convention() {
    assert_eq!(encode_node_type(&NodeType::Root), Value::Str(String::from("Root")));
    assert_eq!(encode_node_type(&NodeType::Paragraph), Value::Str(String::from("Paragraph")));
    assert_eq!(
        encode_node_type(&NodeType::List(true)),
        Value::Obj(vec![(String::from("List"), Value::Bool(true))])
    );
    assert_eq!(
        encode_node_type(&NodeType::Heading(HeadingLevel::Level2)),
        Value::Obj(vec![(String::from("Heading"), Value::Int(2))])
    );
    assert_eq!(
        encode_node_type(&NodeType::ListItem(7)),
        Value::Obj(vec![(String::from("ListItem"), Value::Int(7))])
    );
}

#[test]
fn node_type_round_trips() {
    let cases = [
        NodeType::Root,
        NodeType::Paragraph,
        NodeType::Heading(HeadingLevel::Level5),
        NodeType::ListItem(255),
        NodeType::List(false),
    ];
    for t in cases {
        assert_eq!(decode_node_type(&encode_node_type(&t)), Ok(t));
    }
}

#[test]
fn unknown_tag_is_rejected() {
    assert_eq!(
        decode_node_type(&Value::Str(String::from("Bogus"))),
        Err(Error::UnknownNodeType)
    );
    assert_eq!(
        decode_node_type(&Value::Obj(vec![(String::from("Bogus"), Value::Int(1))])),
        Err(Error::UnknownNodeType)
    );
}

#[test]
fn known_tag_with_bad_payload_is_an_integrity_error() {
    assert_eq!(
        decode_node_type(&Value::Str(String::from("Heading"))),
        Err(Error::IntegrityError)
    );
    assert_eq!(
        decode_node_type(&Value::Obj(vec![(String::from("Heading"), Value::Bool(true))])),
        Err(Error::IntegrityError)
    );
    assert_eq!(
        decode_node_type(&Value::Obj(vec![(String::from("ListItem"), Value::Int(300))])),
        Err(Error::IntegrityError)
    );
    assert_eq!(
        decode_node_type(&Value::Obj(vec![(String::from("Root"), Value::Null)])),
        Err(Error::IntegrityError)
    );
    assert_eq!(decode_node_type(&Value::Int(3)), Err(Error::IntegrityError));
}

#[test]
fn heading_clamp_applies_through_the_node_type_codec() {
    assert_eq!(
        decode_node_type(&Value::Obj(vec![(String::from("Heading"), Value::Int(-1))])),
        Ok(NodeType::Heading(HeadingLevel::Level6))
    );
    assert_eq!(
        decode_node_type(&Value::Obj(vec![(String::from("Heading"), Value::Int(0))])),
        Ok(NodeType::Heading(HeadingLevel::Level1))
    );
}

#[test]
fn node_round_trips_with_nested_children_and_runs() {
    let tree = Node {
        id: SAMPLE_ID,
        node_type: NodeType::Root,
        contents: vec![text("first", 10), text("second", 11)],
        children: Some(vec![
            leaf(1, NodeType::Heading(HeadingLevel::Level3), vec![text("title", 14)]),
            Node {
                id: 2,
                node_type: NodeType::List(true),
                contents: vec![],
                children: Some(vec![
                    leaf(3, NodeType::ListItem(0), vec![text("a", 9)]),
                    leaf(4, NodeType::ListItem(1), vec![text("b", 9)]),
                ]),
            },
        ]),
    };
    let decoded = decode_node(&encode_node(&tree)).expect("round trip must succeed");
    assert_eq!(decoded, tree);
}

#[test]
fn absent_children_stay_distinct_from_empty_children() {
    let absent = leaf(5, NodeType::Paragraph, vec![]);
    let encoded_absent = encode_node(&absent);
    match &encoded_absent {
        Value::Obj(fields) => {
            assert_eq!(fields[2].0, "children");
            assert_eq!(fields[2].1, Value::Null);
        }
        other => panic!("expected an object, got {:?}", other),
    }
    let decoded_absent = decode_node(&encoded_absent).unwrap();
    assert_eq!(decoded_absent.children, None);

    let empty = Node { id: 6, node_type: NodeType::Paragraph, contents: vec![], children: Some(vec![]) };
    let encoded_empty = encode_node(&empty);
    match &encoded_empty {
        Value::Obj(fields) => {
            assert_eq!(fields[2].0, "children");
            assert_eq!(fields[2].1, Value::Arr(vec![]));
        }
        other => panic!("expected an object, got {:?}", other),
    }
    let decoded_empty = decode_node(&encoded_empty).unwrap();
    assert_eq!(decoded_empty.children, Some(vec![]));
}

#[test]
fn node_with_bogus_tag_is_rejected() {
    let v = node_value(
        SAMPLE_ID_TEXT,
        Value::Str(String::from("Bogus")),
        Value::Null,
        Value::Arr(vec![]),
    );
    assert_eq!(decode_node(&v), Err(Error::UnknownNodeType));
}

#[test]
fn node_with_malformed_id_is_rejected() {
    let v = node_value(
        "xyz",
        Value::Str(String::from("Paragraph")),
        Value::Null,
        Value::Arr(vec![]),
    );
    assert_eq!(decode_node(&v), Err(Error::MalformedIdentifier));
}

#[test]
fn node_with_missing_fields_is_an_integrity_error() {
    let missing_id = Value::Obj(vec![(
        String::from("node_type"),
        Value::Str(String::from("Paragraph")),
    )]);
    assert_eq!(decode_node(&missing_id), Err(Error::IntegrityError));

    let missing_contents = Value::Obj(vec![
        id_field(SAMPLE_ID_TEXT),
        (String::from("node_type"), Value::Str(String::from("Paragraph"))),
        (String::from("children"), Value::Null),
    ]);
    assert_eq!(decode_node(&missing_contents), Err(Error::IntegrityError));

    assert_eq!(decode_node(&Value::Int(1)), Err(Error::IntegrityError));
}

#[test]
fn a_failing_child_fails_the_whole_node() {
    let bad_child = node_value(
        "xyz",
        Value::Str(String::from("Paragraph")),
        Value::Null,
        Value::Arr(vec![]),
    );
    let good = encode_node(&leaf(7, NodeType::Paragraph, vec![]));
    let parent = node_value(
        SAMPLE_ID_TEXT,
        Value::Str(String::from("Root")),
        Value::Arr(vec![good, bad_child]),
        Value::Arr(vec![]),
    );
    assert_eq!(decode_node(&parent), Err(Error::MalformedIdentifier));
}

#[test]
fn field_order_does_not_matter_when_decoding() {
    let v = Value::Obj(vec![
        (String::from("contents"), Value::Arr(vec![])),
        (String::from("node_type"), Value::Str(String::from("Paragraph"))),
        id_field(SAMPLE_ID_TEXT),
        (String::from("children"), Value::Null),
    ]);
    let n = decode_node(&v).unwrap();
    assert_eq!(n.id, SAMPLE_ID);
    assert_eq!(n.node_type, NodeType::Paragraph);
    assert_eq!(n.contents, vec![]);
    assert_eq!(n.children, None);
}

#[test]
fn new_nodes_default_to_empty_paragraphs() {
    let a = Node::new();
    assert_eq!(a.node_type, NodeType::Paragraph);
    assert!(a.contents.is_empty());
    assert_eq!(a.children, None);
}

#[test]
fn text_format_fields_survive_a_round_trip() {
    let fancy = TextFormat {
        size: 255,
        underline: true,
        strong: false,
        strikethrough: true,
        emphasis: true,
    };
    let node = leaf(
        8,
        NodeType::Paragraph,
        vec![TextNode { content: String::from("styled"), format: fancy }],
    );
    let decoded = decode_node(&encode_node(&node)).unwrap();
    assert_eq!(
        decoded.contents,
        vec![TextNode { content: String::from("styled"), format: fancy }]
    );
}

fn chain(depth: usize) -> Node {
    let mut node = Node {
        id: depth as u128,
        node_type: NodeType::Paragraph,
        contents: vec![],
        children: None,
    };
    for level in 1..depth {
        node = Node {
            id: level as u128,
            node_type: NodeType::Paragraph,
            contents: vec![],
            children: Some(vec![node]),
        };
    }
    node
}

#[test]
fn nesting_at_the_depth_bound_round_trips() {
    let tree = chain(MAX_NODE_DEPTH);
    let decoded = decode_node(&encode_node(&tree)).expect("a tree at the bound must decode");
    assert_eq!(decoded, tree);
}

#[test]
fn nesting_beyond_the_depth_bound_is_rejected() {
    let tree = chain(MAX_NODE_DEPTH + 1);
    assert_eq!(decode_node(&encode_node(&tree)), Err(Error::IntegrityError));
}

#[test]
fn text_format_out_of_range_size_is_rejected() {
    let v = node_value(
        SAMPLE_ID_TEXT,
        Value::Str(String::from("Paragraph")),
        Value::Null,
        Value::Arr(vec![Value::Obj(vec![
            (String::from("content"), Value::Str(String::from("x"))),
            (
                String::from("format"),
                Value::Obj(vec![
                    (String::from("size"), Value::Int(256)),
                    (String::from("underline"), Value::Bool(false)),
                    (String::from("strong"), Value::Bool(false)),
                    (String::from("strikethrough"), Value::Bool(false)),
                    (String::from("emphasis"), Value::Bool(false)),
                ]),
            ),
        ])]),
    );
    assert_eq!(decode_node(&v), Err(Error::IntegrityError));
}

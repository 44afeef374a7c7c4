use doctree::container::decode_character;
use doctree::container::decode_chapter;
use doctree::container::decode_document;
use doctree::container::decode_project;
use doctree::container::decode_setting;
use doctree::container::encode_character;
use doctree::container::encode_chapter;
use doctree::container::encode_document;
use doctree::container::encode_project;
use doctree::container::encode_setting;
use doctree::value::Value;
use doctree::Chapter;
use doctree::Character;
use doctree::Document;
use doctree::Error;
use doctree::HeadingLevel;
use doctree::Node;
use doctree::NodeType;
use doctree::Project;
use doctree::Setting;
use doctree::TextFormat;
use doctree::TextNode;

fn hello_run() -> TextNode {
    TextNode {
        content: String::from("hello"),
        format: TextFormat {
            size: 12,
            underline: false,
            strong: true,
            strikethrough: false,
            emphasis: false,
        },
    }
}

fn hello_document() -> Document {
    Document {
        root: Node {
            id: 0xfeedface,
            node_type: NodeType::Root,
            contents: vec![],
            children: Some(vec![Node {
                id: 0xdeadbeef,
                node_type: NodeType::Paragraph,
                contents: vec![hello_run()],
                children: None,
            }]),
        },
    }
}

fn obj_field<'a>(v: &'a Value, key: &str) -> &'a Value {
    match v {
        Value::Obj(fields) => {
            for (k, fv) in fields {
                if k == key {
                    return fv;
                }
            }
            panic!("field {} is missing", key);
        }
        other => panic!("expected an object, got {:?}", other),
    }
}

#[test]
fn document_end_to_end_matches_the_grammar_and_round_trips() {
    let doc = hello_document();
    let encoded = encode_document(&doc);

    let root = obj_field(&encoded, "root");
    assert_eq!(
        obj_field(root, "id"),
        &Value::Str(String::from("00000000-0000-0000-0000-0000feedface"))
    );
    assert_eq!(obj_field(root, "node_type"), &Value::Str(String::from("Root")));
    let children = match obj_field(root, "children") {
        Value::Arr(children) => children,
        other => panic!("expected an array of children, got {:?}", other),
    };
    assert_eq!(children.len(), 1);
    assert_eq!(
        obj_field(&children[0], "node_type"),
        &Value::Str(String::from("Paragraph"))
    );
    let runs = match obj_field(&children[0], "contents") {
        Value::Arr(runs) => runs,
        other => panic!("expected an array of runs, got {:?}", other),
    };
    assert_eq!(obj_field(&runs[0], "content"), &Value::Str(String::from("hello")));
    let format = obj_field(&runs[0], "format");
    assert_eq!(obj_field(format, "size"), &Value::Int(12));
    assert_eq!(obj_field(format, "underline"), &Value::Bool(false));
    assert_eq!(obj_field(format, "strong"), &Value::Bool(true));
    assert_eq!(obj_field(format, "strikethrough"), &Value::Bool(false));
    assert_eq!(obj_field(format, "emphasis"), &Value::Bool(false));

    let decoded = decode_document(&encoded).expect("round trip must succeed");
    assert_eq!(decoded, doc);
}

#[test]
fn document_without_root_is_an_integrity_error() {
    let v = Value::Obj(vec![(String::from("title"), Value::Str(String::from("x")))]);
    assert_eq!(decode_document(&v), Err(Error::IntegrityError));
    assert_eq!(decode_document(&Value::Null), Err(Error::IntegrityError));
}

#[test]
fn chapter_round_trips_with_and_without_title() {
    let untitled = Chapter { num: 3, title: None, pages: hello_document() };
    let encoded = encode_chapter(&untitled);
    assert_eq!(obj_field(&encoded, "num"), &Value::Int(3));
    assert_eq!(obj_field(&encoded, "title"), &Value::Null);
    assert_eq!(decode_chapter(&encoded), Ok(untitled));

    let titled = Chapter {
        num: 4,
        title: Some(String::from("")),
        pages: hello_document(),
    };
    let encoded = encode_chapter(&titled);
    assert_eq!(obj_field(&encoded, "title"), &Value::Str(String::new()));
    let decoded = decode_chapter(&encoded).unwrap();
    assert_eq!(decoded.title, Some(String::new()));
    assert_eq!(decoded, titled);
}

#[test]
fn chapter_with_ill_shaped_title_is_rejected() {
    let v = Value::Obj(vec![
        (String::from("num"), Value::Int(1)),
        (String::from("title"), Value::Int(9)),
        (
            String::from("pages"),
            encode_document(&hello_document()),
        ),
    ]);
    assert_eq!(decode_chapter(&v), Err(Error::IntegrityError));
}

#[test]
fn project_round_trips_preserving_chapter_order() {
    let project = Project {
        name: String::from("archive"),
        books: vec![
            Chapter { num: 1, title: Some(String::from("one")), pages: hello_document() },
            Chapter { num: 2, title: None, pages: hello_document() },
        ],
    };
    let decoded = decode_project(&encode_project(&project)).unwrap();
    assert_eq!(decoded, project);
    assert_eq!(decoded.books[0].num, 1);
    assert_eq!(decoded.books[1].num, 2);
}

#[test]
fn character_and_setting_round_trip() {
    let character = Character {
        name: String::from("traveller"),
        origin: Setting { description: hello_document() },
        description: hello_document(),
    };
    let encoded = encode_character(&character);
    assert_eq!(obj_field(&encoded, "name"), &Value::Str(String::from("traveller")));
    assert_eq!(decode_character(&encoded), Ok(character));

    let setting = Setting { description: hello_document() };
    assert_eq!(decode_setting(&encode_setting(&setting)), Ok(setting));
}

#[test]
fn a_malformed_node_invalidates_the_whole_container() {
    let mut doc = hello_document();
    doc.root.node_type = NodeType::Heading(HeadingLevel::Level2);
    let encoded = encode_document(&doc);
    // rebuild the same object with a corrupted root id
    let corrupted = match encoded {
        Value::Obj(fields) => Value::Obj(
            fields
                .into_iter()
                .map(|(k, v)| {
                    if k == "root" {
                        let root = match v {
                            Value::Obj(rf) => Value::Obj(
                                rf.into_iter()
                                    .map(|(rk, rv)| {
                                        if rk == "id" {
                                            (rk, Value::Str(String::from("broken")))
                                        } else {
                                            (rk, rv)
                                        }
                                    })
                                    .collect(),
                            ),
                            other => other,
                        };
                        (k, root)
                    } else {
                        (k, v)
                    }
                })
                .collect(),
        ),
        other => other,
    };
    assert_eq!(decode_document(&corrupted), Err(Error::MalformedIdentifier));
}

#[test]
fn fresh_documents_wrap_a_fresh_empty_paragraph_root() {
    let d = Document::new();
    let root = d.root_node();
    assert_eq!(root.node_type, NodeType::Paragraph);
    assert!(root.contents.is_empty());
    assert_eq!(root.children, None);
}

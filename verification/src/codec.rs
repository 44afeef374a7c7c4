//! The wire codec for the node tree: every model type encodes to a
//! [`Value`] and decodes back.
//!
//! Encoding conventions, which the spec functions here pin down exactly:
//! identifiers encode per [`crate::ident`]; unit node-type variants encode
//! as the bare variant name, payload-carrying variants as a single-entry
//! keyed object; a heading level encodes as a plain integer `1..=6` and
//! decodes leniently, clamping every unknown value (negative ones
//! included) to `Level6`; `children` encodes as null when absent; and a
//! node decodes only if its identifier, node type, every text run and
//! every child decode — there are no partial trees.  Decoding bounds its
//! recursion depth at [`MAX_NODE_DEPTH`] levels of nesting and rejects
//! anything deeper, so no input can drive the stack arbitrarily far.

use vstd::prelude::*;
use vstd::string::*;

use crate::error::Error;
use crate::ident::decode_id;
use crate::ident::encode_id;
use crate::ident::is_valid_id_chars;
use crate::ident::lemma_id_round_trip;
use crate::ident::spec_decode_id;
use crate::ident::spec_encode_id;
use crate::model::HeadingLevel;
use crate::model::Node;
use crate::model::NodeType;
use crate::model::NodeView;
use crate::model::TextFormat;
use crate::model::TextNode;
use crate::model::TextNodeView;
use crate::model::lemma_nodes_depth;
use crate::model::lemma_nodes_view;
use crate::model::node_depth;
use crate::model::nodes_depth;
use crate::model::node_view;
use crate::model::nodes_view;
use crate::model::text_node_view;
use crate::model::text_nodes_view;
use crate::value::Value;
use crate::value::ValueView;
use crate::value::fields_view;
use crate::value::key_index;
use crate::value::lemma_fields_view;
use crate::value::lemma_key_index_first;
use crate::value::lemma_values_view;
use crate::value::obj_get;
use crate::value::obj_get_exec;
use crate::value::value_view;
use crate::value::values_view;

verus! {

/// The most levels of node nesting the decoder accepts; a deeper tree is
/// rejected as ill-shaped rather than recursed into.
pub const MAX_NODE_DEPTH: usize = 128;

// ---------------------------------------------------------------------
// spec encoding
// ---------------------------------------------------------------------
pub open spec fn spec_encode_heading_level(l: HeadingLevel) -> i64 {
    match l {
        HeadingLevel::Level1 => 1,
        HeadingLevel::Level2 => 2,
        HeadingLevel::Level3 => 3,
        HeadingLevel::Level4 => 4,
        HeadingLevel::Level5 => 5,
        HeadingLevel::Level6 => 6,
    }
}

/// The lenient heading-level table: 0 and 1 give `Level1`, 2 through 5
/// give their own level, and every other value — 6, anything above, and
/// every negative value alike — degrades to `Level6`.
pub open spec fn spec_decode_heading_level(i: i64) -> HeadingLevel {
    if i == 0 || i == 1 {
        HeadingLevel::Level1
    } else if i == 2 {
        HeadingLevel::Level2
    } else if i == 3 {
        HeadingLevel::Level3
    } else if i == 4 {
        HeadingLevel::Level4
    } else if i == 5 {
        HeadingLevel::Level5
    } else {
        HeadingLevel::Level6
    }
}

pub open spec fn spec_encode_node_type(t: NodeType) -> ValueView {
    match t {
        NodeType::Root => ValueView::Str("Root"@),
        NodeType::Paragraph => ValueView::Str("Paragraph"@),
        NodeType::Heading(l) => ValueView::Obj(
            seq![("Heading"@, ValueView::Int(spec_encode_heading_level(l)))],
        ),
        NodeType::ListItem(p) => ValueView::Obj(seq![("ListItem"@, ValueView::Int(p as i64))]),
        NodeType::List(o) => ValueView::Obj(seq![("List"@, ValueView::Bool(o))]),
    }
}

pub open spec fn spec_encode_text_format(f: TextFormat) -> ValueView {
    ValueView::Obj(
        seq![
            ("size"@, ValueView::Int(f.size as i64)),
            ("underline"@, ValueView::Bool(f.underline)),
            ("strong"@, ValueView::Bool(f.strong)),
            ("strikethrough"@, ValueView::Bool(f.strikethrough)),
            ("emphasis"@, ValueView::Bool(f.emphasis)),
        ],
    )
}

pub open spec fn spec_encode_text_node(t: TextNodeView) -> ValueView {
    ValueView::Obj(
        seq![
            ("content"@, ValueView::Str(t.content)),
            ("format"@, spec_encode_text_format(t.format)),
        ],
    )
}

pub open spec fn spec_encode_texts(s: Seq<TextNodeView>) -> Seq<ValueView> {
    Seq::new(s.len(), |i: int| spec_encode_text_node(s[i]))
}

pub open spec fn spec_encode_node(n: NodeView) -> ValueView
    decreases n,
{
    ValueView::Obj(
        seq![
            ("id"@, ValueView::Str(spec_encode_id(n.id))),
            ("node_type"@, spec_encode_node_type(n.node_type)),
            (
                "children"@,
                match n.children {
                    Option::None => ValueView::Null,
                    Option::Some(c) => ValueView::Arr(spec_encode_nodes(c)),
                },
            ),
            ("contents"@, ValueView::Arr(spec_encode_texts(n.contents))),
        ],
    )
}

pub open spec fn spec_encode_nodes(s: Seq<NodeView>) -> Seq<ValueView>
    decreases s,
{
    if s.len() == 0 {
        Seq::empty()
    } else {
        seq![spec_encode_node(s[0])] + spec_encode_nodes(s.subrange(1, s.len() as int))
    }
}

/// Encoding a node sequence encodes each node in order.
pub broadcast proof fn lemma_spec_encode_nodes(s: Seq<NodeView>)
    ensures
        (#[trigger] spec_encode_nodes(s)).len() == s.len(),
        forall|i: int| 0 <= i < s.len() ==> spec_encode_nodes(s)[i] == spec_encode_node(s[i]),
    decreases s.len(),
{
    if s.len() != 0 {
        lemma_spec_encode_nodes(s.subrange(1, s.len() as int));
        assert forall|i: int| 0 <= i < s.len() implies spec_encode_nodes(s)[i] == spec_encode_node(
            s[i],
        ) by {
            if i > 0 {
                assert(s.subrange(1, s.len() as int)[i - 1] == s[i]);
            }
        }
    }
}

// ---------------------------------------------------------------------
// spec decoding
// ---------------------------------------------------------------------
pub open spec fn spec_decode_node_type(v: ValueView) -> Result<NodeType, Error> {
    match v {
        ValueView::Str(s) => if s == "Root"@ {
            Result::Ok(NodeType::Root)
        } else if s == "Paragraph"@ {
            Result::Ok(NodeType::Paragraph)
        } else if s == "Heading"@ || s == "List"@ || s == "ListItem"@ {
            // a known tag whose payload is missing
            Result::Err(Error::IntegrityError)
        } else {
            Result::Err(Error::UnknownNodeType)
        },
        ValueView::Obj(fs) => if fs.len() != 1 {
            Result::Err(Error::IntegrityError)
        } else if fs[0].0 == "Heading"@ {
            match fs[0].1 {
                ValueView::Int(i) => Result::Ok(NodeType::Heading(spec_decode_heading_level(i))),
                _ => Result::Err(Error::IntegrityError),
            }
        } else if fs[0].0 == "List"@ {
            match fs[0].1 {
                ValueView::Bool(b) => Result::Ok(NodeType::List(b)),
                _ => Result::Err(Error::IntegrityError),
            }
        } else if fs[0].0 == "ListItem"@ {
            match fs[0].1 {
                ValueView::Int(i) => if 0 <= i <= 255 {
                    Result::Ok(NodeType::ListItem(i as u8))
                } else {
                    Result::Err(Error::IntegrityError)
                },
                _ => Result::Err(Error::IntegrityError),
            }
        } else if fs[0].0 == "Root"@ || fs[0].0 == "Paragraph"@ {
            // a known tag that takes no payload
            Result::Err(Error::IntegrityError)
        } else {
            Result::Err(Error::UnknownNodeType)
        },
        _ => Result::Err(Error::IntegrityError),
    }
}

pub open spec fn spec_decode_text_format(v: ValueView) -> Result<TextFormat, Error> {
    match v {
        ValueView::Obj(fs) => match (
            obj_get(fs, "size"@),
            obj_get(fs, "underline"@),
            obj_get(fs, "strong"@),
            obj_get(fs, "strikethrough"@),
            obj_get(fs, "emphasis"@),
        ) {
            (
                Option::Some(ValueView::Int(size)),
                Option::Some(ValueView::Bool(underline)),
                Option::Some(ValueView::Bool(strong)),
                Option::Some(ValueView::Bool(strikethrough)),
                Option::Some(ValueView::Bool(emphasis)),
            ) => if 0 <= size <= 255 {
                Result::Ok(
                    TextFormat {
                        size: size as u8,
                        underline,
                        strong,
                        strikethrough,
                        emphasis,
                    },
                )
            } else {
                Result::Err(Error::IntegrityError)
            },
            _ => Result::Err(Error::IntegrityError),
        },
        _ => Result::Err(Error::IntegrityError),
    }
}

pub open spec fn spec_decode_text_node(v: ValueView) -> Result<TextNodeView, Error> {
    match v {
        ValueView::Obj(fs) => match (obj_get(fs, "content"@), obj_get(fs, "format"@)) {
            (Option::Some(ValueView::Str(content)), Option::Some(fv)) => match spec_decode_text_format(
                fv,
            ) {
                Result::Ok(format) => Result::Ok(TextNodeView { content, format }),
                Result::Err(e) => Result::Err(e),
            },
            _ => Result::Err(Error::IntegrityError),
        },
        _ => Result::Err(Error::IntegrityError),
    }
}

pub open spec fn spec_decode_texts(vs: Seq<ValueView>) -> Result<Seq<TextNodeView>, Error>
    decreases vs.len(),
{
    if vs.len() == 0 {
        Result::Ok(Seq::empty())
    } else {
        match spec_decode_text_node(vs[0]) {
            Result::Err(e) => Result::Err(e),
            Result::Ok(t) => match spec_decode_texts(vs.subrange(1, vs.len() as int)) {
                Result::Err(e) => Result::Err(e),
                Result::Ok(rest) => Result::Ok(seq![t] + rest),
            },
        }
    }
}

/// Decodes a node with `depth` levels of nesting left to spend; a node
/// met with no budget left is rejected as ill-shaped.
pub open spec fn spec_decode_node_at(v: ValueView, depth: int) -> Result<NodeView, Error>
    decreases v,
    via spec_decode_node_at_decreases
{
    if depth <= 0 {
        Result::Err(Error::IntegrityError)
    } else {
        match v {
        ValueView::Obj(fs) => match obj_get(fs, "id"@) {
            Option::Some(ValueView::Str(s)) => if !is_valid_id_chars(s) {
                Result::Err(Error::MalformedIdentifier)
            } else {
                match obj_get(fs, "node_type"@) {
                    Option::Some(ntv) => match spec_decode_node_type(ntv) {
                        Result::Ok(nt) => match obj_get(fs, "contents"@) {
                            Option::Some(ValueView::Arr(cs)) => match spec_decode_texts(cs) {
                                Result::Ok(texts) => match obj_get(fs, "children"@) {
                                    Option::None => Result::Ok(
                                        NodeView {
                                            id: spec_decode_id(s),
                                            node_type: nt,
                                            contents: texts,
                                            children: Option::None,
                                        },
                                    ),
                                    Option::Some(ValueView::Null) => Result::Ok(
                                        NodeView {
                                            id: spec_decode_id(s),
                                            node_type: nt,
                                            contents: texts,
                                            children: Option::None,
                                        },
                                    ),
                                    Option::Some(ValueView::Arr(ks)) => match spec_decode_nodes_at(
                                        ks,
                                        depth - 1,
                                    ) {
                                        Result::Ok(kids) => Result::Ok(
                                            NodeView {
                                                id: spec_decode_id(s),
                                                node_type: nt,
                                                contents: texts,
                                                children: Option::Some(kids),
                                            },
                                        ),
                                        Result::Err(e) => Result::Err(e),
                                    },
                                    Option::Some(_) => Result::Err(Error::IntegrityError),
                                },
                                Result::Err(e) => Result::Err(e),
                            },
                            Option::Some(_) => Result::Err(Error::IntegrityError),
                            Option::None => Result::Err(Error::IntegrityError),
                        },
                        Result::Err(e) => Result::Err(e),
                    },
                    Option::None => Result::Err(Error::IntegrityError),
                }
            },
            Option::Some(_) => Result::Err(Error::IntegrityError),
            Option::None => Result::Err(Error::IntegrityError),
        },
        _ => Result::Err(Error::IntegrityError),
        }
    }
}

/// Decodes a node under the decoder's full depth budget.
pub open spec fn spec_decode_node(v: ValueView) -> Result<NodeView, Error> {
    spec_decode_node_at(v, MAX_NODE_DEPTH as int)
}

#[via_fn]
proof fn spec_decode_node_at_decreases(v: ValueView, depth: int) {
    broadcast use crate::value::lemma_key_index;

    match v {
        ValueView::Obj(fs) => {
            let ki = key_index(fs, "children"@);
            if 0 <= ki < fs.len() {
                assert(decreases_to!(fs => fs[ki]));
                assert(decreases_to!(fs[ki] => fs[ki].1));
            }
        },
        _ => {},
    }
}

pub open spec fn spec_decode_nodes_at(vs: Seq<ValueView>, depth: int) -> Result<
    Seq<NodeView>,
    Error,
>
    decreases vs,
{
    if vs.len() == 0 {
        Result::Ok(Seq::empty())
    } else {
        match spec_decode_node_at(vs[0], depth) {
            Result::Err(e) => Result::Err(e),
            Result::Ok(n) => match spec_decode_nodes_at(vs.subrange(1, vs.len() as int), depth) {
                Result::Err(e) => Result::Err(e),
                Result::Ok(rest) => Result::Ok(seq![n] + rest),
            },
        }
    }
}

/// The image of a decoded node under the model view.
pub open spec fn node_result_view(r: Result<Node, Error>) -> Result<NodeView, Error> {
    match r {
        Result::Ok(n) => Result::Ok(node_view(n)),
        Result::Err(e) => Result::Err(e),
    }
}

/// The image of a decoded text run under the model view.
pub open spec fn text_node_result_view(r: Result<TextNode, Error>) -> Result<TextNodeView, Error> {
    match r {
        Result::Ok(t) => Result::Ok(text_node_view(t)),
        Result::Err(e) => Result::Err(e),
    }
}

// ---------------------------------------------------------------------
// list decoding lemmas
// ---------------------------------------------------------------------
/// A value sequence whose members all decode decodes to the sequence of
/// their decodings.
proof fn lemma_decode_texts_pointwise(vs: Seq<ValueView>, ts: Seq<TextNodeView>)
    requires
        vs.len() == ts.len(),
        forall|t: int| 0 <= t < vs.len() ==> spec_decode_text_node(#[trigger] vs[t]) == Result::Ok::<
            TextNodeView,
            Error,
        >(ts[t]),
    ensures
        spec_decode_texts(vs) == Result::Ok::<Seq<TextNodeView>, Error>(ts),
    decreases vs.len(),
{
    if vs.len() == 0 {
        assert(ts =~= Seq::empty());
    } else {
        lemma_decode_texts_pointwise(vs.subrange(1, vs.len() as int), ts.subrange(1, ts.len() as int));
        assert(seq![ts[0]] + ts.subrange(1, ts.len() as int) =~= ts);
    }
}

/// The first failing member decides a text-sequence decode.
proof fn lemma_decode_texts_err(vs: Seq<ValueView>, i: int, e: Error)
    requires
        0 <= i < vs.len(),
        forall|t: int| 0 <= t < i ==> (spec_decode_text_node(#[trigger] vs[t]) is Ok),
        spec_decode_text_node(vs[i]) == Result::Err::<TextNodeView, Error>(e),
    ensures
        spec_decode_texts(vs) == Result::Err::<Seq<TextNodeView>, Error>(e),
    decreases vs.len(),
{
    if i > 0 {
        lemma_decode_texts_err(vs.subrange(1, vs.len() as int), i - 1, e);
    }
}

/// A value sequence whose members all decode decodes to the sequence of
/// their decodings.
proof fn lemma_decode_nodes_pointwise(vs: Seq<ValueView>, ns: Seq<NodeView>, depth: int)
    requires
        vs.len() == ns.len(),
        forall|t: int|
            0 <= t < vs.len() ==> spec_decode_node_at(#[trigger] vs[t], depth) == Result::Ok::<
                NodeView,
                Error,
            >(ns[t]),
    ensures
        spec_decode_nodes_at(vs, depth) == Result::Ok::<Seq<NodeView>, Error>(ns),
    decreases vs.len(),
{
    if vs.len() == 0 {
        assert(ns =~= Seq::empty());
    } else {
        lemma_decode_nodes_pointwise(
            vs.subrange(1, vs.len() as int),
            ns.subrange(1, ns.len() as int),
            depth,
        );
        assert(seq![ns[0]] + ns.subrange(1, ns.len() as int) =~= ns);
    }
}

/// The first failing member decides a node-sequence decode.
proof fn lemma_decode_nodes_err(vs: Seq<ValueView>, i: int, e: Error, depth: int)
    requires
        0 <= i < vs.len(),
        forall|t: int| 0 <= t < i ==> (spec_decode_node_at(#[trigger] vs[t], depth) is Ok),
        spec_decode_node_at(vs[i], depth) == Result::Err::<NodeView, Error>(e),
    ensures
        spec_decode_nodes_at(vs, depth) == Result::Err::<Seq<NodeView>, Error>(e),
    decreases vs.len(),
{
    if i > 0 {
        lemma_decode_nodes_err(vs.subrange(1, vs.len() as int), i - 1, e, depth);
    }
}

// ---------------------------------------------------------------------
// executable encoding
// ---------------------------------------------------------------------
/// Encodes a heading level as its plain integer, `Level1` through
/// `Level6` to 1 through 6.
pub fn encode_heading_level(l: &HeadingLevel) -> (i: i64)
    ensures
        i == spec_encode_heading_level(*l),
{
    match l {
        HeadingLevel::Level1 => 1,
        HeadingLevel::Level2 => 2,
        HeadingLevel::Level3 => 3,
        HeadingLevel::Level4 => 4,
        HeadingLevel::Level5 => 5,
        HeadingLevel::Level6 => 6,
    }
}

/// Decodes a heading level leniently: this codec never fails, it clamps
/// unknown values to `Level6` instead (see
/// [`spec_decode_heading_level`]).
pub fn decode_heading_level(i: i64) -> (l: HeadingLevel)
    ensures
        l == spec_decode_heading_level(i),
{
    if i == 0 || i == 1 {
        HeadingLevel::Level1
    } else if i == 2 {
        HeadingLevel::Level2
    } else if i == 3 {
        HeadingLevel::Level3
    } else if i == 4 {
        HeadingLevel::Level4
    } else if i == 5 {
        HeadingLevel::Level5
    } else {
        HeadingLevel::Level6
    }
}

/// Encodes a node type: unit variants as the bare variant name, payload
/// variants as a single-entry keyed object.
pub fn encode_node_type(t: &NodeType) -> (v: Value)
    ensures
        value_view(v) == spec_encode_node_type(*t),
{
    broadcast use lemma_fields_view;

    match t {
        NodeType::Root => Value::Str(String::from_str("Root")),
        NodeType::Paragraph => Value::Str(String::from_str("Paragraph")),
        NodeType::Heading(l) => {
            let i = encode_heading_level(l);
            let mut fs: Vec<(String, Value)> = Vec::new();
            fs.push((String::from_str("Heading"), Value::Int(i)));
            proof {
                assert(fields_view(fs@) =~= seq![
                    ("Heading"@, ValueView::Int(spec_encode_heading_level(*l))),
                ]);
            }
            Value::Obj(fs)
        },
        NodeType::ListItem(p) => {
            let mut fs: Vec<(String, Value)> = Vec::new();
            fs.push((String::from_str("ListItem"), Value::Int(*p as i64)));
            proof {
                assert(fields_view(fs@) =~= seq![("ListItem"@, ValueView::Int(*p as i64))]);
            }
            Value::Obj(fs)
        },
        NodeType::List(o) => {
            let mut fs: Vec<(String, Value)> = Vec::new();
            fs.push((String::from_str("List"), Value::Bool(*o)));
            proof {
                assert(fields_view(fs@) =~= seq![("List"@, ValueView::Bool(*o))]);
            }
            Value::Obj(fs)
        },
    }
}

/// Encodes a text format field by field.
pub fn encode_text_format(f: &TextFormat) -> (v: Value)
    ensures
        value_view(v) == spec_encode_text_format(*f),
{
    broadcast use lemma_fields_view;

    let mut fs: Vec<(String, Value)> = Vec::new();
    fs.push((String::from_str("size"), Value::Int(f.size as i64)));
    fs.push((String::from_str("underline"), Value::Bool(f.underline)));
    fs.push((String::from_str("strong"), Value::Bool(f.strong)));
    fs.push((String::from_str("strikethrough"), Value::Bool(f.strikethrough)));
    fs.push((String::from_str("emphasis"), Value::Bool(f.emphasis)));
    proof {
        assert(fields_view(fs@) =~= seq![
            ("size"@, ValueView::Int(f.size as i64)),
            ("underline"@, ValueView::Bool(f.underline)),
            ("strong"@, ValueView::Bool(f.strong)),
            ("strikethrough"@, ValueView::Bool(f.strikethrough)),
            ("emphasis"@, ValueView::Bool(f.emphasis)),
        ]);
    }
    Value::Obj(fs)
}

/// Encodes a text run: its content string and its format.
pub fn encode_text_node(t: &TextNode) -> (v: Value)
    ensures
        value_view(v) == spec_encode_text_node(text_node_view(*t)),
{
    broadcast use lemma_fields_view;

    let fv = encode_text_format(&t.format);
    let mut fs: Vec<(String, Value)> = Vec::new();
    fs.push((String::from_str("content"), Value::Str(t.content.clone())));
    fs.push((String::from_str("format"), fv));
    proof {
        assert(fields_view(fs@) =~= seq![
            ("content"@, ValueView::Str(t.content@)),
            ("format"@, spec_encode_text_format(t.format)),
        ]);
    }
    Value::Obj(fs)
}

/// Encodes a node recursively: its identifier in canonical form, its
/// node type, its children (null when absent), and its text runs.
#[verifier::loop_isolation(false)]
pub fn encode_node(n: &Node) -> (v: Value)
    ensures
        value_view(v) == spec_encode_node(node_view(*n)),
    decreases *n,
{
    broadcast use lemma_fields_view, lemma_values_view, lemma_nodes_view, lemma_spec_encode_nodes;

    let id_s = encode_id(n.id);
    let nt_v = encode_node_type(&n.node_type);
    let children_v: Value = match &n.children {
        Option::None => Value::Null,
        Option::Some(c) => {
            let mut out: Vec<Value> = Vec::new();
            let mut i: usize = 0;
            while i < c.len()
                invariant
                    0 <= i <= c@.len(),
                    out@.len() == i,
                    forall|t: int|
                        0 <= t < i ==> value_view(#[trigger] out@[t]) == spec_encode_node(
                            node_view(c@[t]),
                        ),
                decreases c@.len() - i,
            {
                let ev = encode_node(&c[i]);
                out.push(ev);
                i = i + 1;
            }
            proof {
                assert(values_view(out@) =~= spec_encode_nodes(nodes_view(c@)));
            }
            Value::Arr(out)
        },
    };
    let mut texts: Vec<Value> = Vec::new();
    let mut i: usize = 0;
    while i < n.contents.len()
        invariant
            0 <= i <= n.contents@.len(),
            texts@.len() == i,
            forall|t: int|
                0 <= t < i ==> value_view(#[trigger] texts@[t]) == spec_encode_text_node(
                    text_node_view(n.contents@[t]),
                ),
        decreases n.contents@.len() - i,
    {
        let ev = encode_text_node(&n.contents[i]);
        texts.push(ev);
        i = i + 1;
    }
    proof {
        assert(values_view(texts@) =~= spec_encode_texts(text_nodes_view(n.contents@)));
    }
    proof {
        assert(value_view(children_v) == (match node_view(*n).children {
            Option::None => ValueView::Null,
            Option::Some(c) => ValueView::Arr(spec_encode_nodes(c)),
        }));
    }
    let mut fs: Vec<(String, Value)> = Vec::new();
    fs.push((String::from_str("id"), Value::Str(id_s)));
    fs.push((String::from_str("node_type"), nt_v));
    fs.push((String::from_str("children"), children_v));
    fs.push((String::from_str("contents"), Value::Arr(texts)));
    proof {
        assert(fields_view(fs@) =~= seq![
            ("id"@, ValueView::Str(spec_encode_id(n.id))),
            ("node_type"@, spec_encode_node_type(n.node_type)),
            (
                "children"@,
                match node_view(*n).children {
                    Option::None => ValueView::Null,
                    Option::Some(c) => ValueView::Arr(spec_encode_nodes(c)),
                },
            ),
            ("contents"@, ValueView::Arr(spec_encode_texts(text_nodes_view(n.contents@)))),
        ]);
    }
    let result = Value::Obj(fs);
    proof {
        assert(value_view(result) == ValueView::Obj(fields_view(fs@)));
        assert(spec_encode_node(node_view(*n)) is Obj);
        assert(fields_view(fs@) =~= (spec_encode_node(node_view(*n))->Obj_0));
        assert(value_view(result) == spec_encode_node(node_view(*n)));
    }
    result
}

// ---------------------------------------------------------------------
// executable decoding
// ---------------------------------------------------------------------
/// Decodes a node type, rejecting unknown tags with
/// [`Error::UnknownNodeType`] and wrongly shaped payloads with
/// [`Error::IntegrityError`].
pub fn decode_node_type(v: &Value) -> (r: Result<NodeType, Error>)
    ensures
        r == spec_decode_node_type(value_view(*v)),
{
    broadcast use lemma_fields_view;

    let tag_root = String::from_str("Root");
    let tag_paragraph = String::from_str("Paragraph");
    let tag_heading = String::from_str("Heading");
    let tag_list = String::from_str("List");
    let tag_list_item = String::from_str("ListItem");
    match v {
        Value::Str(s) => {
            proof {
                assert(value_view(*v) == ValueView::Str(s@));
            }
            if *s == tag_root {
                Ok(NodeType::Root)
            } else if *s == tag_paragraph {
                Ok(NodeType::Paragraph)
            } else if *s == tag_heading || *s == tag_list || *s == tag_list_item {
                Err(Error::IntegrityError)
            } else {
                Err(Error::UnknownNodeType)
            }
        },
        Value::Obj(fs) => {
            if fs.len() != 1 {
                proof {
                    assert(fields_view(fs@).len() == fs@.len());
                }
                return Err(Error::IntegrityError);
            }
            let key = &fs[0].0;
            let payload = &fs[0].1;
            proof {
                assert(value_view(*v) == ValueView::Obj(fields_view(fs@)));
                assert(fields_view(fs@)[0] == (fs@[0].0@, value_view(fs@[0].1)));
                assert(*key == fs@[0].0 && *payload == fs@[0].1);
            }
            if *key == tag_heading {
                match payload {
                    Value::Int(i) => Ok(NodeType::Heading(decode_heading_level(*i))),
                    _ => Err(Error::IntegrityError),
                }
            } else if *key == tag_list {
                match payload {
                    Value::Bool(b) => Ok(NodeType::List(*b)),
                    _ => Err(Error::IntegrityError),
                }
            } else if *key == tag_list_item {
                match payload {
                    Value::Int(i) => if 0 <= *i && *i <= 255 {
                        Ok(NodeType::ListItem(*i as u8))
                    } else {
                        Err(Error::IntegrityError)
                    },
                    _ => Err(Error::IntegrityError),
                }
            } else if *key == tag_root || *key == tag_paragraph {
                Err(Error::IntegrityError)
            } else {
                Err(Error::UnknownNodeType)
            }
        },
        _ => Err(Error::IntegrityError),
    }
}

/// Decodes a text format, requiring every field present and well shaped.
pub fn decode_text_format(v: &Value) -> (r: Result<TextFormat, Error>)
    ensures
        r == spec_decode_text_format(value_view(*v)),
{
    let fs = match v {
        Value::Obj(fs) => fs,
        _ => {
            return Err(Error::IntegrityError);
        },
    };
    let size: u8 = match obj_get_exec(fs, "size") {
        Option::Some(Value::Int(i)) => if 0 <= *i && *i <= 255 {
            *i as u8
        } else {
            return Err(Error::IntegrityError);
        },
        _ => {
            return Err(Error::IntegrityError);
        },
    };
    let underline: bool = match obj_get_exec(fs, "underline") {
        Option::Some(Value::Bool(b)) => *b,
        _ => {
            return Err(Error::IntegrityError);
        },
    };
    let strong: bool = match obj_get_exec(fs, "strong") {
        Option::Some(Value::Bool(b)) => *b,
        _ => {
            return Err(Error::IntegrityError);
        },
    };
    let strikethrough: bool = match obj_get_exec(fs, "strikethrough") {
        Option::Some(Value::Bool(b)) => *b,
        _ => {
            return Err(Error::IntegrityError);
        },
    };
    let emphasis: bool = match obj_get_exec(fs, "emphasis") {
        Option::Some(Value::Bool(b)) => *b,
        _ => {
            return Err(Error::IntegrityError);
        },
    };
    Ok(TextFormat { size, underline, strong, strikethrough, emphasis })
}

/// Decodes a text run: its content string and its format.
pub fn decode_text_node(v: &Value) -> (r: Result<TextNode, Error>)
    ensures
        text_node_result_view(r) == spec_decode_text_node(value_view(*v)),
{
    let fs = match v {
        Value::Obj(fs) => fs,
        _ => {
            return Err(Error::IntegrityError);
        },
    };
    let content: String = match obj_get_exec(fs, "content") {
        Option::Some(Value::Str(s)) => s.clone(),
        _ => {
            return Err(Error::IntegrityError);
        },
    };
    let format: TextFormat = match obj_get_exec(fs, "format") {
        Option::Some(fv) => match decode_text_format(fv) {
            Result::Ok(f) => f,
            Result::Err(e) => {
                return Err(e);
            },
        },
        Option::None => {
            return Err(Error::IntegrityError);
        },
    };
    Ok(TextNode { content, format })
}

/// Decodes a node with `depth` levels of nesting left to spend: the
/// identifier first, failing fast on a malformed one, then the node
/// type, the text runs and the children; a failure anywhere discards
/// the whole node.
#[verifier::loop_isolation(false)]
fn decode_node_at(v: &Value, depth: usize) -> (r: Result<Node, Error>)
    ensures
        node_result_view(r) == spec_decode_node_at(value_view(*v), depth as int),
    decreases *v,
{
    broadcast use lemma_fields_view, lemma_values_view, lemma_nodes_view;

    if depth == 0 {
        return Err(Error::IntegrityError);
    }
    let fs = match v {
        Value::Obj(fs) => fs,
        _ => {
            return Err(Error::IntegrityError);
        },
    };
    let id: u128 = match obj_get_exec(fs, "id") {
        Option::Some(Value::Str(s)) => match decode_id(s.as_str()) {
            Result::Ok(i) => i,
            Result::Err(e) => {
                return Err(e);
            },
        },
        _ => {
            return Err(Error::IntegrityError);
        },
    };
    let node_type: NodeType = match obj_get_exec(fs, "node_type") {
        Option::Some(ntv) => match decode_node_type(ntv) {
            Result::Ok(t) => t,
            Result::Err(e) => {
                return Err(e);
            },
        },
        Option::None => {
            return Err(Error::IntegrityError);
        },
    };
    let contents: Vec<TextNode> = match obj_get_exec(fs, "contents") {
        Option::Some(cv) => match cv {
            Value::Arr(cs) => {
                let mut acc: Vec<TextNode> = Vec::new();
                let mut i: usize = 0;
                while i < cs.len()
                    invariant
                        0 <= i <= cs@.len(),
                        acc@.len() == i,
                        forall|t: int|
                            0 <= t < i ==> spec_decode_text_node(
                                #[trigger] values_view(cs@)[t],
                            ) == Result::Ok::<TextNodeView, Error>(text_node_view(acc@[t])),
                    decreases cs@.len() - i,
                {
                    match decode_text_node(&cs[i]) {
                        Result::Ok(t) => acc.push(t),
                        Result::Err(e) => {
                            proof {
                                lemma_decode_texts_err(values_view(cs@), i as int, e);
                            }
                            return Err(e);
                        },
                    }
                    i = i + 1;
                }
                proof {
                    lemma_decode_texts_pointwise(values_view(cs@), text_nodes_view(acc@));
                }
                acc
            },
            _ => {
                return Err(Error::IntegrityError);
            },
        },
        Option::None => {
            return Err(Error::IntegrityError);
        },
    };
    let children: Option<Vec<Node>> = match obj_get_exec(fs, "children") {
        Option::None => Option::None,
        Option::Some(Value::Null) => Option::None,
        Option::Some(Value::Arr(ks)) => {
            let mut acc: Vec<Node> = Vec::new();
            let mut i: usize = 0;
            while i < ks.len()
                invariant
                    0 <= i <= ks@.len(),
                    acc@.len() == i,
                    forall|t: int|
                        0 <= t < i ==> spec_decode_node_at(
                            #[trigger] values_view(ks@)[t],
                            depth - 1,
                        ) == Result::Ok::<NodeView, Error>(node_view(acc@[t])),
                decreases ks@.len() - i,
            {
                match decode_node_at(&ks[i], depth - 1) {
                    Result::Ok(k) => acc.push(k),
                    Result::Err(e) => {
                        proof {
                            lemma_decode_nodes_err(values_view(ks@), i as int, e, depth - 1);
                        }
                        return Err(e);
                    },
                }
                i = i + 1;
            }
            proof {
                lemma_decode_nodes_pointwise(values_view(ks@), nodes_view(acc@), depth - 1);
            }
            Option::Some(acc)
        },
        Option::Some(_) => {
            return Err(Error::IntegrityError);
        },
    };
    Ok(Node { id, node_type, contents, children })
}

/// Decodes a node under the decoder's full depth budget: nesting beyond
/// [`MAX_NODE_DEPTH`] levels is rejected with [`Error::IntegrityError`].
pub fn decode_node(v: &Value) -> (r: Result<Node, Error>)
    ensures
        node_result_view(r) == spec_decode_node(value_view(*v)),
{
    decode_node_at(v, MAX_NODE_DEPTH)
}

// ---------------------------------------------------------------------
// round-trip laws
// ---------------------------------------------------------------------
/// Text-format round trip: every text format decodes back from its own
/// encoding.
pub proof fn lemma_text_format_round_trip(f: TextFormat)
    ensures
        spec_decode_text_format(spec_encode_text_format(f)) == Result::Ok::<TextFormat, Error>(f),
{
    reveal_strlit("size");
    reveal_strlit("underline");
    reveal_strlit("strong");
    reveal_strlit("strikethrough");
    reveal_strlit("emphasis");
    assert("size"@.len() == 4);
    assert("underline"@.len() == 9);
    assert("strong"@.len() == 6);
    assert("strikethrough"@.len() == 13);
    assert("emphasis"@.len() == 8);
    let fs = spec_encode_text_format(f)->Obj_0;
    lemma_key_index_first(fs, "size"@, 0);
    lemma_key_index_first(fs, "underline"@, 1);
    lemma_key_index_first(fs, "strong"@, 2);
    lemma_key_index_first(fs, "strikethrough"@, 3);
    lemma_key_index_first(fs, "emphasis"@, 4);
}

/// Text-run round trip: every text run decodes back from its own
/// encoding.
pub proof fn lemma_text_node_round_trip(t: TextNodeView)
    ensures
        spec_decode_text_node(spec_encode_text_node(t)) == Result::Ok::<TextNodeView, Error>(t),
{
    reveal_strlit("content");
    reveal_strlit("format");
    assert("content"@.len() == 7);
    assert("format"@.len() == 6);
    let fs = spec_encode_text_node(t)->Obj_0;
    lemma_key_index_first(fs, "content"@, 0);
    lemma_key_index_first(fs, "format"@, 1);
    lemma_text_format_round_trip(t.format);
}

/// Node-type round trip: every structural role decodes back from its own
/// encoding, the heading level included — the lenient clamp is the
/// identity on the values encoding produces.
pub proof fn lemma_node_type_round_trip(t: NodeType)
    ensures
        spec_decode_node_type(spec_encode_node_type(t)) == Result::Ok::<NodeType, Error>(t),
{
    reveal_strlit("Root");
    reveal_strlit("Paragraph");
    reveal_strlit("Heading");
    reveal_strlit("List");
    reveal_strlit("ListItem");
    assert("Root"@.len() == 4);
    assert("Paragraph"@.len() == 9);
    assert("Heading"@.len() == 7);
    assert("List"@.len() == 4);
    assert("ListItem"@.len() == 8);
    match t {
        NodeType::Heading(l) => {
            assert(spec_decode_heading_level(spec_encode_heading_level(l)) == l);
        },
        _ => {},
    }
}

/// A node tree no deeper than the budget `d` decodes back from its own
/// encoding under that budget.
proof fn lemma_node_round_trip_at(n: NodeView, d: int)
    requires
        node_depth(n) <= d,
    ensures
        spec_decode_node_at(spec_encode_node(n), d) == Result::Ok::<NodeView, Error>(n),
    decreases n,
{
    broadcast use lemma_spec_encode_nodes, lemma_nodes_depth;

    reveal_strlit("id");
    reveal_strlit("node_type");
    reveal_strlit("children");
    reveal_strlit("contents");
    assert("id"@.len() == 2);
    assert("node_type"@.len() == 9);
    assert("children"@.len() == 8);
    assert("contents"@.len() == 8);
    let fs = spec_encode_node(n)->Obj_0;
    assert("children"@ != "contents"@) by {
        assert("children"@[1] == 'h');
        assert("contents"@[1] == 'o');
    }
    lemma_key_index_first(fs, "id"@, 0);
    lemma_key_index_first(fs, "node_type"@, 1);
    lemma_key_index_first(fs, "children"@, 2);
    lemma_key_index_first(fs, "contents"@, 3);
    lemma_id_round_trip(n.id);
    lemma_node_type_round_trip(n.node_type);
    let texts = spec_encode_texts(n.contents);
    assert forall|t: int| 0 <= t < texts.len() implies spec_decode_text_node(#[trigger] texts[t])
        == Result::Ok::<TextNodeView, Error>(n.contents[t]) by {
        lemma_text_node_round_trip(n.contents[t]);
    }
    lemma_decode_texts_pointwise(texts, n.contents);
    match n.children {
        Option::None => {
        },
        Option::Some(c) => {
            let kids = spec_encode_nodes(c);
            assert forall|t: int| 0 <= t < kids.len() implies spec_decode_node_at(
                #[trigger] kids[t],
                d - 1,
            ) == Result::Ok::<NodeView, Error>(c[t]) by {
                lemma_nodes_depth(c);
                assert(node_depth(c[t]) <= nodes_depth(c));
                lemma_node_round_trip_at(c[t], d - 1);
            }
            lemma_decode_nodes_pointwise(kids, c, d - 1);
        },
    }
}

/// Node round trip: every node tree within the decoder's depth bound —
/// nested children and all its text runs included — decodes back from
/// its own encoding, identifier, node type, contents and child order
/// preserved.  A deeper tree is the one kind the decoder rejects by
/// design, so the law leaves it out.
pub proof fn lemma_node_round_trip(n: NodeView)
    requires
        node_depth(n) <= MAX_NODE_DEPTH as int,
    ensures
        spec_decode_node(spec_encode_node(n)) == Result::Ok::<NodeView, Error>(n),
{
    lemma_node_round_trip_at(n, MAX_NODE_DEPTH as int);
}

} // verus!

//! The document tree data model.
//!
//! A document is a tree of [`Node`] values.  Each node carries a process-wide
//! unique 128-bit identifier, a structural role ([`NodeType`]), an ordered
//! sequence of text runs ([`TextNode`]), and an optional ordered sequence of
//! child nodes.  `children: None` marks a leaf with no substructure, which is
//! distinct from `children: Some(vec![])`, an intentionally childless
//! container.

use vstd::prelude::*;

use crate::ident::fresh_id;

verus! {

/// Visual attributes of a run of text.
#[derive(Debug, Clone, Copy, PartialEq, Eq, Structural)]
pub struct TextFormat {
    pub size: u8,
    pub underline: bool,
    pub strong: bool,
    pub strikethrough: bool,
    pub emphasis: bool,
}

/// A run of text together with its visual attributes.
#[derive(Debug, PartialEq, Eq)]
pub struct TextNode {
    pub content: String,
    pub format: TextFormat,
}

/// The depth of a heading, `Level1` (largest) through `Level6` (smallest).
#[derive(Debug, Clone, Copy, PartialEq, Eq, Structural)]
pub enum HeadingLevel {
    Level1,
    Level2,
    Level3,
    Level4,
    Level5,
    Level6,
}

/// The closed set of structural roles a [`Node`] can play.
#[derive(Debug, Clone, Copy, PartialEq, Eq, Structural)]
pub enum NodeType {
    Paragraph,
    Root,
    Heading(HeadingLevel),
    /// Tracks position within the surrounding list.
    ListItem(u8),
    /// A list can be ordered (`true`) or unordered (`false`).
    List(bool),
}

/// A single element of the recursive document tree.
#[derive(Debug, PartialEq, Eq)]
pub struct Node {
    /// Unique 128-bit identifier.
    pub id: u128,
    pub node_type: NodeType,
    pub contents: Vec<TextNode>,
    pub children: Option<Vec<Node>>,
}

/// Mathematical image of a [`TextNode`].
pub struct TextNodeView {
    pub content: Seq<char>,
    pub format: TextFormat,
}

/// Mathematical image of a [`Node`]: the same tree with sequences in place
/// of vectors.
pub struct NodeView {
    pub id: u128,
    pub node_type: NodeType,
    pub contents: Seq<TextNodeView>,
    pub children: Option<Seq<NodeView>>,
}

pub open spec fn text_node_view(t: TextNode) -> TextNodeView {
    TextNodeView { content: t.content@, format: t.format }
}

pub open spec fn text_nodes_view(s: Seq<TextNode>) -> Seq<TextNodeView> {
    Seq::new(s.len(), |i: int| text_node_view(s[i]))
}

pub open spec fn node_view(n: Node) -> NodeView
    decreases n,
{
    NodeView {
        id: n.id,
        node_type: n.node_type,
        contents: text_nodes_view(n.contents@),
        children: match n.children {
            Option::None => Option::None,
            Option::Some(c) => Option::Some(nodes_view(c@)),
        },
    }
}

pub open spec fn nodes_view(s: Seq<Node>) -> Seq<NodeView>
    decreases s,
{
    if s.len() == 0 {
        Seq::empty()
    } else {
        seq![node_view(s[0])] + nodes_view(s.subrange(1, s.len() as int))
    }
}

/// The depth of a node tree: 1 for a node without substructure, one more
/// than its deepest child otherwise.
pub open spec fn node_depth(n: NodeView) -> int
    decreases n,
{
    match n.children {
        Option::None => 1,
        Option::Some(c) => 1 + nodes_depth(c),
    }
}

/// The depth of the deepest tree in a node sequence, 0 when it is empty.
pub open spec fn nodes_depth(s: Seq<NodeView>) -> int
    decreases s,
{
    if s.len() == 0 {
        0
    } else {
        let rest = nodes_depth(s.subrange(1, s.len() as int));
        if node_depth(s[0]) >= rest {
            node_depth(s[0])
        } else {
            rest
        }
    }
}

/// A sequence's depth is non-negative and bounds each member's depth.
pub broadcast proof fn lemma_nodes_depth(s: Seq<NodeView>)
    ensures
        #[trigger] nodes_depth(s) >= 0,
        forall|i: int| 0 <= i < s.len() ==> node_depth(#[trigger] s[i]) <= nodes_depth(s),
    decreases s.len(),
{
    if s.len() != 0 {
        lemma_nodes_depth(s.subrange(1, s.len() as int));
        assert forall|i: int| 0 <= i < s.len() implies node_depth(s[i]) <= nodes_depth(s) by {
            if i > 0 {
                assert(s.subrange(1, s.len() as int)[i - 1] == s[i]);
            }
        }
    }
}

/// The view of a node sequence is the pointwise view of its nodes.
pub broadcast proof fn lemma_nodes_view(s: Seq<Node>)
    ensures
        (#[trigger] nodes_view(s)).len() == s.len(),
        forall|i: int| 0 <= i < s.len() ==> nodes_view(s)[i] == node_view(s[i]),
    decreases s.len(),
{
    if s.len() != 0 {
        lemma_nodes_view(s.subrange(1, s.len() as int));
        assert forall|i: int| 0 <= i < s.len() implies nodes_view(s)[i] == node_view(s[i]) by {
            if i > 0 {
                assert(s.subrange(1, s.len() as int)[i - 1] == s[i]);
            }
        }
    }
}

impl Node {
    /// A fresh node: newly minted identifier, paragraph role, no text runs,
    /// no substructure.
    pub fn new() -> (n: Node)
        ensures
            n.node_type == NodeType::Paragraph,
            n.contents@.len() == 0,
            n.children is None,
    {
        Node { id: fresh_id(), node_type: NodeType::Paragraph, contents: Vec::new(), children: None }
    }
}

/// An item of a list, kept apart from the tree for consumers that assemble
/// lists outside it.
#[derive(Debug, PartialEq, Eq)]
pub struct ListItem {
    pub content: Vec<TextNode>,
    pub position: u8,
}

/// A tree rooted at one node: the unit of a piece of formatted content.
#[derive(Debug, PartialEq, Eq)]
pub struct Document {
    pub root: Node,
}

impl Document {
    /// Gives up the document and hands back its root node.
    pub fn root_node(self) -> (n: Node)
        ensures
            n == self.root,
    {
        self.root
    }

    /// A document whose root is a fresh empty paragraph node; the root's
    /// identifier is newly minted, as every identifier is at construction.
    pub fn new() -> (d: Document)
        ensures
            d.root.node_type == NodeType::Paragraph,
            d.root.contents@.len() == 0,
            d.root.children is None,
    {
        Document { root: Node::new() }
    }
}

/// A named collection of chapters.
#[derive(Debug, PartialEq, Eq)]
pub struct Project {
    pub name: String,
    pub books: Vec<Chapter>,
}

/// One chapter: a number, an optional title (absence is distinct from an
/// empty title), and its pages.
#[derive(Debug, PartialEq, Eq)]
pub struct Chapter {
    pub num: u8,
    pub title: Option<String>,
    pub pages: Document,
}

/// A character sheet: a name, the setting it originates from, and a
/// description document.
#[derive(Debug, PartialEq, Eq)]
pub struct Character {
    pub name: String,
    pub origin: Setting,
    pub description: Document,
}

/// A setting sheet: a description document.
#[derive(Debug, PartialEq, Eq)]
pub struct Setting {
    pub description: Document,
}

/// Mathematical image of a [`Document`].
pub struct DocumentView {
    pub root: NodeView,
}

/// Mathematical image of a [`Chapter`].
pub struct ChapterView {
    pub num: u8,
    pub title: Option<Seq<char>>,
    pub pages: DocumentView,
}

/// Mathematical image of a [`Project`].
pub struct ProjectView {
    pub name: Seq<char>,
    pub books: Seq<ChapterView>,
}

/// Mathematical image of a [`Setting`].
pub struct SettingView {
    pub description: DocumentView,
}

/// Mathematical image of a [`Character`].
pub struct CharacterView {
    pub name: Seq<char>,
    pub origin: SettingView,
    pub description: DocumentView,
}

pub open spec fn document_view(d: Document) -> DocumentView {
    DocumentView { root: node_view(d.root) }
}

pub open spec fn chapter_view(c: Chapter) -> ChapterView {
    ChapterView {
        num: c.num,
        title: match c.title {
            Option::None => Option::None,
            Option::Some(s) => Option::Some(s@),
        },
        pages: document_view(c.pages),
    }
}

pub open spec fn chapters_view(s: Seq<Chapter>) -> Seq<ChapterView> {
    Seq::new(s.len(), |i: int| chapter_view(s[i]))
}

pub open spec fn project_view(p: Project) -> ProjectView {
    ProjectView { name: p.name@, books: chapters_view(p.books@) }
}

pub open spec fn setting_view(s: Setting) -> SettingView {
    SettingView { description: document_view(s.description) }
}

pub open spec fn character_view(c: Character) -> CharacterView {
    CharacterView {
        name: c.name@,
        origin: setting_view(c.origin),
        description: document_view(c.description),
    }
}

} // verus!

//! The wire codec for the container types: `Document`, `Chapter`,
//! `Project`, `Character` and `Setting` are straight structural
//! pass-through codecs over the node codec — they add no structural rules
//! of their own.  A chapter's absent title encodes as null, which stays
//! distinct from an empty title string.

use vstd::prelude::*;
use vstd::string::*;

use crate::error::Error;
use crate::codec::MAX_NODE_DEPTH;
use crate::codec::decode_node;
use crate::codec::encode_node;
use crate::codec::lemma_node_round_trip;
use crate::codec::spec_decode_node;
use crate::codec::spec_encode_node;
use crate::model::Chapter;
use crate::model::ChapterView;
use crate::model::Character;
use crate::model::CharacterView;
use crate::model::Document;
use crate::model::DocumentView;
use crate::model::Project;
use crate::model::ProjectView;
use crate::model::Setting;
use crate::model::SettingView;
use crate::model::chapter_view;
use crate::model::chapters_view;
use crate::model::character_view;
use crate::model::document_view;
use crate::model::node_depth;
use crate::model::node_view;
use crate::model::project_view;
use crate::model::setting_view;
use crate::value::Value;
use crate::value::ValueView;
use crate::value::fields_view;
use crate::value::lemma_fields_view;
use crate::value::lemma_key_index_first;
use crate::value::lemma_values_view;
use crate::value::obj_get;
use crate::value::obj_get_exec;
use crate::value::value_view;
use crate::value::values_view;

verus! {

// ---------------------------------------------------------------------
// spec encoding and decoding
// ---------------------------------------------------------------------
pub open spec fn spec_encode_document(d: DocumentView) -> ValueView {
    ValueView::Obj(seq![("root"@, spec_encode_node(d.root))])
}

pub open spec fn spec_decode_document(v: ValueView) -> Result<DocumentView, Error> {
    match v {
        ValueView::Obj(fs) => match obj_get(fs, "root"@) {
            Option::Some(rv) => match spec_decode_node(rv) {
                Result::Ok(r) => Result::Ok(DocumentView { root: r }),
                Result::Err(e) => Result::Err(e),
            },
            Option::None => Result::Err(Error::IntegrityError),
        },
        _ => Result::Err(Error::IntegrityError),
    }
}

pub open spec fn spec_encode_chapter(c: ChapterView) -> ValueView {
    ValueView::Obj(
        seq![
            ("num"@, ValueView::Int(c.num as i64)),
            (
                "title"@,
                match c.title {
                    Option::None => ValueView::Null,
                    Option::Some(s) => ValueView::Str(s),
                },
            ),
            ("pages"@, spec_encode_document(c.pages)),
        ],
    )
}

pub open spec fn spec_decode_chapter(v: ValueView) -> Result<ChapterView, Error> {
    match v {
        ValueView::Obj(fs) => match obj_get(fs, "num"@) {
            Option::Some(ValueView::Int(num)) => if 0 <= num <= 255 {
                match obj_get(fs, "title"@) {
                    Option::None | Option::Some(ValueView::Null) => spec_decode_chapter_pages(
                        fs,
                        num as u8,
                        Option::None,
                    ),
                    Option::Some(ValueView::Str(s)) => spec_decode_chapter_pages(
                        fs,
                        num as u8,
                        Option::Some(s),
                    ),
                    Option::Some(_) => Result::Err(Error::IntegrityError),
                }
            } else {
                Result::Err(Error::IntegrityError)
            },
            _ => Result::Err(Error::IntegrityError),
        },
        _ => Result::Err(Error::IntegrityError),
    }
}

pub open spec fn spec_decode_chapter_pages(
    fs: Seq<(Seq<char>, ValueView)>,
    num: u8,
    title: Option<Seq<char>>,
) -> Result<ChapterView, Error> {
    match obj_get(fs, "pages"@) {
        Option::Some(pv) => match spec_decode_document(pv) {
            Result::Ok(pages) => Result::Ok(ChapterView { num, title, pages }),
            Result::Err(e) => Result::Err(e),
        },
        Option::None => Result::Err(Error::IntegrityError),
    }
}

pub open spec fn spec_encode_chapters(s: Seq<ChapterView>) -> Seq<ValueView> {
    Seq::new(s.len(), |i: int| spec_encode_chapter(s[i]))
}

pub open spec fn spec_decode_chapters(vs: Seq<ValueView>) -> Result<Seq<ChapterView>, Error>
    decreases vs.len(),
{
    if vs.len() == 0 {
        Result::Ok(Seq::empty())
    } else {
        match spec_decode_chapter(vs[0]) {
            Result::Err(e) => Result::Err(e),
            Result::Ok(c) => match spec_decode_chapters(vs.subrange(1, vs.len() as int)) {
                Result::Err(e) => Result::Err(e),
                Result::Ok(rest) => Result::Ok(seq![c] + rest),
            },
        }
    }
}

pub open spec fn spec_encode_project(p: ProjectView) -> ValueView {
    ValueView::Obj(
        seq![
            ("name"@, ValueView::Str(p.name)),
            ("books"@, ValueView::Arr(spec_encode_chapters(p.books))),
        ],
    )
}

pub open spec fn spec_decode_project(v: ValueView) -> Result<ProjectView, Error> {
    match v {
        ValueView::Obj(fs) => match (obj_get(fs, "name"@), obj_get(fs, "books"@)) {
            (Option::Some(ValueView::Str(name)), Option::Some(ValueView::Arr(bs))) => match spec_decode_chapters(
                bs,
            ) {
                Result::Ok(books) => Result::Ok(ProjectView { name, books }),
                Result::Err(e) => Result::Err(e),
            },
            _ => Result::Err(Error::IntegrityError),
        },
        _ => Result::Err(Error::IntegrityError),
    }
}

pub open spec fn spec_encode_setting(s: SettingView) -> ValueView {
    ValueView::Obj(seq![("description"@, spec_encode_document(s.description))])
}

pub open spec fn spec_decode_setting(v: ValueView) -> Result<SettingView, Error> {
    match v {
        ValueView::Obj(fs) => match obj_get(fs, "description"@) {
            Option::Some(dv) => match spec_decode_document(dv) {
                Result::Ok(d) => Result::Ok(SettingView { description: d }),
                Result::Err(e) => Result::Err(e),
            },
            Option::None => Result::Err(Error::IntegrityError),
        },
        _ => Result::Err(Error::IntegrityError),
    }
}

pub open spec fn spec_encode_character(c: CharacterView) -> ValueView {
    ValueView::Obj(
        seq![
            ("name"@, ValueView::Str(c.name)),
            ("origin"@, spec_encode_setting(c.origin)),
            ("description"@, spec_encode_document(c.description)),
        ],
    )
}

pub open spec fn spec_decode_character(v: ValueView) -> Result<CharacterView, Error> {
    match v {
        ValueView::Obj(fs) => match (
            obj_get(fs, "name"@),
            obj_get(fs, "origin"@),
            obj_get(fs, "description"@),
        ) {
            (Option::Some(ValueView::Str(name)), Option::Some(ov), Option::Some(dv)) => match spec_decode_setting(
                ov,
            ) {
                Result::Ok(origin) => match spec_decode_document(dv) {
                    Result::Ok(description) => Result::Ok(
                        CharacterView { name, origin, description },
                    ),
                    Result::Err(e) => Result::Err(e),
                },
                Result::Err(e) => Result::Err(e),
            },
            _ => Result::Err(Error::IntegrityError),
        },
        _ => Result::Err(Error::IntegrityError),
    }
}

// ---------------------------------------------------------------------
// result views
// ---------------------------------------------------------------------
pub open spec fn document_result_view(r: Result<Document, Error>) -> Result<DocumentView, Error> {
    match r {
        Result::Ok(d) => Result::Ok(document_view(d)),
        Result::Err(e) => Result::Err(e),
    }
}

pub open spec fn chapter_result_view(r: Result<Chapter, Error>) -> Result<ChapterView, Error> {
    match r {
        Result::Ok(c) => Result::Ok(chapter_view(c)),
        Result::Err(e) => Result::Err(e),
    }
}

pub open spec fn project_result_view(r: Result<Project, Error>) -> Result<ProjectView, Error> {
    match r {
        Result::Ok(p) => Result::Ok(project_view(p)),
        Result::Err(e) => Result::Err(e),
    }
}

pub open spec fn setting_result_view(r: Result<Setting, Error>) -> Result<SettingView, Error> {
    match r {
        Result::Ok(s) => Result::Ok(setting_view(s)),
        Result::Err(e) => Result::Err(e),
    }
}

pub open spec fn character_result_view(r: Result<Character, Error>) -> Result<
    CharacterView,
    Error,
> {
    match r {
        Result::Ok(c) => Result::Ok(character_view(c)),
        Result::Err(e) => Result::Err(e),
    }
}

// ---------------------------------------------------------------------
// list decoding lemmas
// ---------------------------------------------------------------------
/// A value sequence whose members all decode decodes to the sequence of
/// their decodings.
proof fn lemma_decode_chapters_pointwise(vs: Seq<ValueView>, cs: Seq<ChapterView>)
    requires
        vs.len() == cs.len(),
        forall|t: int| 0 <= t < vs.len() ==> spec_decode_chapter(#[trigger] vs[t]) == Result::Ok::<
            ChapterView,
            Error,
        >(cs[t]),
    ensures
        spec_decode_chapters(vs) == Result::Ok::<Seq<ChapterView>, Error>(cs),
    decreases vs.len(),
{
    if vs.len() == 0 {
        assert(cs =~= Seq::empty());
    } else {
        lemma_decode_chapters_pointwise(
            vs.subrange(1, vs.len() as int),
            cs.subrange(1, cs.len() as int),
        );
        assert(seq![cs[0]] + cs.subrange(1, cs.len() as int) =~= cs);
    }
}

/// The first failing member decides a chapter-sequence decode.
proof fn lemma_decode_chapters_err(vs: Seq<ValueView>, i: int, e: Error)
    requires
        0 <= i < vs.len(),
        forall|t: int| 0 <= t < i ==> (spec_decode_chapter(#[trigger] vs[t]) is Ok),
        spec_decode_chapter(vs[i]) == Result::Err::<ChapterView, Error>(e),
    ensures
        spec_decode_chapters(vs) == Result::Err::<Seq<ChapterView>, Error>(e),
    decreases vs.len(),
{
    if i > 0 {
        lemma_decode_chapters_err(vs.subrange(1, vs.len() as int), i - 1, e);
    }
}

// ---------------------------------------------------------------------
// executable encoding and decoding
// ---------------------------------------------------------------------
/// Encodes a document as an object holding its root node.
pub fn encode_document(d: &Document) -> (v: Value)
    ensures
        value_view(v) == spec_encode_document(document_view(*d)),
{
    broadcast use lemma_fields_view;

    let rv = encode_node(&d.root);
    let mut fs: Vec<(String, Value)> = Vec::new();
    fs.push((String::from_str("root"), rv));
    proof {
        assert(fields_view(fs@) =~= seq![("root"@, spec_encode_node(node_view(d.root)))]);
    }
    Value::Obj(fs)
}

/// Decodes a document: exactly its root node.
pub fn decode_document(v: &Value) -> (r: Result<Document, Error>)
    ensures
        document_result_view(r) == spec_decode_document(value_view(*v)),
{
    let fs = match v {
        Value::Obj(fs) => fs,
        _ => {
            return Err(Error::IntegrityError);
        },
    };
    match obj_get_exec(fs, "root") {
        Option::Some(rv) => match decode_node(rv) {
            Result::Ok(root) => Ok(Document { root }),
            Result::Err(e) => Err(e),
        },
        Option::None => Err(Error::IntegrityError),
    }
}

/// Encodes a chapter: its number, its optional title (null when
/// absent), and its pages.
pub fn encode_chapter(c: &Chapter) -> (v: Value)
    ensures
        value_view(v) == spec_encode_chapter(chapter_view(*c)),
{
    broadcast use lemma_fields_view;

    let title_v: Value = match &c.title {
        Option::None => Value::Null,
        Option::Some(s) => Value::Str(s.clone()),
    };
    let pages_v = encode_document(&c.pages);
    let mut fs: Vec<(String, Value)> = Vec::new();
    fs.push((String::from_str("num"), Value::Int(c.num as i64)));
    fs.push((String::from_str("title"), title_v));
    fs.push((String::from_str("pages"), pages_v));
    proof {
        assert(fields_view(fs@) =~= (spec_encode_chapter(chapter_view(*c))->Obj_0));
    }
    Value::Obj(fs)
}

/// Decodes a chapter, distinguishing an absent title from an empty one.
pub fn decode_chapter(v: &Value) -> (r: Result<Chapter, Error>)
    ensures
        chapter_result_view(r) == spec_decode_chapter(value_view(*v)),
{
    let fs = match v {
        Value::Obj(fs) => fs,
        _ => {
            return Err(Error::IntegrityError);
        },
    };
    let num: u8 = match obj_get_exec(fs, "num") {
        Option::Some(Value::Int(i)) => if 0 <= *i && *i <= 255 {
            *i as u8
        } else {
            return Err(Error::IntegrityError);
        },
        _ => {
            return Err(Error::IntegrityError);
        },
    };
    let title: Option<String> = match obj_get_exec(fs, "title") {
        Option::None => Option::None,
        Option::Some(Value::Null) => Option::None,
        Option::Some(Value::Str(s)) => Option::Some(s.clone()),
        Option::Some(_) => {
            return Err(Error::IntegrityError);
        },
    };
    let pages: Document = match obj_get_exec(fs, "pages") {
        Option::Some(pv) => match decode_document(pv) {
            Result::Ok(d) => d,
            Result::Err(e) => {
                return Err(e);
            },
        },
        Option::None => {
            return Err(Error::IntegrityError);
        },
    };
    Ok(Chapter { num, title, pages })
}

/// Encodes a project: its name and its chapters in order.
pub fn encode_project(p: &Project) -> (v: Value)
    ensures
        value_view(v) == spec_encode_project(project_view(*p)),
{
    broadcast use lemma_fields_view, lemma_values_view;

    let mut books: Vec<Value> = Vec::new();
    let mut i: usize = 0;
    while i < p.books.len()
        invariant
            0 <= i <= p.books@.len(),
            books@.len() == i,
            forall|t: int|
                0 <= t < i ==> value_view(#[trigger] books@[t]) == spec_encode_chapter(
                    chapter_view(p.books@[t]),
                ),
        decreases p.books@.len() - i,
    {
        let bv = encode_chapter(&p.books[i]);
        books.push(bv);
        i = i + 1;
    }
    proof {
        assert(values_view(books@) =~= spec_encode_chapters(chapters_view(p.books@)));
    }
    let mut fs: Vec<(String, Value)> = Vec::new();
    fs.push((String::from_str("name"), Value::Str(p.name.clone())));
    fs.push((String::from_str("books"), Value::Arr(books)));
    proof {
        assert(fields_view(fs@) =~= (spec_encode_project(project_view(*p))->Obj_0));
    }
    Value::Obj(fs)
}

/// Decodes a project; a failing chapter fails the whole project.
#[verifier::loop_isolation(false)]
pub fn decode_project(v: &Value) -> (r: Result<Project, Error>)
    ensures
        project_result_view(r) == spec_decode_project(value_view(*v)),
{
    broadcast use lemma_values_view;

    let fs = match v {
        Value::Obj(fs) => fs,
        _ => {
            return Err(Error::IntegrityError);
        },
    };
    let name: String = match obj_get_exec(fs, "name") {
        Option::Some(Value::Str(s)) => s.clone(),
        _ => {
            return Err(Error::IntegrityError);
        },
    };
    let books: Vec<Chapter> = match obj_get_exec(fs, "books") {
        Option::Some(Value::Arr(bs)) => {
            let mut acc: Vec<Chapter> = Vec::new();
            let mut i: usize = 0;
            while i < bs.len()
                invariant
                    0 <= i <= bs@.len(),
                    acc@.len() == i,
                    forall|t: int|
                        0 <= t < i ==> spec_decode_chapter(#[trigger] values_view(bs@)[t])
                            == Result::Ok::<ChapterView, Error>(chapter_view(acc@[t])),
                decreases bs@.len() - i,
            {
                broadcast use lemma_values_view;

                match decode_chapter(&bs[i]) {
                    Result::Ok(c) => acc.push(c),
                    Result::Err(e) => {
                        proof {
                            lemma_decode_chapters_err(values_view(bs@), i as int, e);
                        }
                        return Err(e);
                    },
                }
                i = i + 1;
            }
            proof {
                lemma_decode_chapters_pointwise(values_view(bs@), chapters_view(acc@));
            }
            acc
        },
        _ => {
            return Err(Error::IntegrityError);
        },
    };
    Ok(Project { name, books })
}

/// Encodes a setting: an object holding its description document.
pub fn encode_setting(s: &Setting) -> (v: Value)
    ensures
        value_view(v) == spec_encode_setting(setting_view(*s)),
{
    broadcast use lemma_fields_view;

    let dv = encode_document(&s.description);
    let mut fs: Vec<(String, Value)> = Vec::new();
    fs.push((String::from_str("description"), dv));
    proof {
        assert(fields_view(fs@) =~= (spec_encode_setting(setting_view(*s))->Obj_0));
    }
    Value::Obj(fs)
}

/// Decodes a setting.
pub fn decode_setting(v: &Value) -> (r: Result<Setting, Error>)
    ensures
        setting_result_view(r) == spec_decode_setting(value_view(*v)),
{
    let fs = match v {
        Value::Obj(fs) => fs,
        _ => {
            return Err(Error::IntegrityError);
        },
    };
    match obj_get_exec(fs, "description") {
        Option::Some(dv) => match decode_document(dv) {
            Result::Ok(d) => Ok(Setting { description: d }),
            Result::Err(e) => Err(e),
        },
        Option::None => Err(Error::IntegrityError),
    }
}

/// Encodes a character: its name, its setting of origin, and its
/// description document.
pub fn encode_character(c: &Character) -> (v: Value)
    ensures
        value_view(v) == spec_encode_character(character_view(*c)),
{
    broadcast use lemma_fields_view;

    let ov = encode_setting(&c.origin);
    let dv = encode_document(&c.description);
    let mut fs: Vec<(String, Value)> = Vec::new();
    fs.push((String::from_str("name"), Value::Str(c.name.clone())));
    fs.push((String::from_str("origin"), ov));
    fs.push((String::from_str("description"), dv));
    proof {
        assert(fields_view(fs@) =~= (spec_encode_character(character_view(*c))->Obj_0));
    }
    Value::Obj(fs)
}

/// Decodes a character.
pub fn decode_character(v: &Value) -> (r: Result<Character, Error>)
    ensures
        character_result_view(r) == spec_decode_character(value_view(*v)),
{
    let fs = match v {
        Value::Obj(fs) => fs,
        _ => {
            return Err(Error::IntegrityError);
        },
    };
    let name: String = match obj_get_exec(fs, "name") {
        Option::Some(Value::Str(s)) => s.clone(),
        _ => {
            return Err(Error::IntegrityError);
        },
    };
    let ov = match obj_get_exec(fs, "origin") {
        Option::Some(x) => x,
        Option::None => {
            return Err(Error::IntegrityError);
        },
    };
    let dv = match obj_get_exec(fs, "description") {
        Option::Some(x) => x,
        Option::None => {
            return Err(Error::IntegrityError);
        },
    };
    let origin: Setting = match decode_setting(ov) {
        Result::Ok(s) => s,
        Result::Err(e) => {
            return Err(e);
        },
    };
    let description: Document = match decode_document(dv) {
        Result::Ok(d) => d,
        Result::Err(e) => {
            return Err(e);
        },
    };
    Ok(Character { name, origin, description })
}

// ---------------------------------------------------------------------
// round-trip laws
// ---------------------------------------------------------------------
/// Document round trip: a document within the decoder's depth bound
/// decodes back from its own encoding.
pub proof fn lemma_document_round_trip(d: DocumentView)
    requires
        node_depth(d.root) <= MAX_NODE_DEPTH as int,
    ensures
        spec_decode_document(spec_encode_document(d)) == Result::Ok::<DocumentView, Error>(d),
{
    reveal_strlit("root");
    let fs = spec_encode_document(d)->Obj_0;
    lemma_key_index_first(fs, "root"@, 0);
    lemma_node_round_trip(d.root);
}

/// Chapter round trip: number, optional title (absence preserved) and
/// pages within the decoder's depth bound all survive an encode–decode
/// pair.
pub proof fn lemma_chapter_round_trip(c: ChapterView)
    requires
        node_depth(c.pages.root) <= MAX_NODE_DEPTH as int,
    ensures
        spec_decode_chapter(spec_encode_chapter(c)) == Result::Ok::<ChapterView, Error>(c),
{
    reveal_strlit("num");
    reveal_strlit("title");
    reveal_strlit("pages");
    assert("num"@.len() == 3);
    assert("title"@.len() == 5);
    assert("pages"@.len() == 5);
    assert("title"@ != "pages"@) by {
        assert("title"@[0] == 't');
        assert("pages"@[0] == 'p');
    }
    let fs = spec_encode_chapter(c)->Obj_0;
    lemma_key_index_first(fs, "num"@, 0);
    lemma_key_index_first(fs, "title"@, 1);
    lemma_key_index_first(fs, "pages"@, 2);
    lemma_document_round_trip(c.pages);
}

/// Project round trip: the name and every chapter, in order, survive an
/// encode–decode pair, each chapter's pages within the decoder's depth
/// bound.
pub proof fn lemma_project_round_trip(p: ProjectView)
    requires
        forall|i: int|
            0 <= i < p.books.len() ==> node_depth(#[trigger] p.books[i].pages.root)
                <= MAX_NODE_DEPTH as int,
    ensures
        spec_decode_project(spec_encode_project(p)) == Result::Ok::<ProjectView, Error>(p),
{
    reveal_strlit("name");
    reveal_strlit("books");
    assert("name"@.len() == 4);
    assert("books"@.len() == 5);
    let fs = spec_encode_project(p)->Obj_0;
    lemma_key_index_first(fs, "name"@, 0);
    lemma_key_index_first(fs, "books"@, 1);
    let bs = spec_encode_chapters(p.books);
    assert forall|t: int| 0 <= t < bs.len() implies spec_decode_chapter(#[trigger] bs[t])
        == Result::Ok::<ChapterView, Error>(p.books[t]) by {
        lemma_chapter_round_trip(p.books[t]);
    }
    lemma_decode_chapters_pointwise(bs, p.books);
}

/// Setting round trip, its description within the decoder's depth bound.
pub proof fn lemma_setting_round_trip(s: SettingView)
    requires
        node_depth(s.description.root) <= MAX_NODE_DEPTH as int,
    ensures
        spec_decode_setting(spec_encode_setting(s)) == Result::Ok::<SettingView, Error>(s),
{
    reveal_strlit("description");
    let fs = spec_encode_setting(s)->Obj_0;
    lemma_key_index_first(fs, "description"@, 0);
    lemma_document_round_trip(s.description);
}

/// Character round trip, both its documents within the decoder's depth
/// bound.
pub proof fn lemma_character_round_trip(c: CharacterView)
    requires
        node_depth(c.origin.description.root) <= MAX_NODE_DEPTH as int,
        node_depth(c.description.root) <= MAX_NODE_DEPTH as int,
    ensures
        spec_decode_character(spec_encode_character(c)) == Result::Ok::<CharacterView, Error>(c),
{
    reveal_strlit("name");
    reveal_strlit("origin");
    reveal_strlit("description");
    assert("name"@.len() == 4);
    assert("origin"@.len() == 6);
    assert("description"@.len() == 11);
    let fs = spec_encode_character(c)->Obj_0;
    lemma_key_index_first(fs, "name"@, 0);
    lemma_key_index_first(fs, "origin"@, 1);
    lemma_key_index_first(fs, "description"@, 2);
    lemma_setting_round_trip(c.origin);
    lemma_document_round_trip(c.description);
}

} // verus!

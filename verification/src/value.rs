//! The structured wire value: a JSON-like tree of nulls, booleans,
//! integers, strings, arrays and keyed objects.  Every model type encodes
//! to and decodes from a [`Value`].

use vstd::prelude::*;

verus! {

/// A structured wire value.  An object keeps its entries in order; a
/// lookup takes the first entry with the sought key.
#[derive(Debug, PartialEq, Eq)]
pub enum Value {
    Null,
    Bool(bool),
    Int(i64),
    Str(String),
    Arr(Vec<Value>),
    Obj(Vec<(String, Value)>),
}

/// Mathematical image of a [`Value`]: the same tree with sequences in
/// place of vectors and strings.
pub enum ValueView {
    Null,
    Bool(bool),
    Int(i64),
    Str(Seq<char>),
    Arr(Seq<ValueView>),
    Obj(Seq<(Seq<char>, ValueView)>),
}

pub open spec fn value_view(v: Value) -> ValueView
    decreases v,
{
    match v {
        Value::Null => ValueView::Null,
        Value::Bool(b) => ValueView::Bool(b),
        Value::Int(i) => ValueView::Int(i),
        Value::Str(s) => ValueView::Str(s@),
        Value::Arr(vs) => ValueView::Arr(values_view(vs@)),
        Value::Obj(fs) => ValueView::Obj(fields_view(fs@)),
    }
}

pub open spec fn values_view(s: Seq<Value>) -> Seq<ValueView>
    decreases s,
{
    if s.len() == 0 {
        Seq::empty()
    } else {
        seq![value_view(s[0])] + values_view(s.subrange(1, s.len() as int))
    }
}

pub open spec fn fields_view(s: Seq<(String, Value)>) -> Seq<(Seq<char>, ValueView)>
    decreases s,
{
    if s.len() == 0 {
        Seq::empty()
    } else {
        seq![(s[0].0@, value_view(s[0].1))] + fields_view(s.subrange(1, s.len() as int))
    }
}

/// The view of a value sequence is the pointwise view of its values.
pub broadcast proof fn lemma_values_view(s: Seq<Value>)
    ensures
        (#[trigger] values_view(s)).len() == s.len(),
        forall|i: int| 0 <= i < s.len() ==> values_view(s)[i] == value_view(s[i]),
    decreases s.len(),
{
    if s.len() != 0 {
        lemma_values_view(s.subrange(1, s.len() as int));
        assert forall|i: int| 0 <= i < s.len() implies values_view(s)[i] == value_view(s[i]) by {
            if i > 0 {
                assert(s.subrange(1, s.len() as int)[i - 1] == s[i]);
            }
        }
    }
}

/// The view of a field sequence pairs each key's characters with the
/// view of its value.
pub broadcast proof fn lemma_fields_view(s: Seq<(String, Value)>)
    ensures
        (#[trigger] fields_view(s)).len() == s.len(),
        forall|i: int| 0 <= i < s.len() ==> fields_view(s)[i] == (s[i].0@, value_view(s[i].1)),
    decreases s.len(),
{
    if s.len() != 0 {
        lemma_fields_view(s.subrange(1, s.len() as int));
        assert forall|i: int| 0 <= i < s.len() implies fields_view(s)[i] == (
        s[i].0@,
        value_view(s[i].1),
        ) by {
            if i > 0 {
                assert(s.subrange(1, s.len() as int)[i - 1] == s[i]);
            }
        }
    }
}

/// The position of the first entry of `fs` whose key is `k`, or `-1`
/// when no entry has that key.
pub open spec fn key_index(fs: Seq<(Seq<char>, ValueView)>, k: Seq<char>) -> int
    decreases fs.len(),
{
    if fs.len() == 0 {
        -1
    } else if fs[0].0 == k {
        0
    } else if key_index(fs.subrange(1, fs.len() as int), k) < 0 {
        -1
    } else {
        1 + key_index(fs.subrange(1, fs.len() as int), k)
    }
}

/// The value of the first entry of `fs` whose key is `k`, if any.
pub open spec fn obj_get(fs: Seq<(Seq<char>, ValueView)>, k: Seq<char>) -> Option<ValueView> {
    if key_index(fs, k) < 0 {
        Option::None
    } else {
        Option::Some(fs[key_index(fs, k)].1)
    }
}

/// A key's index is in range and names an entry carrying that key.
pub broadcast proof fn lemma_key_index(fs: Seq<(Seq<char>, ValueView)>, k: Seq<char>)
    ensures
        -1 <= #[trigger] key_index(fs, k) < fs.len(),
        key_index(fs, k) >= 0 ==> fs[key_index(fs, k)].0 == k,
        key_index(fs, k) >= 0 ==> forall|t: int| 0 <= t < key_index(fs, k) ==> fs[t].0 != k,
        key_index(fs, k) == -1 ==> forall|t: int| 0 <= t < fs.len() ==> fs[t].0 != k,
    decreases fs.len(),
{
    if fs.len() != 0 && fs[0].0 != k {
        lemma_key_index(fs.subrange(1, fs.len() as int), k);
        assert forall|t: int| 1 <= t < fs.len() implies fs.subrange(1, fs.len() as int)[t - 1]
            == fs[t] by {}
    }
}

/// The first entry with the sought key decides the lookup: if entry `j`
/// carries `k` and no earlier entry does, the lookup lands on `j`.
pub proof fn lemma_key_index_first(fs: Seq<(Seq<char>, ValueView)>, k: Seq<char>, j: int)
    requires
        0 <= j < fs.len(),
        fs[j].0 == k,
        forall|t: int| 0 <= t < j ==> fs[t].0 != k,
    ensures
        key_index(fs, k) == j,
    decreases j,
{
    if j > 0 {
        let rest = fs.subrange(1, fs.len() as int);
        assert forall|t: int| 0 <= t < j - 1 implies rest[t].0 != k by {
            assert(rest[t] == fs[t + 1]);
        }
        assert(rest[j - 1] == fs[j]);
        lemma_key_index_first(rest, k, j - 1);
    }
}

/// Looks up the first entry of `fs` whose key is `key`, the executable
/// counterpart of [`obj_get`].
pub fn obj_get_exec<'a>(fs: &'a Vec<(String, Value)>, key: &str) -> (r: Option<&'a Value>)
    ensures
        match r {
            Option::Some(v) => {
                &&& obj_get(fields_view(fs@), key@) == Option::Some(value_view(*v))
                &&& exists|i: int| 0 <= i < fs@.len() && *v == #[trigger] fs@[i].1
            },
            Option::None => obj_get(fields_view(fs@), key@) is None,
        },
{
    broadcast use lemma_fields_view;

    let k = key.to_owned();
    let n = fs.len();
    let mut j: usize = 0;
    while j < n
        invariant
            n == fs@.len(),
            0 <= j <= n,
            k@ == key@,
            forall|t: int| 0 <= t < j ==> fields_view(fs@)[t].0 != key@,
        decreases n - j,
    {
        broadcast use lemma_fields_view;

        if fs[j].0 == k {
            proof {
                lemma_key_index_first(fields_view(fs@), key@, j as int);
            }
            return Some(&fs[j].1);
        }
        j = j + 1;
    }
    proof {
        lemma_key_index(fields_view(fs@), key@);
    }
    None
}

} // verus!

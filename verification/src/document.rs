//! JSON-like documents and the resolution of field paths inside them.

use vstd::prelude::*;

verus! {

/// A JSON value tree. A number is held as its decimal text, an object as its
/// members in order.
#[derive(Debug, PartialEq, Eq)]
pub enum Document {
    Null,
    Bool(bool),
    Number(String),
    Text(String),
    Array(Vec<Document>),
    Object(Vec<(String, Document)>),
}

/// The mathematical value of a [`Document`].
pub enum Json {
    Null,
    Bool(bool),
    Number(Seq<char>),
    Text(Seq<char>),
    Array(Seq<Json>),
    Object(Seq<(Seq<char>, Json)>),
}

/// The mathematical value of `doc`.
pub open spec fn json_of(doc: Document) -> Json
    decreases doc,
{
    match doc {
        Document::Null => Json::Null,
        Document::Bool(b) => Json::Bool(b),
        Document::Number(text) => Json::Number(text@),
        Document::Text(text) => Json::Text(text@),
        Document::Array(items) => Json::Array(
            Seq::new(
                items@.len(),
                |i: int| if 0 <= i < items@.len() { json_of(items@[i]) } else { Json::Null },
            ),
        ),
        Document::Object(members) => Json::Object(
            Seq::new(
                members@.len(),
                |i: int|
                    if 0 <= i < members@.len() {
                        (members@[i].0@, json_of(members@[i].1))
                    } else {
                        (Seq::empty(), Json::Null)
                    },
            ),
        ),
    }
}

impl View for Document {
    type V = Json;

    open spec fn view(&self) -> Json {
        json_of(*self)
    }
}

/// The value an object holds under `key`: that of its last member so named.
pub open spec fn member(members: Seq<(Seq<char>, Json)>, key: Seq<char>) -> Option<Json>
    decreases members.len(),
{
    if members.len() == 0 {
        None
    } else if members.last().0 == key {
        Some(members.last().1)
    } else {
        member(members.drop_last(), key)
    }
}

/// The value reached from `doc` by taking each segment of `path` as an object
/// key. `None` (absent) as soon as a key is missing or the value at hand is
/// not an object; the empty path reaches `doc` itself.
pub open spec fn resolve(doc: Json, path: Seq<Seq<char>>) -> Option<Json>
    decreases path.len(),
{
    if path.len() == 0 {
        Some(doc)
    } else {
        match doc {
            Json::Object(members) => match member(members, path[0]) {
                Some(child) => resolve(child, path.skip(1)),
                None => None,
            },
            _ => None,
        }
    }
}

/// The character sequences of a list of strings.
pub open spec fn texts(parts: Seq<String>) -> Seq<Seq<char>> {
    Seq::new(parts.len(), |i: int| parts[i]@)
}

impl Document {
    /// The member of this object named `key`; `None` when there is none or
    /// this is not an object.
    pub fn get(&self, key: &String) -> (r: Option<&Document>)
        ensures
            match r {
                Some(child) => self@ is Object && member(self@->Object_0, key@) == Some(child@),
                None => self@ is Object ==> member(self@->Object_0, key@) is None,
            },
    {
        match self {
            Document::Object(members) => {
                let ghost all = self@->Object_0;
                assert(all.take(members.len() as int) =~= all);
                let mut i: usize = members.len();
                while i > 0
                    invariant
                        i <= members.len(),
                        all.len() == members.len(),
                        self@ is Object,
                        all == self@->Object_0,
                        forall|k: int|
                            0 <= k < members.len() ==> all[k] == (members[k].0@, members[k].1@),
                        member(all, key@) == member(all.take(i as int), key@),
                    decreases i,
                {
                    i = i - 1;
                    assert(all.take(i + 1).last() == all[i as int]);
                    assert(all.take(i + 1).drop_last() =~= all.take(i as int));
                    if members[i].0 == *key {
                        return Some(&members[i].1);
                    }
                }
                assert(all.take(0).len() == 0);
                None
            },
            _ => None,
        }
    }

    /// A copy with the same value.
    pub fn duplicate(&self) -> (copy: Self)
        ensures
            copy@ == self@,
        decreases self,
    {
        match self {
            Document::Null => Document::Null,
            Document::Bool(b) => Document::Bool(*b),
            Document::Number(text) => Document::Number(text.clone()),
            Document::Text(text) => Document::Text(text.clone()),
            Document::Array(items) => {
                let mut copies: Vec<Document> = Vec::new();
                let mut i: usize = 0;
                while i < items.len()
                    invariant
                        i <= items.len(),
                        *self == Document::Array(*items),
                        copies@.len() == i,
                        forall|k: int| 0 <= k < i ==> copies@[k]@ == items@[k]@,
                    decreases items.len() - i,
                {
                    proof {
                        vstd::std_specs::vec::axiom_vec_index_decreases(*items, i as int);
                        assert(decreases_to!(*self => self->Array_0));
                    }
                    let copy = items[i].duplicate();
                    copies.push(copy);
                    i = i + 1;
                }
                let copy = Document::Array(copies);
                assert(copy@->Array_0 =~= self@->Array_0);
                copy
            },
            Document::Object(members) => {
                let mut copies: Vec<(String, Document)> = Vec::new();
                let mut i: usize = 0;
                while i < members.len()
                    invariant
                        i <= members.len(),
                        *self == Document::Object(*members),
                        copies@.len() == i,
                        forall|k: int|
                            0 <= k < i ==> copies@[k].0@ == members@[k].0@ && copies@[k].1@
                                == members@[k].1@,
                    decreases members.len() - i,
                {
                    let key = members[i].0.clone();
                    proof {
                        vstd::std_specs::vec::axiom_vec_index_decreases(*members, i as int);
                        assert(decreases_to!(*self => self->Object_0));
                        assert(decreases_to!(members[i as int] => members[i as int].1));
                    }
                    let value = members[i].1.duplicate();
                    copies.push((key, value));
                    i = i + 1;
                }
                let copy = Document::Object(copies);
                assert(copy@->Object_0 =~= self@->Object_0);
                copy
            },
        }
    }
}

impl Clone for Document {
    fn clone(&self) -> (copy: Self)
        ensures
            copy@ == self@,
    {
        self.duplicate()
    }
}

/// Resolves the field path `parts` inside `doc`: the value that the walk
/// along `parts` reaches, or `None` where it reaches none.
pub fn get_value_from_doc<'a>(doc: &'a Document, parts: &[String]) -> (r: Option<&'a Document>)
    ensures
        match r {
            Some(value) => resolve(doc@, texts(parts@)) == Some(value@),
            None => resolve(doc@, texts(parts@)) is None,
        },
{
    let ghost path = texts(parts@);
    let mut current: &Document = doc;
    let mut i: usize = 0;
    assert(path.skip(0) =~= path);
    while i < parts.len()
        invariant
            i <= parts.len(),
            path == texts(parts@),
            resolve(doc@, path) == resolve(current@, path.skip(i as int)),
        decreases parts.len() - i,
    {
        assert(path.skip(i as int)[0] == parts[i as int]@);
        assert(path.skip(i as int).skip(1) =~= path.skip(i + 1));
        match current.get(&parts[i]) {
            Some(child) => {
                current = child;
            },
            None => {
                return None;
            },
        }
        i = i + 1;
    }
    Some(current)
}

} // verus!

//! The manifest document as plain values, and reading entries out of it.
use vstd::prelude::*;
use crate::entry::Entry;
use crate::error::Error;
use crate::order::{str_eq, views};

verus! {

/// A node of a parsed block-style document. Scalars are strings.
#[derive(Debug)]
pub enum Value {
    Str(String),
    List(Vec<Value>),
    /// Key-value pairs in document order.
    Hash(Vec<(Value, Value)>),
    /// Anything else (an alias, a bad value).
    Other,
}

/// The value under the first key of `m` that is the string `key`.
pub open spec fn lookup(m: Seq<(Value, Value)>, key: Seq<char>) -> Option<Value>
    decreases m.len(),
{
    if m.len() == 0 {
        None
    } else if m[0].0 is Str && m[0].0->Str_0@ == key {
        Some(m[0].1)
    } else {
        lookup(m.drop_first(), key)
    }
}

/// The value of field `key` of a map node; none for any other node.
pub open spec fn field(v: Value, key: Seq<char>) -> Option<Value> {
    match v {
        Value::Hash(m) => lookup(m@, key),
        _ => None,
    }
}

/// The text of a string node.
pub open spec fn text_of(v: Option<Value>) -> Option<Seq<char>> {
    match v {
        Some(Value::Str(s)) => Some(s@),
        _ => None,
    }
}

/// The strings of a list node, in order, other items left out.
pub open spec fn strings_in(items: Seq<Value>) -> Seq<Seq<char>>
    decreases items.len(),
{
    if items.len() == 0 {
        seq![]
    } else {
        let rest = strings_in(items.drop_last());
        match items.last() {
            Value::Str(s) => rest.push(s@),
            _ => rest,
        }
    }
}

/// A field read as a list of paths: a list gives its strings, a single
/// string gives itself, anything else nothing.
pub open spec fn str_list(v: Option<Value>) -> Seq<Seq<char>> {
    match v {
        Some(Value::List(items)) => strings_in(items@),
        Some(Value::Str(s)) => seq![s@],
        _ => seq![],
    }
}

/// The optional string `o` holds the text `t`.
pub open spec fn holds_text(o: Option<String>, t: Option<Seq<char>>) -> bool {
    match o {
        Some(s) => t == Some(s@),
        None => t is None,
    }
}

/// `e` is the entry that the map node `v` describes.
pub open spec fn entry_of(v: Value, e: Entry) -> bool {
    &&& text_of(field(v, "cmd"@)) == Some(e.cmd@)
    &&& holds_text(e.name, text_of(field(v, "name"@)))
    &&& holds_text(e.sha, text_of(field(v, "digest"@)))
    &&& views(e.files@) == str_list(field(v, "files"@))
    &&& views(e.required_files@) == str_list(field(v, "required_files"@))
}

/// The node that an optional reference points to.
pub open spec fn deref_opt(o: Option<&Value>) -> Option<Value> {
    match o {
        Some(x) => Some(*x),
        None => None,
    }
}

/// Finds the value of field `key` of a map node.
pub fn get<'a>(v: &'a Value, key: &str) -> (r: Option<&'a Value>)
    ensures
        deref_opt(r) == field(*v, key@),
{
    match v {
        Value::Hash(m) => {
            let mut i: usize = 0;
            proof {
                assert(field(*v, key@) == lookup(m@, key@));
                assert(m@.skip(0) =~= m@);
            }
            while i < m.len()
                invariant
                    i <= m.len(),
                    lookup(m@, key@) == lookup(m@.skip(i as int), key@),
                    field(*v, key@) == lookup(m@, key@),
                decreases m.len() - i,
            {
                let pair = &m[i];
                proof {
                    assert(m@.skip(i as int)[0] == *pair);
                    assert(m@.skip(i as int).drop_first() =~= m@.skip(i + 1));
                }
                match &pair.0 {
                    Value::Str(k) => {
                        if str_eq(k.as_str(), key) {
                            proof {
                                let rest = m@.skip(i as int);
                                assert(rest.len() > 0);
                                assert(rest[0].0 is Str && rest[0].0->Str_0@ == key@);
                                assert(lookup(rest, key@) == Some(rest[0].1));
                                assert(deref_opt(Some(&pair.1)) == Some(pair.1));
                            }
                            return Some(&pair.1);
                        }
                    },
                    _ => {},
                }
                i = i + 1;
            }
            None
        },
        _ => None,
    }
}

/// The text of a string node, copied.
pub fn as_text(v: Option<&Value>) -> (r: Option<String>)
    ensures
        holds_text(r, text_of(deref_opt(v))),
{
    match v {
        Some(Value::Str(s)) => Some(s.clone()),
        _ => None,
    }
}

/// Reads a field as a list of paths, as `str_list` says.
pub fn str_vec(v: Option<&Value>) -> (r: Vec<String>)
    ensures
        views(r@) == str_list(deref_opt(v)),
{
    match v {
        Some(Value::List(items)) => {
            let mut r: Vec<String> = Vec::new();
            let mut i: usize = 0;
            proof {
                assert(items@.subrange(0, 0) =~= Seq::<Value>::empty());
                assert(views(r@) =~= Seq::<Seq<char>>::empty());
            }
            while i < items.len()
                invariant
                    i <= items.len(),
                    views(r@) == strings_in(items@.subrange(0, i as int)),
                decreases items.len() - i,
            {
                let ghost before = r@;
                proof {
                    let next = items@.subrange(0, i + 1);
                    assert(next.drop_last() =~= items@.subrange(0, i as int));
                    assert(next.last() == items@[i as int]);
                }
                match &items[i] {
                    Value::Str(s) => {
                        r.push(s.clone());
                        proof {
                            assert(views(r@) =~= views(before).push(s@));
                        }
                    },
                    _ => {},
                }
                i = i + 1;
            }
            proof {
                assert(items@.subrange(0, items@.len() as int) =~= items@);
            }
            r
        },
        Some(Value::Str(s)) => {
            let r = vec![s.clone()];
            proof {
                assert(views(r@) =~= seq![s@]);
            }
            r
        },
        _ => Vec::new(),
    }
}

/// Reading a value of this library's own from a document node.
pub trait FromYaml: Sized {
    fn from_yaml(yaml: &Value) -> Result<Self, Error>;
}

impl Entry {
    /// The entry that a document node describes: `MissingCmd` unless the
    /// node is a map with a string `cmd`.
    pub fn parse(yaml: &Value) -> (r: Result<Entry, Error>)
        ensures
            text_of(field(*yaml, "cmd"@)) is None ==> r matches Err(Error::MissingCmd),
            text_of(field(*yaml, "cmd"@)) is Some ==> (r matches Ok(e) && entry_of(*yaml, e)),
    {
        let cmd = match as_text(get(yaml, "cmd")) {
            Some(c) => c,
            None => {
                return Err(Error::MissingCmd);
            },
        };
        Ok(Entry {
            name: as_text(get(yaml, "name")),
            cmd,
            sha: as_text(get(yaml, "digest")),
            files: str_vec(get(yaml, "files")),
            required_files: str_vec(get(yaml, "required_files")),
        })
    }
}

/// The node has a string `cmd`, so it describes an entry.
pub open spec fn has_cmd(v: Value) -> bool {
    text_of(field(v, "cmd"@)) is Some
}

/// `es` are the entries that the nodes `items` describe, one for one.
pub open spec fn entries_of(items: Seq<Value>, es: Seq<Entry>) -> bool {
    &&& es.len() == items.len()
    &&& forall|i: int| 0 <= i < items.len() ==> entry_of(#[trigger] items[i], es[i])
}

/// The entries that a document's top node lists: `ManifestMalformed`
/// unless it is a list, `MissingCmd` if one of its items has no `cmd`.
pub fn parse_entries(yaml: &Value) -> (r: Result<Vec<Entry>, Error>)
    ensures
        !(*yaml is List) ==> r matches Err(Error::ManifestMalformed),
        *yaml is List ==> match r {
            Ok(es) => entries_of(yaml->List_0@, es@),
            Err(e) => e is MissingCmd && exists|i: int|
                0 <= i < yaml->List_0@.len() && !has_cmd(#[trigger] yaml->List_0@[i]),
        },
{
    match yaml {
        Value::List(items) => {
            let mut es: Vec<Entry> = Vec::new();
            let mut i: usize = 0;
            while i < items.len()
                invariant
                    i <= items.len(),
                    *yaml == Value::List(*items),
                    entries_of(items@.subrange(0, i as int), es@),
                decreases items.len() - i,
            {
                match Entry::parse(&items[i]) {
                    Ok(e) => {
                        es.push(e);
                        proof {
                            let done = items@.subrange(0, i + 1);
                            assert forall|j: int| 0 <= j < done.len() implies entry_of(
                                #[trigger] done[j],
                                es@[j],
                            ) by {
                                if j < i {
                                    assert(done[j] == items@.subrange(0, i as int)[j]);
                                }
                            }
                        }
                    },
                    Err(e) => {
                        proof {
                            assert(!has_cmd(items@[i as int]));
                            assert(yaml->List_0@[i as int] == items@[i as int]);
                            assert(e is MissingCmd);
                        }
                        return Err(e);
                    },
                }
                i = i + 1;
            }
            proof {
                assert(items@.subrange(0, items@.len() as int) =~= items@);
            }
            Ok(es)
        },
        _ => Err(Error::ManifestMalformed),
    }
}

/// The entries of a manifest, from its parsed documents: those of the first
/// document, as `parse_entries` reads them; `ManifestMalformed` if there is
/// no document.
pub fn parse_manifest(docs: &Vec<Value>) -> (r: Result<Vec<Entry>, Error>)
    ensures
        docs@.len() == 0 ==> r matches Err(Error::ManifestMalformed),
        docs@.len() > 0 && !(docs@[0] is List) ==> r matches Err(Error::ManifestMalformed),
        docs@.len() > 0 && docs@[0] is List ==> match r {
            Ok(es) => entries_of(docs@[0]->List_0@, es@),
            Err(e) => e is MissingCmd && exists|i: int|
                0 <= i < docs@[0]->List_0@.len() && !has_cmd(#[trigger] docs@[0]->List_0@[i]),
        },
{
    if docs.len() == 0 {
        Err(Error::ManifestMalformed)
    } else {
        parse_entries(&docs[0])
    }
}

impl FromYaml for Entry {
    fn from_yaml(yaml: &Value) -> Result<Entry, Error> {
        Entry::parse(yaml)
    }
}

} // verus!

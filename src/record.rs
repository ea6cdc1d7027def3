//! Stored documents and how they are read as notebooks and paragraphs.
//!
//! A notebook document has the fields `_id` (an identifier), `name` (text)
//! and `paragraphs` (a list of texts); a paragraph document has `_id`, `code`
//! and `result`. Where a field name occurs twice, the first occurrence counts.
use crate::model::{Notebook, NotebookView, Paragraph, ParagraphView, ResolveError};
use crate::object_id::{object_id_text, render_object_id};
use vstd::prelude::*;

verus! {

/// One value of a stored document, as far as the entities can hold it.
#[derive(Debug)]
pub enum StoredValue {
    ObjectId([u8; 12]),
    Text(String),
    List(Vec<StoredValue>),
    /// A value of any other kind (a number, a date, a nested document).
    Other,
}

/// A stored document: its fields in stored order.
#[derive(Debug)]
pub struct Record {
    pub fields: Vec<(String, StoredValue)>,
}

/// The value of the first field named `key`.
pub open spec fn field_of(fields: Seq<(String, StoredValue)>, key: Seq<char>) -> Option<StoredValue>
    decreases fields.len(),
{
    if fields.len() == 0 {
        None
    } else if fields[0].0@ == key {
        Some(fields[0].1)
    } else {
        field_of(fields.drop_first(), key)
    }
}

/// The texts of a list whose every item is text.
pub open spec fn texts_of(items: Seq<StoredValue>) -> Option<Seq<Seq<char>>> {
    if forall|i: int| 0 <= i < items.len() ==> (#[trigger] items[i]) is Text {
        Some(Seq::new(items.len(), |i: int| items[i]->Text_0@))
    } else {
        None
    }
}

/// The identifier bytes stored under `_id`, where that field is an identifier.
pub open spec fn stored_key(r: Record) -> Option<Seq<u8>> {
    match field_of(r.fields@, "_id"@) {
        Some(StoredValue::ObjectId(b)) => Some(b@),
        _ => None,
    }
}

/// The notebook that a document holds, where it has a notebook's shape.
pub open spec fn notebook_of(r: Record) -> Option<NotebookView> {
    match (
        field_of(r.fields@, "_id"@),
        field_of(r.fields@, "name"@),
        field_of(r.fields@, "paragraphs"@),
    ) {
        (Some(StoredValue::ObjectId(b)), Some(StoredValue::Text(n)), Some(StoredValue::List(ps))) => {
            match texts_of(ps@) {
                Some(ts) => Some(NotebookView { id: object_id_text(b@), name: n@, paragraphs: ts }),
                None => None,
            }
        },
        _ => None,
    }
}

/// The paragraph that a document holds, where it has a paragraph's shape.
pub open spec fn paragraph_of(r: Record) -> Option<ParagraphView> {
    match (
        field_of(r.fields@, "_id"@),
        field_of(r.fields@, "code"@),
        field_of(r.fields@, "result"@),
    ) {
        (Some(StoredValue::ObjectId(b)), Some(StoredValue::Text(c)), Some(StoredValue::Text(o))) => {
            Some(ParagraphView { id: object_id_text(b@), code: c@, result: o@ })
        },
        _ => None,
    }
}

proof fn lemma_field_of_suffix(fields: Seq<(String, StoredValue)>, key: Seq<char>, i: int)
    requires
        0 <= i < fields.len(),
        fields[i].0@ != key,
    ensures
        field_of(fields.subrange(i, fields.len() as int), key) == field_of(
            fields.subrange(i + 1, fields.len() as int),
            key,
        ),
{
    assert(fields.subrange(i, fields.len() as int).drop_first() =~= fields.subrange(
        i + 1,
        fields.len() as int,
    ));
}

/// The position of the first field named `key`.
fn find_field(fields: &Vec<(String, StoredValue)>, key: &String) -> (r: Option<usize>)
    ensures
        match r {
            None => field_of(fields@, key@) is None,
            Some(i) => i < fields@.len() && field_of(fields@, key@) == Some(fields@[i as int].1),
        },
{
    let mut i: usize = 0;
    assert(fields@.subrange(0, fields@.len() as int) =~= fields@);
    while i < fields.len()
        invariant
            i <= fields@.len(),
            field_of(fields@, key@) == field_of(fields@.subrange(i as int, fields@.len() as int), key@),
        decreases fields@.len() - i,
    {
        if fields[i].0 == *key {
            return Some(i);
        }
        proof {
            lemma_field_of_suffix(fields@, key@, i as int);
        }
        i = i + 1;
    }
    None
}

/// The texts of a list, or `None` where an item is not text.
fn texts_from(items: &Vec<StoredValue>) -> (r: Option<Vec<String>>)
    ensures
        match r {
            None => texts_of(items@) is None,
            Some(v) => texts_of(items@) == Some(v@.map_values(|s: String| s@)),
        },
{
    let mut out: Vec<String> = Vec::new();
    let mut i: usize = 0;
    while i < items.len()
        invariant
            i <= items@.len(),
            out@.len() == i,
            forall|j: int| 0 <= j < i ==> (#[trigger] items@[j]) is Text && out@[j]@ == items@[j]->Text_0@,
        decreases items@.len() - i,
    {
        match &items[i] {
            StoredValue::Text(s) => {
                out.push(s.clone());
            },
            _ => {
                return None;
            },
        }
        i = i + 1;
    }
    assert(texts_of(items@) == Some(out@.map_values(|s: String| s@))) by {
        assert(Seq::new(items@.len(), |i: int| items@[i]->Text_0@) =~= out@.map_values(
            |s: String| s@,
        ));
    }
    Some(out)
}

/// Reads a document as a notebook; `BadDocument` where it lacks a
/// notebook's shape.
pub fn notebook_from_record(r: &Record) -> (res: Result<Notebook, ResolveError>)
    ensures
        match notebook_of(*r) {
            Some(v) => res is Ok && res->Ok_0@ == v,
            None => res == Err::<Notebook, ResolveError>(ResolveError::BadDocument),
        },
{
    let id_key = String::from_str("_id");
    let name_key = String::from_str("name");
    let list_key = String::from_str("paragraphs");
    let (Some(a), Some(b), Some(c)) = (
        find_field(&r.fields, &id_key),
        find_field(&r.fields, &name_key),
        find_field(&r.fields, &list_key),
    ) else {
        return Err(ResolveError::BadDocument);
    };
    match (&r.fields[a].1, &r.fields[b].1, &r.fields[c].1) {
        (StoredValue::ObjectId(key), StoredValue::Text(name), StoredValue::List(items)) => {
            match texts_from(items) {
                Some(paragraphs) => {
                    let n = Notebook { id: render_object_id(key), name: name.clone(), paragraphs };
                    Ok(n)
                },
                None => Err(ResolveError::BadDocument),
            }
        },
        _ => Err(ResolveError::BadDocument),
    }
}

/// Reads a document as a paragraph; `BadDocument` where it lacks a
/// paragraph's shape.
pub fn paragraph_from_record(r: &Record) -> (res: Result<Paragraph, ResolveError>)
    ensures
        match paragraph_of(*r) {
            Some(v) => res is Ok && res->Ok_0@ == v,
            None => res == Err::<Paragraph, ResolveError>(ResolveError::BadDocument),
        },
{
    let id_key = String::from_str("_id");
    let code_key = String::from_str("code");
    let result_key = String::from_str("result");
    let (Some(a), Some(b), Some(c)) = (
        find_field(&r.fields, &id_key),
        find_field(&r.fields, &code_key),
        find_field(&r.fields, &result_key),
    ) else {
        return Err(ResolveError::BadDocument);
    };
    match (&r.fields[a].1, &r.fields[b].1, &r.fields[c].1) {
        (StoredValue::ObjectId(key), StoredValue::Text(code), StoredValue::Text(result)) => {
            Ok(Paragraph { id: render_object_id(key), code: code.clone(), result: result.clone() })
        },
        _ => Err(ResolveError::BadDocument),
    }
}

} // verus!

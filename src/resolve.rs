//! The query root and the mutation root.
//!
//! A resolver that reads the store works in two steps. The first decides
//! which lookup the store is asked for, or fails without asking. The second
//! takes what the store answered and decides the field's value or error.
use crate::model::{view_result, Notebook, NotebookView, Paragraph, ParagraphView, ResolveError};
use crate::object_id::{
    decode_object_id,
    is_canonical_id_text,
    is_hex_char,
    is_lower_hex_char,
    is_object_id_text,
    hex_digit,
    hex_value,
    object_id_text,
    parse_object_id,
};
use crate::record::{
    notebook_from_record,
    notebook_of,
    paragraph_from_record,
    paragraph_of,
    stored_key,
    Record,
};
use vstd::prelude::*;

verus! {

/// The two collections of the store.
#[derive(Debug)]
pub enum Collection {
    Notebooks,
    Paragraphs,
}

impl Collection {
    /// The collection's name in the store.
    pub fn name(&self) -> (r: &'static str)
        ensures
            r@ == collection_name(*self),
    {
        match self {
            Collection::Notebooks => "notebooks",
            Collection::Paragraphs => "paragraphs",
        }
    }
}

pub open spec fn collection_name(c: Collection) -> Seq<char> {
    match c {
        Collection::Notebooks => "notebooks"@,
        Collection::Paragraphs => "paragraphs"@,
    }
}

/// A request for the one document of `collection` whose `_id` is `key`.
#[derive(Debug)]
pub struct Lookup {
    pub collection: Collection,
    pub key: [u8; 12],
}

/// The lookup that identifier text asks for, or `MalformedId`.
pub open spec fn lookup_for(collection: Collection, id: Seq<char>) -> Result<Seq<u8>, ResolveError> {
    if is_object_id_text(id) {
        Ok(decode_object_id(id))
    } else {
        Err(ResolveError::MalformedId)
    }
}

/// The value of a single-document field, given what the store answered.
pub open spec fn notebook_answer(found: Result<Option<Record>, ResolveError>) -> Result<NotebookView, ResolveError> {
    match found {
        Err(e) => Err(e),
        Ok(None) => Err(ResolveError::NotFound),
        Ok(Some(r)) => match notebook_of(r) {
            Some(v) => Ok(v),
            None => Err(ResolveError::BadDocument),
        },
    }
}

pub open spec fn paragraph_answer(found: Result<Option<Record>, ResolveError>) -> Result<ParagraphView, ResolveError> {
    match found {
        Err(e) => Err(e),
        Ok(None) => Err(ResolveError::NotFound),
        Ok(Some(r)) => match paragraph_of(r) {
            Some(v) => Ok(v),
            None => Err(ResolveError::BadDocument),
        },
    }
}

/// The notebooks that a scan's rows hold, in row order; the first row that
/// failed or does not hold a notebook decides the error.
pub open spec fn rows_answer(rows: Seq<Result<Record, ResolveError>>) -> Result<Seq<NotebookView>, ResolveError>
    decreases rows.len(),
{
    if rows.len() == 0 {
        Ok(Seq::empty())
    } else {
        match rows_answer(rows.drop_last()) {
            Err(e) => Err(e),
            Ok(vs) => match rows.last() {
                Err(e) => Err(e),
                Ok(r) => match notebook_of(r) {
                    Some(v) => Ok(vs.push(v)),
                    None => Err(ResolveError::BadDocument),
                },
            },
        }
    }
}

pub open spec fn notebooks_answer(scan: Result<Seq<Result<Record, ResolveError>>, ResolveError>) -> Result<Seq<NotebookView>, ResolveError> {
    match scan {
        Err(e) => Err(e),
        Ok(rows) => rows_answer(rows),
    }
}

pub open spec fn api_version() -> Seq<char> {
    "1.0"@
}

proof fn lemma_rows_error_sticks(rows: Seq<Result<Record, ResolveError>>, i: int, e: ResolveError)
    requires
        0 <= i <= rows.len(),
        rows_answer(rows.subrange(0, i)) == Err::<Seq<NotebookView>, ResolveError>(e),
    ensures
        rows_answer(rows) == Err::<Seq<NotebookView>, ResolveError>(e),
    decreases rows.len() - i,
{
    if i < rows.len() {
        assert(rows.subrange(0, i + 1).drop_last() =~= rows.subrange(0, i));
        lemma_rows_error_sticks(rows, i + 1, e);
    } else {
        assert(rows.subrange(0, i) =~= rows);
    }
}

/// The query root.
pub struct Query;

impl Query {
    /// The version of the query interface.
    #[allow(non_snake_case)]
    pub fn apiVersion() -> (r: &'static str)
        ensures
            r@ == api_version(),
    {
        "1.0"
    }

    fn lookup(collection: Collection, id: &str) -> (r: Result<Lookup, ResolveError>)
        ensures
            match lookup_for(collection, id@) {
                Ok(k) => r is Ok && r->Ok_0.key@ == k && r->Ok_0.collection == collection,
                Err(e) => r == Err::<Lookup, ResolveError>(e),
            },
    {
        match parse_object_id(id) {
            Some(key) => Ok(Lookup { collection, key }),
            None => Err(ResolveError::MalformedId),
        }
    }

    /// The lookup that `notebook(id)` asks of the store; the identifier is
    /// taken as it is.
    pub fn notebook_lookup(id: &str) -> (r: Result<Lookup, ResolveError>)
        ensures
            match lookup_for(Collection::Notebooks, id@) {
                Ok(k) => r is Ok && r->Ok_0.key@ == k && r->Ok_0.collection == Collection::Notebooks,
                Err(e) => r == Err::<Lookup, ResolveError>(e),
            },
    {
        Query::lookup(Collection::Notebooks, id)
    }

    /// The value of `notebook(id)`, given the store's answer to its lookup.
    pub fn notebook(found: Result<Option<Record>, ResolveError>) -> (r: Result<Notebook, ResolveError>)
        ensures
            view_result(r) == notebook_answer(found),
    {
        match found {
            Err(e) => Err(e),
            Ok(None) => Err(ResolveError::NotFound),
            Ok(Some(rec)) => notebook_from_record(&rec),
        }
    }

    /// The lookup that `paragraph(id)` asks of the store.
    pub fn paragraph_lookup(id: &str) -> (r: Result<Lookup, ResolveError>)
        ensures
            match lookup_for(Collection::Paragraphs, id@) {
                Ok(k) => r is Ok && r->Ok_0.key@ == k && r->Ok_0.collection == Collection::Paragraphs,
                Err(e) => r == Err::<Lookup, ResolveError>(e),
            },
    {
        Query::lookup(Collection::Paragraphs, id)
    }

    /// The value of `paragraph(id)`, given the store's answer to its lookup.
    pub fn paragraph(found: Result<Option<Record>, ResolveError>) -> (r: Result<Paragraph, ResolveError>)
        ensures
            view_result(r) == paragraph_answer(found),
    {
        match found {
            Err(e) => Err(e),
            Ok(None) => Err(ResolveError::NotFound),
            Ok(Some(rec)) => paragraph_from_record(&rec),
        }
    }

    /// The value of `notebooks`, given the store's scan of the notebooks
    /// collection: every row, in the order the store gave them.
    pub fn notebooks(scan: Result<Vec<Result<Record, ResolveError>>, ResolveError>) -> (r: Result<Vec<Notebook>, ResolveError>)
        ensures
            match notebooks_answer(view_scan(scan)) {
                Ok(vs) => r is Ok && r->Ok_0@.len() == vs.len() && forall|i: int|
                    0 <= i < vs.len() ==> (#[trigger] r->Ok_0@[i])@ == vs[i],
                Err(e) => r == Err::<Vec<Notebook>, ResolveError>(e),
            },
    {
        match scan {
            Err(e) => Err(e),
            Ok(rows) => {
                let r = Query::notebooks_from_rows(&rows);
                proof {
                    if r is Ok {
                        let vs = r->Ok_0@.map_values(|n: Notebook| n@);
                        assert(vs.len() == r->Ok_0@.len());
                        assert forall|i: int| 0 <= i < vs.len() implies (#[trigger] r->Ok_0@[i])@ == vs[i] by {}
                    }
                }
                r
            },
        }
    }

    fn notebooks_from_rows(rows: &Vec<Result<Record, ResolveError>>) -> (r: Result<Vec<Notebook>, ResolveError>)
        ensures
            match r {
                Ok(v) => rows_answer(rows@) == Ok::<Seq<NotebookView>, ResolveError>(
                    v@.map_values(|n: Notebook| n@),
                ),
                Err(e) => rows_answer(rows@) == Err::<Seq<NotebookView>, ResolveError>(e),
            },
    {
        let mut out: Vec<Notebook> = Vec::new();
        let mut i: usize = 0;
        assert(rows@.subrange(0, 0) =~= Seq::<Result<Record, ResolveError>>::empty());
        assert(out@.map_values(|n: Notebook| n@) =~= Seq::<NotebookView>::empty());
        while i < rows.len()
            invariant
                i <= rows@.len(),
                rows_answer(rows@.subrange(0, i as int)) == Ok::<Seq<NotebookView>, ResolveError>(
                    out@.map_values(|n: Notebook| n@),
                ),
            decreases rows@.len() - i,
        {
            assert(rows@.subrange(0, i + 1).drop_last() =~= rows@.subrange(0, i as int));
            match &rows[i] {
                Err(e) => {
                    let e2 = e.duplicate();
                    proof {
                        assert(rows@.subrange(0, i + 1).last() == rows@[i as int]);
                        lemma_rows_error_sticks(rows@, i + 1, e2);
                    }
                    return Err(e2);
                },
                Ok(rec) => match notebook_from_record(rec) {
                    Ok(n) => {
                        out.push(n);
                        assert(out@.map_values(|n: Notebook| n@) =~= rows_answer(
                            rows@.subrange(0, i as int),
                        )->Ok_0.push(notebook_of(*rec)->Some_0));
                    },
                    Err(e) => {
                        proof {
                            assert(rows@.subrange(0, i + 1).last() == rows@[i as int]);
                            lemma_rows_error_sticks(rows@, i + 1, e);
                        }
                        return Err(e);
                    },
                },
            }
            i = i + 1;
        }
        assert(rows@.subrange(0, rows@.len() as int) =~= rows@);
        Ok(out)
    }
}

/// A scan seen as a sequence of rows.
pub open spec fn view_scan(scan: Result<Vec<Result<Record, ResolveError>>, ResolveError>) -> Result<Seq<Result<Record, ResolveError>>, ResolveError> {
    match scan {
        Ok(rows) => Ok(rows@),
        Err(e) => Err(e),
    }
}

/// The mutation root. Creating notebooks is declared and not provided.
pub struct Mutations;

impl Mutations {
    /// Always `NotImplemented`: no document is read or written.
    pub fn create_notebook(_id: &str) -> (r: Result<Notebook, ResolveError>)
        ensures
            r == Err::<Notebook, ResolveError>(ResolveError::NotImplemented),
    {
        Err(ResolveError::NotImplemented)
    }
}

proof fn lemma_hex_digit_round_trip(c: char)
    requires
        is_lower_hex_char(c),
    ensures
        0 <= hex_value(c) < 16,
        hex_digit(hex_value(c)) == c,
{
    if '0' <= c && c <= '9' {
        assert(c == '0' || c == '1' || c == '2' || c == '3' || c == '4' || c == '5' || c == '6'
            || c == '7' || c == '8' || c == '9');
    } else {
        assert(c == 'a' || c == 'b' || c == 'c' || c == 'd' || c == 'e' || c == 'f');
    }
}

proof fn lemma_byte_digits(hi: int, lo: int)
    requires
        0 <= hi < 16,
        0 <= lo < 16,
    ensures
        ((hi * 16 + lo) as u8) as int / 16 == hi,
        ((hi * 16 + lo) as u8) as int % 16 == lo,
{
    assert(0 <= hi * 16 + lo < 256) by (nonlinear_arith)
        requires
            0 <= hi < 16,
            0 <= lo < 16,
    ;
    assert((hi * 16 + lo) / 16 == hi && (hi * 16 + lo) % 16 == lo) by (nonlinear_arith)
        requires
            0 <= hi < 16,
            0 <= lo < 16,
    ;
}

/// Canonical identifier text, read into bytes and written back, is the same
/// text.
pub proof fn lemma_canonical_text_round_trip(id: Seq<char>)
    requires
        is_canonical_id_text(id),
    ensures
        is_object_id_text(id),
        object_id_text(decode_object_id(id)) == id,
{
    assert forall|i: int| 0 <= i < id.len() implies is_hex_char(#[trigger] id[i]) by {
        assert(is_lower_hex_char(id[i]));
    }
    let b = decode_object_id(id);
    assert forall|i: int| 0 <= i < 24 implies #[trigger] object_id_text(b)[i] == id[i] by {
        let k = i / 2;
        assert(is_lower_hex_char(id[2 * k]));
        assert(is_lower_hex_char(id[2 * k + 1]));
        lemma_hex_digit_round_trip(id[2 * k]);
        lemma_hex_digit_round_trip(id[2 * k + 1]);
        lemma_byte_digits(hex_value(id[2 * k]), hex_value(id[2 * k + 1]));
    }
    assert(object_id_text(b) =~= id);
}

/// A notebook stored under the identifier that canonical text names comes
/// back from `notebook(id)` with that very text as its identifier.
pub proof fn lemma_notebook_keeps_id(id: Seq<char>, rec: Record)
    requires
        is_canonical_id_text(id),
        stored_key(rec) == Some(decode_object_id(id)),
        notebook_of(rec) is Some,
    ensures
        lookup_for(Collection::Notebooks, id) == Ok::<Seq<u8>, ResolveError>(decode_object_id(id)),
        notebook_answer(Ok(Some(rec))) is Ok,
        notebook_answer(Ok(Some(rec)))->Ok_0.id == id,
{
    lemma_canonical_text_round_trip(id);
}

/// Well-formed identifier text that no document has gives `NotFound`.
pub proof fn lemma_absent_id_not_found(c: Collection, id: Seq<char>)
    requires
        is_object_id_text(id),
    ensures
        lookup_for(c, id) is Ok,
        notebook_answer(Ok(None)) == Err::<NotebookView, ResolveError>(ResolveError::NotFound),
        paragraph_answer(Ok(None)) == Err::<ParagraphView, ResolveError>(ResolveError::NotFound),
{
}

/// Text that is not an identifier gives `MalformedId`, before the store is
/// asked, and that error is not `NotFound`.
pub proof fn lemma_malformed_id(c: Collection, id: Seq<char>)
    requires
        !is_object_id_text(id),
    ensures
        lookup_for(c, id) == Err::<Seq<u8>, ResolveError>(ResolveError::MalformedId),
        ResolveError::MalformedId != ResolveError::NotFound,
{
}

/// Where every row of the scan holds a notebook, `notebooks` gives one
/// notebook per stored document, each the one its document holds.
pub proof fn lemma_notebooks_one_per_document(rows: Seq<Result<Record, ResolveError>>)
    requires
        forall|i: int| 0 <= i < rows.len() ==> (#[trigger] rows[i]) is Ok && notebook_of(rows[i]->Ok_0) is Some,
    ensures
        notebooks_answer(Ok(rows)) is Ok,
        notebooks_answer(Ok(rows))->Ok_0.len() == rows.len(),
        forall|i: int| 0 <= i < rows.len() ==> #[trigger] notebooks_answer(Ok(rows))->Ok_0[i] == notebook_of(rows[i]->Ok_0)->Some_0,
        forall|i: int| 0 <= i < rows.len() ==> (#[trigger] notebooks_answer(Ok(rows))->Ok_0[i]).id == object_id_text(stored_key(rows[i]->Ok_0)->Some_0),
    decreases rows.len(),
{
    if rows.len() > 0 {
        let init = rows.drop_last();
        assert forall|i: int| 0 <= i < init.len() implies (#[trigger] init[i]) is Ok && notebook_of(init[i]->Ok_0) is Some by {
            assert(init[i] == rows[i]);
        }
        lemma_notebooks_one_per_document(init);
        assert(rows.last() == rows[rows.len() - 1]);
    }
    assert forall|i: int| 0 <= i < rows.len() implies (#[trigger] notebooks_answer(Ok(rows))->Ok_0[i]).id == object_id_text(stored_key(rows[i]->Ok_0)->Some_0) by {
        assert(notebook_of(rows[i]->Ok_0) is Some);
    }
}

/// With no write in between, asking `notebook(id)` twice gives the same
/// result: the lookup depends on the text alone, and the value on the
/// store's answer alone.
pub proof fn lemma_notebook_repeatable(
    id: Seq<char>,
    first: Result<Option<Record>, ResolveError>,
    second: Result<Option<Record>, ResolveError>,
)
    requires
        first == second,
    ensures
        lookup_for(Collection::Notebooks, id) == lookup_for(Collection::Notebooks, id),
        notebook_answer(first) == notebook_answer(second),
{
}

} // verus!

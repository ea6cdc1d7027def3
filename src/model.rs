//! The queryable entities and the errors that resolving them can end in.
use vstd::prelude::*;

verus! {

/// A unit of code together with the output it last produced.
#[derive(Debug)]
pub struct Paragraph {
    pub id: String,
    pub code: String,
    pub result: String,
}

/// A named, ordered collection of paragraph identifiers.
#[derive(Debug)]
pub struct Notebook {
    pub id: String,
    pub name: String,
    pub paragraphs: Vec<String>,
}

/// What a paragraph holds, as text.
pub struct ParagraphView {
    pub id: Seq<char>,
    pub code: Seq<char>,
    pub result: Seq<char>,
}

/// What a notebook holds, as text; the paragraph order is kept.
pub struct NotebookView {
    pub id: Seq<char>,
    pub name: Seq<char>,
    pub paragraphs: Seq<Seq<char>>,
}

impl View for Paragraph {
    type V = ParagraphView;

    open spec fn view(&self) -> ParagraphView {
        ParagraphView { id: self.id@, code: self.code@, result: self.result@ }
    }
}

impl View for Notebook {
    type V = NotebookView;

    open spec fn view(&self) -> NotebookView {
        NotebookView {
            id: self.id@,
            name: self.name@,
            paragraphs: self.paragraphs@.map_values(|p: String| p@),
        }
    }
}

/// Why a field could not be resolved.
#[derive(Debug)]
pub enum ResolveError {
    /// The identifier is not in the store's identifier encoding.
    MalformedId,
    /// The identifier is well formed, and no document has it.
    NotFound,
    /// A document was found whose fields do not have the entity's shape.
    BadDocument,
    /// The store could not be reached or did not answer; its own words.
    Store(String),
    /// The operation is declared and not provided yet.
    NotImplemented,
}

impl ResolveError {
    /// An equal copy of the error.
    pub fn duplicate(&self) -> (r: ResolveError)
        ensures
            r == *self,
    {
        match self {
            ResolveError::MalformedId => ResolveError::MalformedId,
            ResolveError::NotFound => ResolveError::NotFound,
            ResolveError::BadDocument => ResolveError::BadDocument,
            ResolveError::Store(m) => ResolveError::Store(m.clone()),
            ResolveError::NotImplemented => ResolveError::NotImplemented,
        }
    }
}

/// A result with its success value seen through its view.
pub open spec fn view_result<T: View>(r: Result<T, ResolveError>) -> Result<T::V, ResolveError> {
    match r {
        Ok(v) => Ok(v@),
        Err(e) => Err(e),
    }
}

} // verus!

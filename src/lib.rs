//! A query-serving layer over a store of notebooks and paragraphs: the
//! identifier rules, the decoding of stored documents, the resolvers'
//! decisions and the HTTP reply rules, each with its contract.
pub mod http;
pub mod model;
pub mod object_id;
pub mod record;
pub mod resolve;

pub use model::{Notebook, NotebookView, Paragraph, ParagraphView, ResolveError};
pub use object_id::{parse_object_id, render_object_id};
pub use record::{notebook_from_record, paragraph_from_record, Record, StoredValue};
pub use resolve::{Collection, Lookup, Mutations, Query};
pub use http::{build_response, envelope_reply, web_index, HttpReply};

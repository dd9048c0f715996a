//! The document model, as plain data.
//!
//! Documents travel between the tool and the search backend.  Reading
//! them from files and rendering them back out (frontmatter, YAML) is
//! transport work done outside this crate; here the record itself is
//! held, with its date as UTC epoch seconds.

use vstd::prelude::*;

verus! {

/// How a document is rendered when handed on: the full record for the
/// backend's storage, a trimmed record for writing to disk, or the body
/// alone for human reading.
#[derive(Clone, Debug, PartialEq, Eq, Structural)]
pub enum SerializationType {
    Storage,
    Disk,
    Human,
}

impl Default for SerializationType {
    fn default() -> (r: SerializationType)
        ensures
            r == SerializationType::Storage,
    {
        SerializationType::Storage
    }
}

/// One note.  `date` counts UTC epoch seconds; `origid` points at the
/// first revision of an updated document.
#[derive(Clone, Debug)]
pub struct Document {
    pub id: String,
    pub origid: String,
    pub authors: Vec<String>,
    pub body: String,
    pub serialization_type: SerializationType,
    pub date: i64,
    pub latest: bool,
    pub revision: u16,
    pub title: String,
    pub background_img: String,
    pub links: Vec<String>,
    pub slug: String,
    pub subtitle: String,
    pub tags: Vec<String>,
    pub weight: i32,
    pub views: i32,
    pub filename: String,
}

impl Document {
    /// A blank document.
    pub fn new() -> (r: Document)
        ensures
            r.id@ == Seq::<char>::empty(),
            r.origid@ == Seq::<char>::empty(),
            r.authors@ == Seq::<String>::empty(),
            r.body@ == Seq::<char>::empty(),
            r.serialization_type == SerializationType::Storage,
            r.date == 0,
            r.latest == false,
            r.revision == 0,
            r.title@ == Seq::<char>::empty(),
            r.background_img@ == Seq::<char>::empty(),
            r.links@ == Seq::<String>::empty(),
            r.slug@ == Seq::<char>::empty(),
            r.subtitle@ == Seq::<char>::empty(),
            r.tags@ == Seq::<String>::empty(),
            r.weight == 0,
            r.views == 0,
            r.filename@ == Seq::<char>::empty(),
    {
        Document {
            id: String::new(),
            origid: String::new(),
            authors: Vec::new(),
            body: String::new(),
            serialization_type: SerializationType::Storage,
            date: 0,
            latest: false,
            revision: 0,
            title: String::new(),
            background_img: String::new(),
            links: Vec::new(),
            slug: String::new(),
            subtitle: String::new(),
            tags: Vec::new(),
            weight: 0,
            views: 0,
            filename: String::new(),
        }
    }
}

/// Serialization guard for the `latest` flag; yields the flag itself.
pub fn is_false(v: &bool) -> (r: bool)
    ensures
        r == *v,
{
    *v
}

} // verus!

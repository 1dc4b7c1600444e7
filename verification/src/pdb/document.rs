//! Portable PDB document model: one source file described by a `Document`
//! metadata table row.

use vstd::prelude::*;

use crate::bytes;

verus! {

/// A source document referenced by debug information: a name, the hash
/// algorithm GUID, the source hash, and the language GUID.
#[derive(Debug, Clone, PartialEq, Eq)]
pub struct Document {
    /// Document name decoded from the name blob (separator-joined segments,
    /// e.g. `/src/lib/program.cs`).
    pub name: String,
    /// Hash algorithm GUID (`Document` column 2). All zeroes when absent.
    pub hash_algorithm: [u8; 16],
    /// Source hash bytes (`Document` column 3).
    pub hash: Vec<u8>,
    /// Language GUID (`Document` column 4). All zeroes when absent.
    pub language: [u8; 16],
}

/// What a document says.
#[verifier::ext_equal]
pub struct DocumentView {
    pub name: Seq<char>,
    pub hash_algorithm: Seq<u8>,
    pub hash: Seq<u8>,
    pub language: Seq<u8>,
}

impl View for Document {
    type V = DocumentView;

    open spec fn view(&self) -> DocumentView {
        DocumentView {
            name: self.name@,
            hash_algorithm: self.hash_algorithm@,
            hash: self.hash@,
            language: self.language@,
        }
    }
}

/// What documents say.
pub open spec fn document_views(documents: Seq<Document>) -> Seq<DocumentView> {
    Seq::new(documents.len(), |k: int| documents[k]@)
}

impl Document {
    /// Creates an empty document with the given name.
    pub fn new(name: &str) -> (d: Self)
        ensures
            d@ == (DocumentView {
                name: name@,
                hash_algorithm: bytes::zero_bytes(16),
                hash: Seq::empty(),
                language: bytes::zero_bytes(16),
            }),
    {
        let d = Document {
            name: name.to_owned(),
            hash_algorithm: [0;16],
            hash: Vec::new(),
            language: [0;16],
        };
        proof {
            assert(d.hash_algorithm@ =~= bytes::zero_bytes(16));
            assert(d.language@ =~= bytes::zero_bytes(16));
        }
        d
    }

    /// The document as text: its name.
    pub fn display(&self) -> (t: &str)
        ensures
            t@ == self@.name,
    {
        self.name.as_str()
    }
}

} // verus!

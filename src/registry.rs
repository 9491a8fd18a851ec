//! The documents available to one generation run.

use crate::generate::{files_view, generate_models, generated_spec, OutputFile};
use crate::model::SchemaDocument;
use crate::names::str_eq;
use vstd::prelude::*;

verus! {

/// The user's documents, which are emitted, and the bundled well-known
/// documents, which only stand behind references.
pub struct Registry {
    pub user: Vec<SchemaDocument>,
    pub bundled: Vec<SchemaDocument>,
}

/// Whether some document of `docs` has the NSID `nsid`.
pub open spec fn has_document(docs: Seq<SchemaDocument>, nsid: Seq<char>) -> bool {
    exists|j: int| 0 <= j < docs.len() && (#[trigger] docs[j]).id@ == nsid
}

/// The index of the first document of `docs` with NSID `nsid`, if any.
pub fn find_document(docs: &Vec<SchemaDocument>, nsid: &str) -> (r: Option<usize>)
    ensures
        match r {
            Some(i) => i < docs@.len() && docs@[i as int].id@ == nsid@ && forall|j: int|
                0 <= j < i ==> (#[trigger] docs@[j]).id@ != nsid@,
            None => !has_document(docs@, nsid@),
        },
{
    let mut i: usize = 0;
    while i < docs.len()
        invariant
            i <= docs@.len(),
            forall|j: int| 0 <= j < i ==> (#[trigger] docs@[j]).id@ != nsid@,
        decreases docs@.len() - i,
    {
        if str_eq(docs[i].id.as_str(), nsid) {
            return Some(i);
        }
        i = i + 1;
    }
    None
}

impl Registry {
    pub fn new(user: Vec<SchemaDocument>, bundled: Vec<SchemaDocument>) -> (r: Self)
        ensures
            r.user == user,
            r.bundled == bundled,
    {
        Registry { user, bundled }
    }

    /// The document with NSID `nsid`: the user's if there is one, else the
    /// bundled one; `None` when neither has it.
    pub fn lookup(&self, nsid: &str) -> (r: Option<&SchemaDocument>)
        ensures
            r is None <==> !has_document(self.user@, nsid@) && !has_document(
                self.bundled@,
                nsid@,
            ),
            r matches Some(d) ==> d.id@ == nsid@,
            r matches Some(d) ==> (has_document(self.user@, nsid@) ==> exists|i: int|
                0 <= i < self.user@.len() && self.user@[i] == *d),
            r matches Some(d) ==> (!has_document(self.user@, nsid@) ==> exists|i: int|
                0 <= i < self.bundled@.len() && self.bundled@[i] == *d),
    {
        match find_document(&self.user, nsid) {
            Some(i) => Some(&self.user[i]),
            None => match find_document(&self.bundled, nsid) {
                Some(i) => Some(&self.bundled[i]),
                None => None,
            },
        }
    }

    /// The files generated for the user's documents; bundled documents are
    /// never emitted.
    pub fn generate(&self) -> (r: Vec<OutputFile>)
        ensures
            files_view(r@) == generated_spec(self.user@),
    {
        generate_models(&self.user)
    }
}

} // verus!

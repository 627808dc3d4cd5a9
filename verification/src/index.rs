//! Shared accessors over an archive's already-parsed metadata: listing
//! entries, finding one by name, and the container-level comment. Pure
//! lookups; every concrete source reader exposes these.

use vstd::prelude::*;
use crate::entry::{ZipEntry, ZipEntryMeta};

verus! {

/// The parsed entries of one archive, in original parse order, with the
/// optional trailing comment.
pub struct ArchiveIndex {
    pub entries: Vec<(ZipEntry, ZipEntryMeta)>,
    pub comment: Option<String>,
}

impl ArchiveIndex {
    pub fn new(entries: Vec<(ZipEntry, ZipEntryMeta)>, comment: Option<String>) -> (r:
        ArchiveIndex)
        ensures
            r.entries == entries,
            r.comment == comment,
    {
        ArchiveIndex { entries, comment }
    }

    /// Returns a shared reference to a list of the archive's entries, in
    /// original parse order.
    pub fn entries(&self) -> (r: Vec<&ZipEntry>)
        ensures
            r@.len() == self.entries@.len(),
            forall|i: int| 0 <= i < r@.len() ==> r@[i] == self.entries@[i].0,
    {
        let mut r: Vec<&ZipEntry> = Vec::new();
        let mut i: usize = 0;
        while i < self.entries.len()
            invariant
                i <= self.entries@.len(),
                r@.len() == i,
                forall|j: int| 0 <= j < i ==> r@[j] == self.entries@[j].0,
            decreases self.entries@.len() - i,
        {
            r.push(&self.entries[i].0);
            i = i + 1;
        }
        r
    }

    /// Searches for an entry with a specific filename. The first match wins:
    /// filenames are not required to be unique and the format has no index.
    pub fn entry(&self, name: &String) -> (r: Option<(usize, &ZipEntry)>)
        ensures
            match r {
                Some((i, e)) => {
                    &&& 0 <= i < self.entries@.len()
                    &&& e == self.entries@[i as int].0
                    &&& e.filename@ == name@
                    &&& forall|j: int|
                        0 <= j < i ==> self.entries@[j].0.filename@ != name@
                },
                None => forall|j: int|
                    0 <= j < self.entries@.len() ==> self.entries@[j].0.filename@ != name@,
            },
    {
        let mut i: usize = 0;
        while i < self.entries.len()
            invariant
                i <= self.entries@.len(),
                forall|j: int| 0 <= j < i ==> self.entries@[j].0.filename@ != name@,
            decreases self.entries@.len() - i,
        {
            let e = &self.entries[i].0;
            if e.filename == *name {
                return Some((i, e));
            }
            i = i + 1;
        }
        None
    }

    /// Returns an optional ending comment.
    pub fn comment(&self) -> (r: Option<&str>)
        ensures
            r is Some <==> self.comment is Some,
            r matches Some(c) ==> self.comment matches Some(m) && c@ == m@,
    {
        match &self.comment {
            Some(c) => Some(c.as_str()),
            None => None,
        }
    }
}

} // verus!

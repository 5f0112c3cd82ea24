//! File-metadata records: an immutable snapshot of one filesystem object at
//! enumeration time. Resource handles are opaque identifiers minted by the
//! host; the library never interprets them.

use vstd::prelude::*;

verus! {

/// The kind of a filesystem object, as reported at enumeration time.
#[derive(Clone, Copy, PartialEq, Eq, Structural, Debug)]
pub enum EntryKind {
    File,
    Directory,
    Symlink,
    Other,
}

/// Snapshot of one filesystem object's metadata. `size` is meaningful for
/// regular files; `handle` is an opaque host reference usable to open or
/// copy the object.
pub struct FileEntry {
    pub name: String,
    pub kind: EntryKind,
    pub size: u64,
    pub content_type: Option<String>,
    pub modified_at: Option<i64>,
    pub handle: u64,
}

/// A name marks an entry as hidden when it begins with a dot.
pub open spec fn spec_hidden(name: Seq<char>) -> bool {
    name.len() > 0 && name[0] == '.'
}

impl FileEntry {
    /// Whether this entry is hidden, derived from its name alone.
    pub open spec fn spec_is_hidden(self) -> bool {
        spec_hidden(self.name@)
    }

    /// An entry is hidden exactly when its name begins with a dot.
    pub fn is_hidden(&self) -> (r: bool)
        ensures
            r == self.spec_is_hidden(),
    {
        let n = self.name.as_str();
        n.unicode_len() > 0 && n.get_char(0) == '.'
    }
}

impl Clone for FileEntry {
    fn clone(&self) -> (r: Self)
        ensures
            r == *self,
    {
        FileEntry {
            name: self.name.clone(),
            kind: self.kind,
            size: self.size,
            content_type: (match &self.content_type {
                Some(t) => Some(t.clone()),
                None => None,
            }),
            modified_at: self.modified_at,
            handle: self.handle,
        }
    }
}

} // verus!

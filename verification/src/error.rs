//! What can go wrong between the collection and its backing file.

use crate::protocol::Operation;
use vstd::prelude::*;

verus! {

/// The fields of a stored record.
#[derive(Debug, Clone, Copy, PartialEq, Eq, Structural)]
pub enum Field {
    Id,
    Name,
    Email,
    Phone,
}

/// What is wrong with one stored record.
#[derive(Debug, Clone, Copy, PartialEq, Eq, Structural)]
pub enum RecordFault {
    /// A field that every record must have is absent.
    Missing(Field),
    /// A field occurs more than once.
    Repeated(Field),
    /// A field holds something that is not a string (nor, for the phone, null).
    NotText(Field),
}

/// Why a backing file cannot be read as a collection.
#[derive(Debug)]
pub enum Corruption {
    /// The text is not a JSON array of objects. Carries the parser's
    /// diagnostic.
    Syntax(String),
    /// The record at position `index` of the array is not well formed.
    Record { index: usize, fault: RecordFault },
}

/// Why loading or saving did not complete.
#[derive(Debug)]
pub enum StoreError {
    /// The backing file exists but does not hold a collection. It is never
    /// taken for an empty one.
    Corrupt(Corruption),
    /// A lock on the backing file was not granted.
    Lock { operation: Operation, detail: String },
    /// A file operation failed.
    Io { operation: Operation, detail: String },
    /// The new content was written and synced, but putting it in the
    /// target's place failed. The temporary file may be left behind.
    Persist { detail: String },
}

impl Field {
    /// The key under which the field is stored.
    pub open spec fn key(self) -> Seq<char> {
        match self {
            Field::Id => "id"@,
            Field::Name => "name"@,
            Field::Email => "email"@,
            Field::Phone => "phone"@,
        }
    }

    /// The key under which the field is stored.
    pub fn name(&self) -> (k: &'static str)
        ensures
            k@ == self.key(),
    {
        match self {
            Field::Id => "id",
            Field::Name => "name",
            Field::Email => "email",
            Field::Phone => "phone",
        }
    }
}

/// The four keys are pairwise different.
pub proof fn lemma_keys_differ(a: Field, b: Field)
    ensures
        a.key() == b.key() <==> a == b,
{
    reveal_strlit("id");
    reveal_strlit("name");
    reveal_strlit("email");
    reveal_strlit("phone");
    if a != b && a.key() == b.key() {
        assert(a.key().len() == b.key().len());
        assert(a.key()[0] == b.key()[0]);
    }
}

} // verus!

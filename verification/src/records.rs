//! Vault records and their collection.
//!
//! A record carries an id, a title and an application-level ciphertext; the
//! payload is encrypted independently of any backup envelope. Validation
//! demands that title and payload carry content — not merely whitespace —
//! and the collection keeps record ids unique.

use vstd::prelude::*;

use crate::errors::StoreError;

verus! {

/// A stored vault record. The `encrypted_data` field is already
/// application-level ciphertext, independent of the backup envelope.
#[derive(Debug, PartialEq, Eq, Clone)]
pub struct Record {
    pub id: String,
    pub title: String,
    pub encrypted_data: String,
}

/// One line of the audit log.
#[derive(Debug, Clone)]
pub struct LogEntry {
    pub timestamp: String,
    pub event_type: String,
    pub details: String,
}

/// What remains of `s` after leading and trailing whitespace is removed:
/// a pure function of the string, left uninterpreted.
pub uninterp spec fn trim_of(s: Seq<char>) -> Seq<char>;

/// Relies on str::trim: the result is the input without its leading and
/// trailing whitespace; in particular an empty input stays empty.
#[verifier::external_body]
pub(crate) fn trim_str(s: &str) -> (r: &str)
    ensures
        r@ == trim_of(s@),
        r@.len() == 0 <== s@.len() == 0,
{
    s.trim()
}

/// Is the string empty or all whitespace?
pub open spec fn blank(s: Seq<char>) -> bool {
    trim_of(s).len() == 0
}

impl Record {
    /// A record is well formed when both its title and its payload carry
    /// content beyond whitespace. An empty title is reported before an
    /// empty payload.
    pub fn validate(&self) -> (r: Result<(), StoreError>)
        ensures
            r is Ok <==> !blank(self.title@) && !blank(self.encrypted_data@),
            blank(self.title@) ==> r == Err::<(), StoreError>(StoreError::EmptyTitle),
            !blank(self.title@) && blank(self.encrypted_data@) ==> r == Err::<(), StoreError>(
                StoreError::EmptyData,
            ),
    {
        if trim_str(self.title.as_str()).is_empty() {
            return Err(StoreError::EmptyTitle);
        }
        if trim_str(self.encrypted_data.as_str()).is_empty() {
            return Err(StoreError::EmptyData);
        }
        Ok(())
    }
}

/// Does any record of `s` carry the id?
pub open spec fn has_record_id(s: Seq<Record>, id: Seq<char>) -> bool {
    exists|i: int| 0 <= i < s.len() && (#[trigger] s[i]).id@ == id
}

/// Ids are pairwise distinct.
pub open spec fn record_ids_unique(s: Seq<Record>) -> bool {
    forall|i: int, j: int| 0 <= i < j < s.len() ==> (#[trigger] s[i]).id@ != (#[trigger] s[j]).id@
}

/// The collection of vault records, modelled as the sequence of rows the
/// backing document store would hold. Ids act as the unique key.
pub struct RecordStore {
    pub records: Vec<Record>,
}

impl RecordStore {
    /// An empty collection, trivially unique.
    pub fn new() -> (s: RecordStore)
        ensures
            s.records@.len() == 0,
            record_ids_unique(s.records@),
    {
        RecordStore { records: Vec::new() }
    }

    /// Insert one validated record. Succeeds exactly when the record is
    /// well formed and its id is not yet taken; on success the record is
    /// appended and uniqueness is preserved, on failure nothing changes.
    pub fn insert_record(&mut self, record: Record) -> (r: Result<(), StoreError>)
        ensures
            r is Err ==> final(self).records@ == old(self).records@,
            r is Ok <==> !blank(record.title@) && !blank(record.encrypted_data@) && !has_record_id(
                old(self).records@,
                record.id@,
            ),
            r is Ok ==> final(self).records@ == old(self).records@.push(record),
            blank(record.title@) ==> r == Err::<(), StoreError>(StoreError::EmptyTitle),
            !blank(record.title@) && blank(record.encrypted_data@) ==> r == Err::<(), StoreError>(
                StoreError::EmptyData,
            ),
            r is Ok && record_ids_unique(old(self).records@) ==> record_ids_unique(
                final(self).records@,
            ),
    {
        match record.validate() {
            Err(e) => {
                return Err(e);
            },
            Ok(_) => {},
        }
        let mut i: usize = 0;
        while i < self.records.len()
            invariant
                i <= self.records@.len(),
                !blank(record.title@) && !blank(record.encrypted_data@),
                forall|j: int| 0 <= j < i ==> (#[trigger] self.records@[j]).id@ != record.id@,
            decreases self.records@.len() - i,
        {
            if self.records[i].id == record.id {
                proof {
                    assert(has_record_id(self.records@, record.id@));
                }
                return Err(StoreError::DuplicateId);
            }
            i = i + 1;
        }
        let ghost orig = self.records@;
        self.records.push(record);
        proof {
            assert forall|i2: int, j2: int|
                0 <= i2 < j2 < self.records@.len() && record_ids_unique(orig) implies (
            #[trigger] self.records@[i2]).id@ != (#[trigger] self.records@[j2]).id@ by {
                if j2 < orig.len() {
                    assert(self.records@[i2] == orig[i2] && self.records@[j2] == orig[j2]);
                } else {
                    assert(self.records@[j2] == record && self.records@[i2] == orig[i2]);
                }
            }
        }
        Ok(())
    }
}

} // verus!

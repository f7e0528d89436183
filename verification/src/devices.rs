//! Device approval state machine.
//!
//! A device record starts unapproved. An explicit preapprove action flags
//! every record of the user; an approve action succeeds only while such a
//! flag is set, and then persists a distinct approved entry. Session
//! validity depends on `is_trusted`, which demands an approved, unexpired
//! record matching both ids exactly.

use vstd::prelude::*;

use crate::errors::DeviceError;

verus! {

/// Device identity as carried inside a session token: the claims bind a
/// user to one device and an expiry.
#[derive(Debug, PartialEq, Eq, Clone)]
pub struct Device {
    pub device_id: String,
    pub expiration: u64,
    pub user_id: String,
}

/// One row of the device store.
#[derive(Debug, Clone)]
pub struct DeviceRecord {
    pub user_id: String,
    pub device_id: String,
    pub approved: bool,
    pub new_device_flag: bool,
    pub expiration: u64,
}

/// The collection of device records, modelled as the sequence of rows the
/// backing document store would hold.
pub struct DeviceStore {
    pub records: Vec<DeviceRecord>,
}

/// The record after a preapprove action for user `u`: the flag is set on
/// the user's rows and every other field is kept.
pub open spec fn spec_set_flag(r: DeviceRecord, u: Seq<char>) -> DeviceRecord {
    DeviceRecord { new_device_flag: r.new_device_flag || r.user_id@ == u, ..r }
}

/// The whole store after a preapprove action for user `u`.
pub open spec fn spec_preapprove(s: Seq<DeviceRecord>, u: Seq<char>) -> Seq<DeviceRecord> {
    Seq::new(s.len(), |i: int| spec_set_flag(s[i], u))
}

/// Does row `r` carry an approval flag for user `u`?
pub open spec fn rec_flags(r: DeviceRecord, u: Seq<char>) -> bool {
    r.user_id@ == u && r.new_device_flag
}

/// Is some row of `s` flagged for user `u`?
pub open spec fn has_flag(s: Seq<DeviceRecord>, u: Seq<char>) -> bool {
    exists|i: int| 0 <= i < s.len() && rec_flags(#[trigger] s[i], u)
}

/// Does user `u` own any row of `s`?
pub open spec fn has_user(s: Seq<DeviceRecord>, u: Seq<char>) -> bool {
    exists|i: int| 0 <= i < s.len() && (#[trigger] s[i]).user_id@ == u
}

/// Does row `r` prove trust of device `d` for user `u` at time `now`?
/// Approval alone is not enough: the expiry is a hard cutoff.
pub open spec fn rec_trusts(r: DeviceRecord, u: Seq<char>, d: Seq<char>, now: u64) -> bool {
    r.user_id@ == u && r.device_id@ == d && r.approved && now < r.expiration
}

/// Is the (user, device) pair trusted at time `now`: does some approved,
/// unexpired row match both ids exactly?
pub open spec fn trusted(s: Seq<DeviceRecord>, u: Seq<char>, d: Seq<char>, now: u64) -> bool {
    exists|i: int| 0 <= i < s.len() && rec_trusts(#[trigger] s[i], u, d, now)
}

impl DeviceStore {
    /// An empty store: no user is flagged, no device is trusted.
    pub fn new() -> (s: DeviceStore)
        ensures
            s.records@.len() == 0,
    {
        DeviceStore { records: Vec::new() }
    }

    /// Enable the approval flag on every record of the user. Idempotent:
    /// flags already set stay set, and nothing else changes; in particular
    /// no device becomes trusted or untrusted by this action.
    pub fn preapprove_device(&mut self, user_id: &String)
        ensures
            final(self).records@ =~= spec_preapprove(old(self).records@, user_id@),
            forall|u: Seq<char>, d: Seq<char>, now: u64|
                trusted(final(self).records@, u, d, now) == trusted(
                    old(self).records@,
                    u,
                    d,
                    now,
                ),
            has_flag(final(self).records@, user_id@) == has_user(old(self).records@, user_id@),
    {
        let ghost orig = self.records@;
        let mut updated: Vec<DeviceRecord> = Vec::new();
        let mut i: usize = 0;
        while i < self.records.len()
            invariant
                self.records@ == orig,
                i <= orig.len(),
                updated@.len() == i,
                forall|j: int| 0 <= j < i ==> updated@[j] == spec_set_flag(orig[j], user_id@),
            decreases orig.len() - i,
        {
            let r = &self.records[i];
            let flag = r.new_device_flag || r.user_id == *user_id;
            updated.push(
                DeviceRecord {
                    user_id: r.user_id.clone(),
                    device_id: r.device_id.clone(),
                    approved: r.approved,
                    new_device_flag: flag,
                    expiration: r.expiration,
                },
            );
            i = i + 1;
        }
        self.records = updated;
        proof {
            assert(self.records@ =~= spec_preapprove(orig, user_id@));
            assert forall|u: Seq<char>, d: Seq<char>, now: u64|
                trusted(self.records@, u, d, now) == trusted(orig, u, d, now) by {
                if trusted(self.records@, u, d, now) {
                    let i = choose|i: int|
                        0 <= i < self.records@.len() && rec_trusts(#[trigger] self.records@[i], u, d, now);
                    assert(rec_trusts(orig[i], u, d, now));
                }
                if trusted(orig, u, d, now) {
                    let i = choose|i: int| 0 <= i < orig.len() && rec_trusts(#[trigger] orig[i], u, d, now);
                    assert(rec_trusts(self.records@[i], u, d, now));
                }
            }
            assert(has_flag(self.records@, user_id@) == has_user(orig, user_id@)) by {
                if has_flag(self.records@, user_id@) {
                    let i = choose|i: int|
                        0 <= i < self.records@.len() && rec_flags(#[trigger] self.records@[i], user_id@);
                    assert(orig[i].user_id@ == user_id@);
                }
                if has_user(orig, user_id@) {
                    let i = choose|i: int| 0 <= i < orig.len() && (#[trigger] orig[i]).user_id@ == user_id@;
                    assert(rec_flags(self.records@[i], user_id@));
                }
            }
        }
    }

    /// Transition a flagged device to approved. Succeeds exactly when some
    /// record of the user currently carries the approval flag; on success a
    /// distinct approved entry for the submitted device is appended, and on
    /// failure the store is untouched.
    pub fn approve_device(&mut self, user_id: &String, device: &Device) -> (r: Result<
        (),
        DeviceError,
    >)
        ensures
            r is Ok <==> has_flag(old(self).records@, user_id@),
            r is Err ==> r == Err::<(), DeviceError>(DeviceError::ApprovalNotEnabled)
                && final(self).records@ == old(self).records@,
            r is Ok ==> {
                &&& final(self).records@.len() == old(self).records@.len() + 1
                &&& final(self).records@.drop_last() =~= old(self).records@
                &&& final(self).records@.last().user_id@ == user_id@
                &&& final(self).records@.last().device_id@ == device.device_id@
                &&& final(self).records@.last().approved
                &&& !final(self).records@.last().new_device_flag
                &&& final(self).records@.last().expiration == device.expiration
            },
    {
        let ghost orig = self.records@;
        let mut i: usize = 0;
        let mut found: bool = false;
        while i < self.records.len()
            invariant
                self.records@ == orig,
                i <= orig.len(),
                found ==> has_flag(orig, user_id@),
                !found ==> forall|j: int| 0 <= j < i ==> !rec_flags(#[trigger] orig[j], user_id@),
            decreases orig.len() - i,
        {
            let r = &self.records[i];
            if r.new_device_flag && r.user_id == *user_id {
                proof {
                    assert(rec_flags(orig[i as int], user_id@));
                }
                found = true;
            }
            i = i + 1;
        }
        if found {
            self.records.push(
                DeviceRecord {
                    user_id: user_id.clone(),
                    device_id: device.device_id.clone(),
                    approved: true,
                    new_device_flag: false,
                    expiration: device.expiration,
                },
            );
            proof {
                assert(self.records@.drop_last() =~= orig);
            }
            Ok(())
        } else {
            assert(!has_flag(orig, user_id@));
            Err(DeviceError::ApprovalNotEnabled)
        }
    }

    /// Read-only trust check used by the middleware in front of protected routes:
    /// true exactly when an approved record matching both ids has not yet
    /// expired. Absence of proof of trust is "not trusted".
    pub fn is_trusted(&self, user_id: &String, device_id: &String, now: u64) -> (r: bool)
        ensures
            r == trusted(self.records@, user_id@, device_id@, now),
    {
        let mut i: usize = 0;
        while i < self.records.len()
            invariant
                i <= self.records@.len(),
                forall|j: int| 0 <= j < i ==> !rec_trusts(
                    #[trigger] self.records@[j],
                    user_id@,
                    device_id@,
                    now,
                ),
            decreases self.records@.len() - i,
        {
            let r = &self.records[i];
            if r.approved && now < r.expiration && r.user_id == *user_id && r.device_id
                == *device_id {
                return true;
            }
            i = i + 1;
        }
        false
    }
}

/// A device reaches the trusted set only through the full flow: with any
/// record of the user present, preapprove followed by approve of `newrec`
/// makes exactly (user, device) trusted until the expiry, and an unrelated
/// device that was not trusted before is still not trusted.
pub proof fn lemma_trust_flow(
    s: Seq<DeviceRecord>,
    newrec: DeviceRecord,
    d2: Seq<char>,
    now: u64,
)
    requires
        has_user(s, newrec.user_id@),
        newrec.approved,
        now < newrec.expiration,
    ensures
        has_flag(spec_preapprove(s, newrec.user_id@), newrec.user_id@),
        trusted(
            spec_preapprove(s, newrec.user_id@).push(newrec),
            newrec.user_id@,
            newrec.device_id@,
            now,
        ),
        d2 != newrec.device_id@ && !trusted(s, newrec.user_id@, d2, now) ==> !trusted(
            spec_preapprove(s, newrec.user_id@).push(newrec),
            newrec.user_id@,
            d2,
            now,
        ),
{
    let u = newrec.user_id@;
    let s1 = spec_preapprove(s, u);
    let s2 = s1.push(newrec);
    let i = choose|i: int| 0 <= i < s.len() && (#[trigger] s[i]).user_id@ == u;
    assert(rec_flags(s1[i], u));
    assert(rec_trusts(s2[s2.len() - 1], u, newrec.device_id@, now));
    if d2 != newrec.device_id@ && !trusted(s, u, d2, now) && trusted(s2, u, d2, now) {
        let j = choose|j: int| 0 <= j < s2.len() && rec_trusts(#[trigger] s2[j], u, d2, now);
        assert(j < s1.len());
        assert(rec_trusts(s[j], u, d2, now));
    }
}

} // verus!

//! The credential store and password authentication.
//!
//! A user row binds a unique username to its password hash and a device. A
//! login attempt for an absent user and one with a wrong password are the
//! same observable `false` — there is no user-existence oracle.

use vstd::prelude::*;

use vstd::utf8::encode_utf8;

use crate::errors::HashError;
use crate::hashing::{argon2_verifies, hash_password, password_byte_max, phc_valid, verify_password};
use crate::records::{blank, trim_str};

verus! {

/// A stored credential record. The hash field is a self-describing encoded
/// string, never the raw password.
#[derive(Debug, Clone)]
pub struct User {
    pub username: String,
    pub password_hash: String,
    pub device_id: String,
}

/// A login request body: credentials plus the calling device.
#[derive(Debug, Clone)]
pub struct AuthRequest {
    pub username: String,
    pub password: String,
    pub device_id: String,
}

impl AuthRequest {
    /// Basic validation before any credential is checked: both the
    /// username and the password must carry content beyond whitespace.
    pub fn validate(&self) -> (r: bool)
        ensures
            r == (!blank(self.username@) && !blank(self.password@)),
    {
        !trim_str(self.username.as_str()).is_empty() && !trim_str(
            self.password.as_str(),
        ).is_empty()
    }
}

/// The first user row carrying the given username, if any.
pub open spec fn spec_find_user(s: Seq<User>, username: Seq<char>) -> Option<User>
    decreases s.len(),
{
    if s.len() == 0 {
        None
    } else if s[0].username@ == username {
        Some(s[0])
    } else {
        spec_find_user(s.drop_first(), username)
    }
}

/// The collection of user records, modelled as the sequence of rows the
/// backing document store would hold.
pub struct UserStore {
    pub users: Vec<User>,
}

impl UserStore {
    /// An empty credential store.
    pub fn new() -> (s: UserStore)
        ensures
            s.users@.len() == 0,
    {
        UserStore { users: Vec::new() }
    }

    /// Find a user by exact username; the store's key is unique, so the
    /// first match is the record.
    fn find_user(&self, username: &String) -> (r: Option<&User>)
        ensures
            r matches Some(u) ==> spec_find_user(self.users@, username@) == Some(*u),
            r is None ==> spec_find_user(self.users@, username@) is None,
    {
        let mut i: usize = 0;
        proof {
            assert(self.users@.skip(0) =~= self.users@);
        }
        while i < self.users.len()
            invariant
                i <= self.users@.len(),
                spec_find_user(self.users@.skip(i as int), username@) == spec_find_user(
                    self.users@,
                    username@,
                ),
            decreases self.users@.len() - i,
        {
            proof {
                assert(self.users@.skip(i as int).drop_first() =~= self.users@.skip(i + 1));
                assert(self.users@.skip(i as int)[0] == self.users@[i as int]);
            }
            if self.users[i].username == *username {
                return Some(&self.users[i]);
            }
            i = i + 1;
        }
        proof {
            assert(self.users@.skip(i as int).len() == 0);
        }
        None
    }

    /// Create a user at registration: hash the password with a fresh salt
    /// and append the record. The stored hash verifies exactly the
    /// password it was created from.
    pub fn register_user(&mut self, username: &String, password: &String, device_id: &String) -> (r:
        Result<(), HashError>)
        ensures
            encode_utf8(password@).len() <= password_byte_max() ==> r is Ok,
            r is Err ==> r == Err::<(), HashError>(HashError::HashingFailed) && final(self).users@
                == old(self).users@,
            r is Ok ==> {
                &&& final(self).users@.len() == old(self).users@.len() + 1
                &&& final(self).users@.drop_last() =~= old(self).users@
                &&& final(self).users@.last().username@ == username@
                &&& final(self).users@.last().device_id@ == device_id@
                &&& phc_valid(final(self).users@.last().password_hash@)
                &&& argon2_verifies(password@, final(self).users@.last().password_hash@)
                &&& forall|q: Seq<char>| q != password@ ==> !argon2_verifies(
                    q,
                    final(self).users@.last().password_hash@,
                )
            },
    {
        let hash = match hash_password(password.as_str()) {
            Ok(h) => h,
            Err(_) => {
                return Err(HashError::HashingFailed);
            },
        };
        self.users.push(
            User { username: username.clone(), password_hash: hash, device_id: device_id.clone() },
        );
        proof {
            assert(final(self).users@.drop_last() =~= old(self).users@);
        }
        Ok(())
    }

    /// Verify user credentials against the store. An absent user is a plain
    /// `false`, observably the same as a wrong password; a stored hash that
    /// cannot be parsed is the one internal error.
    pub fn authenticate_user(&self, username: &String, password: &String) -> (r: Result<
        bool,
        HashError,
    >)
        ensures
            spec_find_user(self.users@, username@) is None ==> r == Ok::<bool, HashError>(false),
            spec_find_user(self.users@, username@) matches Some(u) ==> (phc_valid(u.password_hash@)
                ==> (r matches Ok(b) && b == argon2_verifies(password@, u.password_hash@))),
            spec_find_user(self.users@, username@) matches Some(u) ==> (!phc_valid(
                u.password_hash@,
            ) ==> r == Err::<bool, HashError>(HashError::MalformedHash)),
    {
        match self.find_user(username) {
            Some(user) => verify_password(password.as_str(), user.password_hash.as_str()),
            None => Ok(false),
        }
    }
}

} // verus!

//! The credential store's decision: whether a presented secret matches a
//! stored record.
//!
//! The lookup itself runs over a leased database connection in the binary;
//! this module decides, from the row the lookup returned, whether the login
//! stands. An absent row, a wrong secret and an unavailable account are kept
//! apart here for server-side diagnostics and collapse to one client-visible
//! rejection at the orchestrator. The secret comparison runs in constant
//! time over the whole material, with no early exit. Which hash the stored
//! material carries is the deployment's choice and out of scope; the caller
//! presents the secret in the stored material's form.

use vstd::prelude::*;
use crate::error::CredentialError;

verus! {

/// A stored user identity record, read from the credential table.
pub struct StoredCredential {
    /// The user's stable identifier, the subject of any token minted.
    pub user_id: String,
    /// The login name the record is keyed by.
    pub username: String,
    /// The stored secret material the presented secret is held against.
    pub secret_hash: Vec<u8>,
    /// The account is administratively disabled.
    pub disabled: bool,
    /// The account is locked, for instance after failed attempts.
    pub locked: bool,
}

/// The verified identity a successful credential check yields.
#[derive(Debug)]
pub struct UserIdentity {
    /// The user's stable identifier.
    pub user_id: String,
    /// The login name that was verified.
    pub username: String,
}

/// Compares two byte strings in time depending only on their lengths: the
/// loop folds every byte pair into an accumulator and never exits early.
pub fn constant_time_eq(a: &[u8], b: &[u8]) -> (r: bool)
    ensures
        r == (a@ == b@),
{
    if a.len() != b.len() {
        proof {
            assert(a@ != b@);
        }
        return false;
    }
    let mut diff: u8 = 0;
    let mut i: usize = 0;
    proof {
        assert(a@.take(0) =~= b@.take(0));
    }
    while i < a.len()
        invariant
            i <= a.len(),
            a@.len() == b@.len(),
            diff == 0 <==> a@.take(i as int) == b@.take(i as int),
        decreases a.len() - i,
    {
        let x = a[i] ^ b[i];
        proof {
            let ai = a@[i as int];
            let bi = b@[i as int];
            assert((ai ^ bi) == 0 <==> ai == bi) by (bit_vector);
            assert((diff | x) == 0 <==> diff == 0 && x == 0) by (bit_vector);
            if diff == 0 && x == 0 {
                assert(a@.take(i + 1) =~= a@.take(i as int).push(a@[i as int]));
                assert(b@.take(i + 1) =~= b@.take(i as int).push(b@[i as int]));
            } else {
                if a@.take(i + 1) == b@.take(i + 1) {
                    assert(a@.take(i + 1)[i as int] == b@.take(i + 1)[i as int]);
                    assert forall|j: int| 0 <= j < i implies a@.take(i as int)[j] == b@.take(
                        i as int,
                    )[j] by {
                        assert(a@.take(i + 1)[j] == b@.take(i + 1)[j]);
                    }
                    assert(a@.take(i as int) =~= b@.take(i as int));
                }
            }
        }
        diff = diff | x;
        i += 1;
    }
    proof {
        assert(a@.take(a@.len() as int) =~= a@);
        assert(b@.take(b@.len() as int) =~= b@);
    }
    diff == 0
}

/// Decides a credential check from the row the store returned: no row is
/// unknown, a disabled or locked account is unavailable even with the right
/// secret, and otherwise the presented secret must match the stored material
/// exactly.
pub fn verify_credential(row: &Option<StoredCredential>, presented: &[u8]) -> (r: Result<
    UserIdentity,
    CredentialError,
>)
    ensures
        row is None ==> r == Err::<UserIdentity, CredentialError>(CredentialError::NotFound),
        row matches Some(c) ==> {
            &&& (c.disabled || c.locked) ==> r == Err::<UserIdentity, CredentialError>(
                CredentialError::AccountUnavailable,
            )
            &&& (!c.disabled && !c.locked && c.secret_hash@ != presented@) ==> r == Err::<
                UserIdentity,
                CredentialError,
            >(CredentialError::Mismatch)
            &&& (!c.disabled && !c.locked && c.secret_hash@ == presented@) ==> (r matches Ok(u)
                && u.user_id@ == c.user_id@ && u.username@ == c.username@)
        },
{
    match row {
        None => Err(CredentialError::NotFound),
        Some(c) => {
            if c.disabled || c.locked {
                Err(CredentialError::AccountUnavailable)
            } else if constant_time_eq(c.secret_hash.as_slice(), presented) {
                Ok(UserIdentity { user_id: c.user_id.clone(), username: c.username.clone() })
            } else {
                Err(CredentialError::Mismatch)
            }
        },
    }
}

} // verus!

use vstd::prelude::*;

use crate::Timestamp;
use crate::clock;

verus! {

/// An access token held by the persistence layer.
///
/// The credential (`token`) is the opaque string a caller presents as a
/// bearer token.  A token with `expires_at == None` never expires.  The
/// `used_at` field records the last moment the token was presented; it is
/// advanced on every authenticated request, even when the token turns out
/// to be expired.
pub struct Token {
    pub uuid: u128,
    pub token: String,
    pub expires_at: Option<Timestamp>,
    pub superuser: bool,
    pub used_at: Option<Timestamp>,
}

/// One permission row: grants the holder of `token` independent read and
/// write capability on the secret `secret`.  Absence of a row means no
/// access for a non-superuser token.
#[derive(Clone, Copy)]
pub struct Permission {
    pub token: u128,
    pub secret: u128,
    pub can_read: bool,
    pub can_write: bool,
}

impl Token {
    /// Whether this token counts as expired at the moment `now`.
    pub open spec fn spec_is_expired(self, now: Timestamp) -> bool {
        match self.expires_at {
            None => false,
            Some(expiry) => expiry < now,
        }
    }

    /// Expiry check against an explicit clock reading: a token with no
    /// expiry timestamp is never expired, otherwise it is expired exactly
    /// when its expiry lies strictly in the past.
    pub fn is_expired_at(&self, now: Timestamp) -> (expired: bool)
        ensures
            expired == self.spec_is_expired(now),
    {
        match self.expires_at {
            None => false,
            Some(expiry) => expiry < now,
        }
    }

    /// Expiry check against the real clock.  Whatever the clock returns,
    /// the result is the expiry answer for some reading of it; a token
    /// without an expiry timestamp is never expired.
    pub fn is_expired(&self) -> (expired: bool)
        ensures
            exists|now: Timestamp| expired == self.spec_is_expired(now),
            self.expires_at is None ==> !expired,
    {
        let now = clock::now_timestamp();
        let expired = self.is_expired_at(now);
        proof {
            assert(expired == self.spec_is_expired(now));
        }
        expired
    }

    /// Whether `rows` holds a row granting the holder of `token_uuid` read
    /// access to `secret_uuid`.
    pub open spec fn spec_has_read_row(rows: Seq<Permission>, token_uuid: u128, secret_uuid: u128) -> bool {
        exists|i: int|
            0 <= i < rows.len() && (#[trigger] rows[i]).token == token_uuid
                && rows[i].secret == secret_uuid && rows[i].can_read
    }

    /// Whether `rows` holds a row granting the holder of `token_uuid` write
    /// access to `secret_uuid`.
    pub open spec fn spec_has_write_row(rows: Seq<Permission>, token_uuid: u128, secret_uuid: u128) -> bool {
        exists|i: int|
            0 <= i < rows.len() && (#[trigger] rows[i]).token == token_uuid
                && rows[i].secret == secret_uuid && rows[i].can_write
    }

    /// The read-permission decision: superuser tokens may always read;
    /// any other token may read exactly when a matching row allows it.
    pub open spec fn spec_can_read(self, rows: Seq<Permission>, secret_uuid: u128) -> bool {
        self.superuser || Self::spec_has_read_row(rows, self.uuid, secret_uuid)
    }

    /// The write-permission decision: superuser tokens may always write;
    /// any other token may write exactly when a matching row allows it.
    pub open spec fn spec_can_write(self, rows: Seq<Permission>, secret_uuid: u128) -> bool {
        self.superuser || Self::spec_has_write_row(rows, self.uuid, secret_uuid)
    }

    /// Decides whether this token may read the secret `secret_uuid`, given
    /// the permission rows.  Superuser tokens are allowed unconditionally;
    /// otherwise the answer is exactly "some row for (token, secret) has
    /// its read flag set".
    pub fn can_read_secret(&self, rows: &Vec<Permission>, secret_uuid: u128) -> (allowed: bool)
        ensures
            allowed == self.spec_can_read(rows@, secret_uuid),
    {
        if self.superuser {
            return true;
        }
        let mut i: usize = 0;
        while i < rows.len()
            invariant
                i <= rows.len(),
                !Self::spec_has_read_row(rows@.take(i as int), self.uuid, secret_uuid),
            decreases rows.len() - i,
        {
            let row = rows[i];
            if row.token == self.uuid && row.secret == secret_uuid && row.can_read {
                assert(rows@[i as int] == row);
                return true;
            }
            proof {
                assert forall|j: int|
                    0 <= j < i + 1 implies !((#[trigger] rows@.take(i + 1)[j]).token == self.uuid
                        && rows@.take(i + 1)[j].secret == secret_uuid
                        && rows@.take(i + 1)[j].can_read) by {
                    if j < i {
                        assert(rows@.take(i + 1)[j] == rows@.take(i as int)[j]);
                    } else {
                        assert(rows@.take(i + 1)[j] == row);
                    }
                }
            }
            i = i + 1;
        }
        proof {
            assert(rows@.take(rows@.len() as int) =~= rows@);
        }
        false
    }

    /// Decides whether this token may write the secret `secret_uuid`; the
    /// mirror image of `can_read_secret` over the write flag.
    pub fn can_write_secret(&self, rows: &Vec<Permission>, secret_uuid: u128) -> (allowed: bool)
        ensures
            allowed == self.spec_can_write(rows@, secret_uuid),
    {
        if self.superuser {
            return true;
        }
        let mut i: usize = 0;
        while i < rows.len()
            invariant
                i <= rows.len(),
                !Self::spec_has_write_row(rows@.take(i as int), self.uuid, secret_uuid),
            decreases rows.len() - i,
        {
            let row = rows[i];
            if row.token == self.uuid && row.secret == secret_uuid && row.can_write {
                assert(rows@[i as int] == row);
                return true;
            }
            proof {
                assert forall|j: int|
                    0 <= j < i + 1 implies !((#[trigger] rows@.take(i + 1)[j]).token == self.uuid
                        && rows@.take(i + 1)[j].secret == secret_uuid
                        && rows@.take(i + 1)[j].can_write) by {
                    if j < i {
                        assert(rows@.take(i + 1)[j] == rows@.take(i as int)[j]);
                    } else {
                        assert(rows@.take(i + 1)[j] == row);
                    }
                }
            }
            i = i + 1;
        }
        proof {
            assert(rows@.take(rows@.len() as int) =~= rows@);
        }
        false
    }
}

/// A token without an expiry timestamp is never expired, whatever the
/// current time is.
pub proof fn lemma_no_expiry_never_expires(token: Token, now: Timestamp)
    requires
        token.expires_at is None,
    ensures
        !token.spec_is_expired(now),
{
}

/// A non-superuser token with no row for the target secret may neither
/// read nor write it.
pub proof fn lemma_no_row_means_no_access(token: Token, rows: Seq<Permission>, secret_uuid: u128)
    requires
        !token.superuser,
        forall|i: int|
            0 <= i < rows.len() ==> !((#[trigger] rows[i]).token == token.uuid
                && rows[i].secret == secret_uuid),
    ensures
        !token.spec_can_read(rows, secret_uuid),
        !token.spec_can_write(rows, secret_uuid),
{
}

/// A superuser token may both read and write every secret, and its answer
/// does not depend on the permission table at all: any two tables give the
/// same (positive) answer.
pub proof fn lemma_superuser_ignores_permission_table(
    token: Token,
    rows1: Seq<Permission>,
    rows2: Seq<Permission>,
    secret_uuid: u128,
)
    requires
        token.superuser,
    ensures
        token.spec_can_read(rows1, secret_uuid),
        token.spec_can_write(rows1, secret_uuid),
        token.spec_can_read(rows1, secret_uuid) == token.spec_can_read(rows2, secret_uuid),
        token.spec_can_write(rows1, secret_uuid) == token.spec_can_write(rows2, secret_uuid),
{
}

} // verus!

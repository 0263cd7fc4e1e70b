use vstd::prelude::*;
use vstd::string::*;

use crate::audit::AuditLogEntry;
use crate::response::HttpResponse;
use crate::secret::{Secret, spec_name_view, spec_serves_secret};
use crate::token::{Permission, Token};

verus! {

/// Whether some stored token carries exactly the credential `raw`.
pub open spec fn spec_has_token(tokens: Seq<Token>, raw: Seq<char>) -> bool {
    exists|i: int| 0 <= i < tokens.len() && (#[trigger] tokens[i]).token@ == raw
}

/// The index of the stored token carrying the credential `raw`; meaningful
/// only when `spec_has_token` holds (under well-formedness it is unique).
pub open spec fn spec_token_index(tokens: Seq<Token>, raw: Seq<char>) -> int {
    choose|i: int| 0 <= i < tokens.len() && (#[trigger] tokens[i]).token@ == raw
}

/// Whether some stored secret has the identity `uuid`.
pub open spec fn spec_has_secret(secrets: Seq<Secret>, uuid: u128) -> bool {
    exists|i: int| 0 <= i < secrets.len() && (#[trigger] secrets[i]).uuid == uuid
}

/// The index of the stored secret with identity `uuid`; meaningful only
/// when `spec_has_secret` holds (under well-formedness it is unique).
pub open spec fn spec_secret_index(secrets: Seq<Secret>, uuid: u128) -> int {
    choose|i: int| 0 <= i < secrets.len() && (#[trigger] secrets[i]).uuid == uuid
}

/// The persistence layer as the core relies on it: the token, permission
/// and secret tables, and the append-only audit log.  The request pipeline
/// is verified against this model; its contracts are exactly the query
/// contracts the core expects from the real store.
pub struct Store {
    pub tokens: Vec<Token>,
    pub permissions: Vec<Permission>,
    pub secrets: Vec<Secret>,
    pub audit_log: Vec<AuditLogEntry>,
}

impl Store {
    /// Well-formedness: token identities and credentials are unique, and
    /// secret identities are unique — the uniqueness the persistence layer
    /// guarantees for its key columns.
    pub open spec fn wf(self) -> bool {
        &&& forall|i: int, j: int|
            #![trigger self.tokens@[i], self.tokens@[j]]
            0 <= i < j < self.tokens@.len() ==> self.tokens@[i].uuid != self.tokens@[j].uuid
        &&& forall|i: int, j: int|
            #![trigger self.tokens@[i], self.tokens@[j]]
            0 <= i < j < self.tokens@.len() ==> self.tokens@[i].token@ != self.tokens@[j].token@
        &&& forall|i: int, j: int|
            #![trigger self.secrets@[i], self.secrets@[j]]
            0 <= i < j < self.secrets@.len() ==> self.secrets@[i].uuid != self.secrets@[j].uuid
    }

    /// Exact-match lookup of a presented credential against the stored
    /// tokens: the index of the matching token, or nothing when no stored
    /// token carries the credential.
    pub fn lookup_token(&self, raw: &String) -> (found: Option<usize>)
        requires
            self.wf(),
        ensures
            match found {
                Some(i) => spec_has_token(self.tokens@, raw@) && i == spec_token_index(
                    self.tokens@,
                    raw@,
                ) && i < self.tokens@.len() && self.tokens@[i as int].token@ == raw@,
                None => !spec_has_token(self.tokens@, raw@),
            },
    {
        let mut i: usize = 0;
        while i < self.tokens.len()
            invariant
                self.wf(),
                i <= self.tokens@.len(),
                forall|j: int| 0 <= j < i ==> (#[trigger] self.tokens@[j]).token@ != raw@,
            decreases self.tokens@.len() - i,
        {
            if self.tokens[i].token.eq(raw) {
                proof {
                    assert(spec_has_token(self.tokens@, raw@));
                    let k = spec_token_index(self.tokens@, raw@);
                    assert(self.tokens@[k].token@ == raw@);
                    assert(k == i);
                }
                return Some(i);
            }
            i = i + 1;
        }
        None
    }

    /// Lookup of a secret by its identity: the index of the matching row,
    /// or nothing when no secret has that identity.
    pub fn find_secret(&self, uuid: u128) -> (found: Option<usize>)
        requires
            self.wf(),
        ensures
            match found {
                Some(i) => spec_has_secret(self.secrets@, uuid) && i == spec_secret_index(
                    self.secrets@,
                    uuid,
                ) && i < self.secrets@.len() && self.secrets@[i as int].uuid == uuid,
                None => !spec_has_secret(self.secrets@, uuid),
            },
    {
        let mut i: usize = 0;
        while i < self.secrets.len()
            invariant
                self.wf(),
                i <= self.secrets@.len(),
                forall|j: int| 0 <= j < i ==> (#[trigger] self.secrets@[j]).uuid != uuid,
            decreases self.secrets@.len() - i,
        {
            if self.secrets[i].uuid == uuid {
                proof {
                    assert(spec_has_secret(self.secrets@, uuid));
                    let k = spec_secret_index(self.secrets@, uuid);
                    assert(self.secrets@[k].uuid == uuid);
                    assert(k == i);
                }
                return Some(i);
            }
            i = i + 1;
        }
        None
    }

    /// A request-scoped copy of the stored secret at `i`, equal to it
    /// field by field.
    pub fn clone_secret(&self, i: usize) -> (copy: Secret)
        requires
            i < self.secrets@.len(),
        ensures
            spec_secret_like(self.secrets@[i as int], copy),
    {
        let stored = &self.secrets[i];
        let file_name: Option<String> = match &stored.file_name {
            None => None,
            Some(name) => Some(name.clone()),
        };
        let contents: Option<Vec<u8>> = match &stored.contents {
            None => None,
            Some(bytes) => {
                let copied = clone_bytes(bytes);
                Some(copied)
            },
        };
        Secret { uuid: stored.uuid, file_name, contents }
    }
}

/// Whether `copy` carries the same observable value as `stored`: the same
/// identity, and filename and contents equal view by view.
pub open spec fn spec_secret_like(stored: Secret, copy: Secret) -> bool {
    &&& copy.uuid == stored.uuid
    &&& match (stored.file_name, copy.file_name) {
        (None, None) => true,
        (Some(a), Some(b)) => a@ == b@,
        _ => false,
    }
    &&& match (stored.contents, copy.contents) {
        (None, None) => true,
        (Some(a), Some(b)) => a@ == b@,
        _ => false,
    }
}

/// A request-scoped copy serves exactly as the stored secret itself
/// would: serving a secret only reads the values of its fields.
pub proof fn lemma_like_secrets_serve_alike(stored: Secret, copy: Secret, resp: HttpResponse)
    requires
        spec_secret_like(stored, copy),
    ensures
        spec_serves_secret(copy, resp) == spec_serves_secret(stored, resp),
{
    assert(spec_name_view(stored.file_name) == spec_name_view(copy.file_name));
}

/// Copies a byte vector.
fn clone_bytes(bytes: &Vec<u8>) -> (copy: Vec<u8>)
    ensures
        copy@ == bytes@,
{
    let mut copy: Vec<u8> = Vec::new();
    let mut i: usize = 0;
    while i < bytes.len()
        invariant
            i <= bytes.len(),
            copy@ =~= bytes@.take(i as int),
        decreases bytes.len() - i,
    {
        copy.push(bytes[i]);
        i = i + 1;
    }
    proof {
        assert(copy@ =~= bytes@);
    }
    copy
}

} // verus!

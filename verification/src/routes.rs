use vstd::prelude::*;

use crate::Timestamp;
use crate::addr::{IpAddress, resolve_client_addr, spec_resolve_client_addr};
use crate::audit::{AuditLogAction, AuditLogEntry};
use crate::errors::ResponseError;
use crate::parse::{copy_range, parse_uuid, spec_parse_uuid};
use crate::response::HttpResponse;
use crate::secret::spec_serves_secret;
use crate::store::{
    Store, spec_has_secret, spec_has_token, spec_secret_index, spec_token_index,
};
use crate::textops::bytes_eq;
use crate::token::Token;

verus! {

/// The spec-level view of an optional bearer credential.
pub open spec fn spec_bearer_view(bearer: Option<&String>) -> Option<Seq<char>> {
    match bearer {
        None => None,
        Some(raw) => Some(raw@),
    }
}

/// The outcome of authenticating a presented credential against the
/// stored tokens at time `now`: the index of the authenticated token, or
/// the failure the caller sees.  A missing credential and an unknown or
/// expired one all surface as a 401-kind failure.
pub open spec fn spec_auth_result(
    tokens: Seq<Token>,
    bearer: Option<Seq<char>>,
    now: Timestamp,
) -> Result<int, ResponseError> {
    match bearer {
        None => Err(ResponseError::TypedHeaderRejection),
        Some(raw) => if !spec_has_token(tokens, raw) {
            Err(ResponseError::Unauthorized)
        } else {
            let i = spec_token_index(tokens, raw);
            if tokens[i].spec_is_expired(now) {
                Err(ResponseError::Unauthorized)
            } else {
                Ok(i)
            }
        },
    }
}

/// The token table after an authentication attempt: when the credential
/// matched a stored token, that token's last-used timestamp — and nothing
/// else — has advanced to `now`, whether or not the token was expired;
/// otherwise the table is untouched.
pub open spec fn spec_tokens_after_auth(
    tokens: Seq<Token>,
    bearer: Option<Seq<char>>,
    now: Timestamp,
) -> Seq<Token> {
    match bearer {
        None => tokens,
        Some(raw) => if spec_has_token(tokens, raw) {
            let i = spec_token_index(tokens, raw);
            tokens.update(i, Token { used_at: Some(now), ..tokens[i] })
        } else {
            tokens
        },
    }
}

/// Authenticates the presented bearer credential: exact-match lookup,
/// then — for a credential that matched — the unconditional advance of
/// the token's last-used timestamp, then the expiry check.  The timestamp
/// moves exactly once per matched credential, even when authentication
/// then fails for expiry; nothing else in the store changes.
pub fn extract_valid_token(store: &mut Store, bearer: Option<&String>, now: Timestamp) -> (auth:
    Result<usize, ResponseError>)
    requires
        old(store).wf(),
    ensures
        final(store).wf(),
        final(store).permissions == old(store).permissions,
        final(store).secrets == old(store).secrets,
        final(store).audit_log == old(store).audit_log,
        final(store).tokens@ == spec_tokens_after_auth(
            old(store).tokens@,
            spec_bearer_view(bearer),
            now,
        ),
        match spec_auth_result(old(store).tokens@, spec_bearer_view(bearer), now) {
            Ok(i) => auth matches Ok(u) && u == i && 0 <= i < final(store).tokens@.len(),
            Err(e) => auth == Err::<usize, ResponseError>(e),
        },
{
    let raw = match bearer {
        None => {
            return Err(ResponseError::TypedHeaderRejection);
        },
        Some(raw) => raw,
    };
    let idx = match store.lookup_token(raw) {
        None => {
            return Err(ResponseError::Unauthorized);
        },
        Some(i) => i,
    };
    store.tokens[idx].used_at = Some(now);
    proof {
        lemma_touch_preserves_wf(*old(store), *store, idx as int, now);
    }
    let expired = store.tokens[idx].is_expired_at(now);
    if expired {
        Err(ResponseError::Unauthorized)
    } else {
        Ok(idx)
    }
}

/// Everything the read endpoint guarantees, as a relation between the
/// store before the request, the store after it, and the outcome.
///
/// Authentication always happens first and its side effect on the token
/// table stands whatever follows.  The permission decision is evaluated
/// before the secret is looked up, so a denied caller learns nothing
/// about whether the secret exists.  The audit entry is appended exactly
/// when the read is authorized and the secret exists, before the secret
/// is served.
pub open spec fn spec_get_secret_post(
    pre: Store,
    post: Store,
    client_addr: IpAddress,
    bearer: Option<Seq<char>>,
    secret_uuid: u128,
    now: Timestamp,
    outcome: Result<HttpResponse, ResponseError>,
) -> bool {
    &&& post.tokens@ == spec_tokens_after_auth(pre.tokens@, bearer, now)
    &&& post.permissions == pre.permissions
    &&& post.secrets == pre.secrets
    &&& match spec_auth_result(pre.tokens@, bearer, now) {
        Err(e) => outcome matches Err(failure) && failure == e && post.audit_log
            == pre.audit_log,
        Ok(i) => {
            let token = pre.tokens@[i];
            if !token.spec_can_read(pre.permissions@, secret_uuid) {
                outcome matches Err(failure) && failure == ResponseError::Unauthorized
                    && post.audit_log == pre.audit_log
            } else if !spec_has_secret(pre.secrets@, secret_uuid) {
                outcome matches Err(failure) && failure == ResponseError::NotFoundError
                    && post.audit_log == pre.audit_log
            } else {
                let secret = pre.secrets@[spec_secret_index(pre.secrets@, secret_uuid)];
                &&& post.audit_log@ == pre.audit_log@.push(
                    AuditLogEntry::spec_new(
                        client_addr,
                        AuditLogAction::SecretRead,
                        token.uuid,
                        secret_uuid,
                        now,
                    ),
                )
                &&& outcome matches Ok(resp) && spec_serves_secret(secret, resp)
            }
        },
    }
}

/// The read endpoint: authenticate, evaluate the read permission, look
/// the secret up, record the access, and serve the secret.  Every
/// failure short-circuits; the permission check runs before the secret
/// lookup, so a denied caller gets 401 whether or not the secret exists.
pub fn get_secret(
    store: &mut Store,
    client_addr: IpAddress,
    bearer: Option<&String>,
    secret_uuid: u128,
    now: Timestamp,
) -> (outcome: Result<HttpResponse, ResponseError>)
    requires
        old(store).wf(),
    ensures
        final(store).wf(),
        spec_get_secret_post(
            *old(store),
            *final(store),
            client_addr,
            spec_bearer_view(bearer),
            secret_uuid,
            now,
            outcome,
        ),
{
    let idx = match extract_valid_token(store, bearer, now) {
        Err(e) => {
            return Err(e);
        },
        Ok(i) => i,
    };
    let token_uuid = store.tokens[idx].uuid;
    let allowed = store.tokens[idx].can_read_secret(&store.permissions, secret_uuid);
    if !allowed {
        return Err(ResponseError::Unauthorized);
    }
    let sidx = match store.find_secret(secret_uuid) {
        None => {
            return Err(ResponseError::NotFoundError);
        },
        Some(k) => k,
    };
    AuditLogEntry::log_action(
        store,
        client_addr,
        AuditLogAction::SecretRead,
        token_uuid,
        secret_uuid,
        now,
    );
    let secret = store.clone_secret(sidx);
    let resp = secret.render();
    proof {
        crate::store::lemma_like_secrets_serve_alike(
            final(store).secrets@[sidx as int],
            secret,
            resp,
        );
    }
    Ok(resp)
}

/// Everything the write endpoint guarantees, as a relation between the
/// store before the request, the store after it, the new content, and
/// the outcome.
///
/// The shape mirrors the read endpoint — authenticate, permission before
/// lookup, audit before the data operation — and on success the secret's
/// content is replaced wholesale while its filename and identity stay
/// untouched.  The audit entry records a write and is appended before
/// the content changes.
pub open spec fn spec_post_secret_contents_post(
    pre: Store,
    post: Store,
    client_addr: IpAddress,
    bearer: Option<Seq<char>>,
    secret_uuid: u128,
    body: Seq<u8>,
    now: Timestamp,
    outcome: Result<HttpResponse, ResponseError>,
) -> bool {
    &&& post.tokens@ == spec_tokens_after_auth(pre.tokens@, bearer, now)
    &&& post.permissions == pre.permissions
    &&& match spec_auth_result(pre.tokens@, bearer, now) {
        Err(e) => outcome matches Err(failure) && failure == e && post.secrets == pre.secrets
            && post.audit_log == pre.audit_log,
        Ok(i) => {
            let token = pre.tokens@[i];
            if !token.spec_can_write(pre.permissions@, secret_uuid) {
                outcome matches Err(failure) && failure == ResponseError::Unauthorized
                    && post.secrets == pre.secrets && post.audit_log == pre.audit_log
            } else if !spec_has_secret(pre.secrets@, secret_uuid) {
                outcome matches Err(failure) && failure == ResponseError::NotFoundError
                    && post.secrets == pre.secrets && post.audit_log == pre.audit_log
            } else {
                let k = spec_secret_index(pre.secrets@, secret_uuid);
                &&& post.audit_log@ == pre.audit_log@.push(
                    AuditLogEntry::spec_new(
                        client_addr,
                        AuditLogAction::SecretWrite,
                        token.uuid,
                        secret_uuid,
                        now,
                    ),
                )
                &&& post.secrets@.len() == pre.secrets@.len()
                &&& forall|j: int|
                    0 <= j < pre.secrets@.len() && j != k ==> post.secrets@[j]
                        == pre.secrets@[j]
                &&& post.secrets@[k].uuid == pre.secrets@[k].uuid
                &&& post.secrets@[k].file_name == pre.secrets@[k].file_name
                &&& post.secrets@[k].contents matches Some(stored) && stored@ == body
                &&& outcome matches Ok(resp) && resp == HttpResponse::spec_empty(204)
            }
        },
    }
}

/// The write endpoint: authenticate, evaluate the write permission, look
/// the secret up, record the attempted write, and replace the secret's
/// content wholesale.  The filename is untouched; success is a bare
/// `204 No Content`.
pub fn post_secret_contents(
    store: &mut Store,
    client_addr: IpAddress,
    bearer: Option<&String>,
    secret_uuid: u128,
    body: Vec<u8>,
    now: Timestamp,
) -> (outcome: Result<HttpResponse, ResponseError>)
    requires
        old(store).wf(),
    ensures
        final(store).wf(),
        spec_post_secret_contents_post(
            *old(store),
            *final(store),
            client_addr,
            spec_bearer_view(bearer),
            secret_uuid,
            body@,
            now,
            outcome,
        ),
{
    let idx = match extract_valid_token(store, bearer, now) {
        Err(e) => {
            return Err(e);
        },
        Ok(i) => i,
    };
    let token_uuid = store.tokens[idx].uuid;
    let allowed = store.tokens[idx].can_write_secret(&store.permissions, secret_uuid);
    if !allowed {
        return Err(ResponseError::Unauthorized);
    }
    let sidx = match store.find_secret(secret_uuid) {
        None => {
            return Err(ResponseError::NotFoundError);
        },
        Some(k) => k,
    };
    AuditLogEntry::log_action(
        store,
        client_addr,
        AuditLogAction::SecretWrite,
        token_uuid,
        secret_uuid,
        now,
    );
    store.secrets[sidx].contents = Some(body);
    Ok(HttpResponse::empty(204))
}

/// The liveness probe: always a bare success, touching nothing.
pub fn get_livez() -> (resp: HttpResponse)
    ensures
        resp == HttpResponse::spec_empty(204),
{
    HttpResponse::empty(204)
}

/// The readiness probe's rendering: a bare success when the persistence
/// probe went through, the generic persistence failure otherwise.
pub fn get_readyz(probe_ok: bool) -> (outcome: Result<HttpResponse, ResponseError>)
    ensures
        probe_ok ==> (outcome matches Ok(resp) && resp == HttpResponse::spec_empty(204)),
        !probe_ok ==> (outcome matches Err(failure) && failure == ResponseError::DatabaseError),
{
    if probe_ok {
        Ok(HttpResponse::empty(204))
    } else {
        Err(ResponseError::DatabaseError)
    }
}

/// A matched but expired credential is refused with the 401-kind failure,
/// yet its last-used timestamp still advances — exactly once: the token's
/// entry is replaced by the same token with `used_at = now`, and every
/// other entry of the table is untouched.
pub proof fn lemma_expired_token_touched_but_refused(
    tokens: Seq<Token>,
    raw: Seq<char>,
    now: Timestamp,
)
    requires
        spec_has_token(tokens, raw),
        tokens[spec_token_index(tokens, raw)].spec_is_expired(now),
    ensures
        spec_auth_result(tokens, Some(raw), now) == Err::<int, ResponseError>(
            ResponseError::Unauthorized,
        ),
        ({
            let i = spec_token_index(tokens, raw);
            let after = spec_tokens_after_auth(tokens, Some(raw), now);
            &&& after.len() == tokens.len()
            &&& after[i] == Token { used_at: Some(now), ..tokens[i] }
            &&& forall|j: int| 0 <= j < tokens.len() && j != i ==> after[j] == tokens[j]
        }),
{
}

/// An unknown credential leaves no trace at all: the read endpoint
/// refuses it with the 401-kind failure and the whole store — the audit
/// log included — is exactly as it was.
pub proof fn lemma_unknown_token_leaves_no_trace(
    pre: Store,
    post: Store,
    client_addr: IpAddress,
    raw: Seq<char>,
    secret_uuid: u128,
    now: Timestamp,
    outcome: Result<HttpResponse, ResponseError>,
)
    requires
        !spec_has_token(pre.tokens@, raw),
        spec_get_secret_post(pre, post, client_addr, Some(raw), secret_uuid, now, outcome),
    ensures
        outcome matches Err(failure) && failure == ResponseError::Unauthorized,
        post.tokens@ == pre.tokens@,
        post.permissions == pre.permissions,
        post.secrets == pre.secrets,
        post.audit_log == pre.audit_log,
{
}

/// The same, for the write endpoint: an unknown credential changes
/// nothing and writes no audit entry.
pub proof fn lemma_unknown_token_writes_nothing(
    pre: Store,
    post: Store,
    client_addr: IpAddress,
    raw: Seq<char>,
    secret_uuid: u128,
    body: Seq<u8>,
    now: Timestamp,
    outcome: Result<HttpResponse, ResponseError>,
)
    requires
        !spec_has_token(pre.tokens@, raw),
        spec_post_secret_contents_post(
            pre,
            post,
            client_addr,
            Some(raw),
            secret_uuid,
            body,
            now,
            outcome,
        ),
    ensures
        outcome matches Err(failure) && failure == ResponseError::Unauthorized,
        post.tokens@ == pre.tokens@,
        post.permissions == pre.permissions,
        post.secrets == pre.secrets,
        post.audit_log == pre.audit_log,
{
}

/// A denied caller cannot tell whether the secret exists: two runs of the
/// read endpoint that agree on the token and permission tables — but may
/// hold entirely different secret tables — end in the very same failure,
/// and its status code is 401.  Secret existence never leaks to a caller
/// whose request fails authentication or permission.
pub proof fn lemma_denied_read_hides_existence(
    pre1: Store,
    post1: Store,
    outcome1: Result<HttpResponse, ResponseError>,
    pre2: Store,
    post2: Store,
    outcome2: Result<HttpResponse, ResponseError>,
    client_addr: IpAddress,
    bearer: Option<Seq<char>>,
    secret_uuid: u128,
    now: Timestamp,
)
    requires
        pre1.tokens@ == pre2.tokens@,
        pre1.permissions@ == pre2.permissions@,
        spec_get_secret_post(pre1, post1, client_addr, bearer, secret_uuid, now, outcome1),
        spec_get_secret_post(pre2, post2, client_addr, bearer, secret_uuid, now, outcome2),
        match spec_auth_result(pre1.tokens@, bearer, now) {
            Err(_) => true,
            Ok(i) => !pre1.tokens@[i].spec_can_read(pre1.permissions@, secret_uuid),
        },
    ensures
        outcome1 == outcome2,
        outcome1 matches Err(failure) && failure.spec_status_code() == 401,
{
}

/// The same, for the write endpoint: a denied writer sees 401 whether or
/// not the secret exists.
pub proof fn lemma_denied_write_hides_existence(
    pre1: Store,
    post1: Store,
    outcome1: Result<HttpResponse, ResponseError>,
    pre2: Store,
    post2: Store,
    outcome2: Result<HttpResponse, ResponseError>,
    client_addr: IpAddress,
    bearer: Option<Seq<char>>,
    secret_uuid: u128,
    body: Seq<u8>,
    now: Timestamp,
)
    requires
        pre1.tokens@ == pre2.tokens@,
        pre1.permissions@ == pre2.permissions@,
        spec_post_secret_contents_post(
            pre1,
            post1,
            client_addr,
            bearer,
            secret_uuid,
            body,
            now,
            outcome1,
        ),
        spec_post_secret_contents_post(
            pre2,
            post2,
            client_addr,
            bearer,
            secret_uuid,
            body,
            now,
            outcome2,
        ),
        match spec_auth_result(pre1.tokens@, bearer, now) {
            Err(_) => true,
            Ok(i) => !pre1.tokens@[i].spec_can_write(pre1.permissions@, secret_uuid),
        },
    ensures
        outcome1 == outcome2,
        outcome1 matches Err(failure) && failure.spec_status_code() == 401,
{
}

/// Round trip: a successful write of content `body` to a secret followed
/// by a successful read of the same secret serves back exactly `body`,
/// under the filename the secret had before the write — writing content
/// never disturbs the filename.
pub proof fn lemma_write_then_read_round_trip(
    store0: Store,
    store1: Store,
    store2: Store,
    write_addr: IpAddress,
    read_addr: IpAddress,
    write_bearer: Option<Seq<char>>,
    read_bearer: Option<Seq<char>>,
    secret_uuid: u128,
    body: Seq<u8>,
    write_now: Timestamp,
    read_now: Timestamp,
    write_outcome: Result<HttpResponse, ResponseError>,
    read_outcome: Result<HttpResponse, ResponseError>,
)
    requires
        store1.wf(),
        spec_post_secret_contents_post(
            store0,
            store1,
            write_addr,
            write_bearer,
            secret_uuid,
            body,
            write_now,
            write_outcome,
        ),
        write_outcome is Ok,
        spec_get_secret_post(
            store1,
            store2,
            read_addr,
            read_bearer,
            secret_uuid,
            read_now,
            read_outcome,
        ),
        read_outcome is Ok,
    ensures
        ({
            let resp = read_outcome->Ok_0;
            let k = spec_secret_index(store0.secrets@, secret_uuid);
            &&& resp.status == 200
            &&& resp.body matches crate::response::ResponseBody::Blob(served) && served@ == body
            &&& resp.content_disposition matches Some(header) && header@
                == crate::secret::spec_disposition(
                crate::secret::spec_name_view(store0.secrets@[k].file_name),
            )
        }),
{
    let k = spec_secret_index(store0.secrets@, secret_uuid);
    assert(spec_has_secret(store0.secrets@, secret_uuid));
    assert(0 <= k < store0.secrets@.len() && store0.secrets@[k].uuid == secret_uuid);
    assert(store1.secrets@[k].uuid == secret_uuid);
    assert(spec_has_secret(store1.secrets@, secret_uuid));
    let k1 = spec_secret_index(store1.secrets@, secret_uuid);
    assert(0 <= k1 < store1.secrets@.len() && store1.secrets@[k1].uuid == secret_uuid);
    assert(k1 == k);
    let served_secret = store1.secrets@[k];
    assert(served_secret.contents is Some);
    let resp = read_outcome->Ok_0;
    assert(spec_serves_secret(served_secret, resp));
}

/// The request methods the router distinguishes.
#[derive(Clone, Copy, PartialEq, Eq, Structural, Debug)]
pub enum HttpMethod {
    Get,
    Post,
    Other,
}

/// The endpoints of the service, or none: a request that matches no
/// endpoint falls through to the typed not-found failure.
#[derive(Clone, Copy, PartialEq, Eq, Structural, Debug)]
pub enum Route {
    Livez,
    Readyz,
    GetSecret(u128),
    PostSecretContents(u128),
    Unknown,
}

/// The byte text of the liveness path `/livez`.
pub open spec fn spec_livez_path() -> Seq<u8> {
    seq![47u8, 108, 105, 118, 101, 122]
}

/// The byte text of the readiness path `/readyz`.
pub open spec fn spec_readyz_path() -> Seq<u8> {
    seq![47u8, 114, 101, 97, 100, 121, 122]
}

/// The byte text of the secret-path prefix `/secret/`.
pub open spec fn spec_secret_prefix() -> Seq<u8> {
    seq![47u8, 115, 101, 99, 114, 101, 116, 47]
}

/// The byte text of the content-path suffix `/contents`.
pub open spec fn spec_contents_suffix() -> Seq<u8> {
    seq![47u8, 99, 111, 110, 116, 101, 110, 116, 115]
}

/// Which endpoint a method and path pair names: the two probes, a secret
/// read `GET /secret/{uuid}`, a content write
/// `POST /secret/{uuid}/contents`, or nothing.
pub open spec fn spec_match_route(method: HttpMethod, path: Seq<u8>) -> Route {
    if path == spec_livez_path() {
        if method is Get {
            Route::Livez
        } else {
            Route::Unknown
        }
    } else if path == spec_readyz_path() {
        if method is Get {
            Route::Readyz
        } else {
            Route::Unknown
        }
    } else if path.len() >= 8 && path.take(8) == spec_secret_prefix() {
        let rest = path.skip(8);
        if method is Get {
            match spec_parse_uuid(rest) {
                Some(uuid) => Route::GetSecret(uuid),
                None => Route::Unknown,
            }
        } else if method is Post {
            if rest.len() >= 9 && rest.skip(rest.len() - 9) == spec_contents_suffix() {
                match spec_parse_uuid(rest.take(rest.len() - 9)) {
                    Some(uuid) => Route::PostSecretContents(uuid),
                    None => Route::Unknown,
                }
            } else {
                Route::Unknown
            }
        } else {
            Route::Unknown
        }
    } else {
        Route::Unknown
    }
}

/// The exec form of the liveness path.
fn livez_path() -> (path: Vec<u8>)
    ensures
        path@ == spec_livez_path(),
{
    let mut path: Vec<u8> = Vec::new();
    path.push(47);
    path.push(108);
    path.push(105);
    path.push(118);
    path.push(101);
    path.push(122);
    proof {
        assert(path@ =~= spec_livez_path());
    }
    path
}

/// The exec form of the readiness path.
fn readyz_path() -> (path: Vec<u8>)
    ensures
        path@ == spec_readyz_path(),
{
    let mut path: Vec<u8> = Vec::new();
    path.push(47);
    path.push(114);
    path.push(101);
    path.push(97);
    path.push(100);
    path.push(121);
    path.push(122);
    proof {
        assert(path@ =~= spec_readyz_path());
    }
    path
}

/// The exec form of the secret-path prefix.
fn secret_prefix() -> (prefix: Vec<u8>)
    ensures
        prefix@ == spec_secret_prefix(),
{
    let mut prefix: Vec<u8> = Vec::new();
    prefix.push(47);
    prefix.push(115);
    prefix.push(101);
    prefix.push(99);
    prefix.push(114);
    prefix.push(101);
    prefix.push(116);
    prefix.push(47);
    proof {
        assert(prefix@ =~= spec_secret_prefix());
    }
    prefix
}

/// The exec form of the content-path suffix.
fn contents_suffix() -> (suffix: Vec<u8>)
    ensures
        suffix@ == spec_contents_suffix(),
{
    let mut suffix: Vec<u8> = Vec::new();
    suffix.push(47);
    suffix.push(99);
    suffix.push(111);
    suffix.push(110);
    suffix.push(116);
    suffix.push(101);
    suffix.push(110);
    suffix.push(116);
    suffix.push(115);
    proof {
        assert(suffix@ =~= spec_contents_suffix());
    }
    suffix
}

/// Matches a method and path against the service's routing table.
pub fn match_route(method: &HttpMethod, path: &Vec<u8>) -> (route: Route)
    ensures
        route == spec_match_route(*method, path@),
{
    let livez = livez_path();
    if bytes_eq(path, &livez) {
        return match method {
            HttpMethod::Get => Route::Livez,
            _ => Route::Unknown,
        };
    }
    let readyz = readyz_path();
    if bytes_eq(path, &readyz) {
        return match method {
            HttpMethod::Get => Route::Readyz,
            _ => Route::Unknown,
        };
    }
    if path.len() < 8 {
        return Route::Unknown;
    }
    let head = copy_range(path, 0, 8);
    let prefix = secret_prefix();
    if !bytes_eq(&head, &prefix) {
        return Route::Unknown;
    }
    proof {
        assert(head@ =~= path@.take(8));
    }
    let rest = copy_range(path, 8, path.len());
    proof {
        assert(rest@ =~= path@.skip(8));
    }
    match method {
        HttpMethod::Get => {
            match parse_uuid(&rest) {
                Some(uuid) => Route::GetSecret(uuid),
                None => Route::Unknown,
            }
        },
        HttpMethod::Post => {
            if rest.len() < 9 {
                return Route::Unknown;
            }
            let tail = copy_range(&rest, rest.len() - 9, rest.len());
            let suffix = contents_suffix();
            if !bytes_eq(&tail, &suffix) {
                proof {
                    assert(tail@ =~= rest@.skip(rest@.len() - 9));
                }
                return Route::Unknown;
            }
            proof {
                assert(tail@ =~= rest@.skip(rest@.len() - 9));
            }
            let uuid_part = copy_range(&rest, 0, rest.len() - 9);
            proof {
                assert(uuid_part@ =~= rest@.take(rest@.len() - 9));
            }
            match parse_uuid(&uuid_part) {
                Some(uuid) => Route::PostSecretContents(uuid),
                None => Route::Unknown,
            }
        },
        HttpMethod::Other => Route::Unknown,
    }
}

/// Everything the core needs to know about one inbound request: the
/// method and path, the transport peer address, the raw trusted-proxy
/// header if present, the bearer credential if one was presented, the
/// raw `Accept` header, and the request body.
pub struct HttpRequest {
    pub method: HttpMethod,
    pub path: Vec<u8>,
    pub peer: IpAddress,
    pub real_ip_header: Option<Vec<u8>>,
    pub bearer: Option<String>,
    pub accept: Option<Vec<u8>>,
    pub body: Vec<u8>,
}

/// The spec-level view of an optional owned byte string.
pub open spec fn spec_opt_bytes_view(bytes: Option<Vec<u8>>) -> Option<Seq<u8>> {
    match bytes {
        None => None,
        Some(value) => Some(value@),
    }
}

/// The spec-level view of an optional owned credential.
pub open spec fn spec_opt_string_view(text: Option<String>) -> Option<Seq<char>> {
    match text {
        None => None,
        Some(value) => Some(value@),
    }
}

/// Everything one full request guarantees, whatever it asked for: the
/// probes never touch the store; an unmatched request renders the typed
/// not-found failure through the same negotiated path as every other
/// failure; the secret endpoints resolve the client address first, then
/// behave exactly as their endpoint relations say, every failure being
/// rendered with the status fixed by its kind and the body shape chosen
/// by the caller's accept type.
pub open spec fn spec_handle_request_post(
    pre: Store,
    post: Store,
    use_x_real_ip: bool,
    probe_ok: bool,
    req: HttpRequest,
    now: Timestamp,
    resp: HttpResponse,
) -> bool {
    let accept = spec_opt_bytes_view(req.accept);
    match spec_match_route(req.method, req.path@) {
        Route::Unknown => post == pre && ResponseError::NotFoundError.spec_renders_to(
            accept,
            resp,
        ),
        Route::Livez => post == pre && resp == HttpResponse::spec_empty(204),
        Route::Readyz => post == pre && if probe_ok {
            resp == HttpResponse::spec_empty(204)
        } else {
            ResponseError::DatabaseError.spec_renders_to(accept, resp)
        },
        Route::GetSecret(uuid) => match spec_resolve_client_addr(
            use_x_real_ip,
            spec_opt_bytes_view(req.real_ip_header),
            req.peer,
        ) {
            Err(e) => post == pre && e.spec_renders_to(accept, resp),
            Ok(addr) => exists|outcome: Result<HttpResponse, ResponseError>|
                #[trigger] spec_get_secret_post(
                    pre,
                    post,
                    addr.ip,
                    spec_opt_string_view(req.bearer),
                    uuid,
                    now,
                    outcome,
                ) && match outcome {
                    Ok(served) => resp == served,
                    Err(e) => e.spec_renders_to(accept, resp),
                },
        },
        Route::PostSecretContents(uuid) => match spec_resolve_client_addr(
            use_x_real_ip,
            spec_opt_bytes_view(req.real_ip_header),
            req.peer,
        ) {
            Err(e) => post == pre && e.spec_renders_to(accept, resp),
            Ok(addr) => exists|outcome: Result<HttpResponse, ResponseError>|
                #[trigger] spec_post_secret_contents_post(
                    pre,
                    post,
                    addr.ip,
                    spec_opt_string_view(req.bearer),
                    uuid,
                    req.body@,
                    now,
                    outcome,
                ) && match outcome {
                    Ok(done) => resp == done,
                    Err(e) => e.spec_renders_to(accept, resp),
                },
        },
    }
}

/// Serves one full request: route it, run the endpoint, and render the
/// outcome — failures through the single content-negotiated error path.
/// `probe_ok` is the readiness probe's outcome, consulted only by the
/// readiness route; `now` is the clock reading for this request.
pub fn handle_request(
    store: &mut Store,
    use_x_real_ip: bool,
    probe_ok: bool,
    req: HttpRequest,
    now: Timestamp,
) -> (resp: HttpResponse)
    requires
        old(store).wf(),
    ensures
        final(store).wf(),
        spec_handle_request_post(
            *old(store),
            *final(store),
            use_x_real_ip,
            probe_ok,
            req,
            now,
            resp,
        ),
{
    let route = match_route(&req.method, &req.path);
    match route {
        Route::Livez => get_livez(),
        Route::Readyz => {
            match get_readyz(probe_ok) {
                Ok(resp) => resp,
                Err(e) => e.render(req.accept.as_ref()),
            }
        },
        Route::Unknown => {
            let e = ResponseError::NotFoundError;
            e.render(req.accept.as_ref())
        },
        Route::GetSecret(uuid) => {
            match resolve_client_addr(use_x_real_ip, req.real_ip_header.as_ref(), req.peer) {
                Err(e) => e.render(req.accept.as_ref()),
                Ok(addr) => {
                    let outcome = get_secret(store, addr.ip, req.bearer.as_ref(), uuid, now);
                    proof {
                        assert(spec_get_secret_post(
                            *old(store),
                            *store,
                            addr.ip,
                            spec_opt_string_view(req.bearer),
                            uuid,
                            now,
                            outcome,
                        ));
                    }
                    match outcome {
                        Ok(served) => served,
                        Err(e) => e.render(req.accept.as_ref()),
                    }
                },
            }
        },
        Route::PostSecretContents(uuid) => {
            match resolve_client_addr(use_x_real_ip, req.real_ip_header.as_ref(), req.peer) {
                Err(e) => e.render(req.accept.as_ref()),
                Ok(addr) => {
                    let ghost body_view = req.body@;
                    let outcome = post_secret_contents(
                        store,
                        addr.ip,
                        req.bearer.as_ref(),
                        uuid,
                        req.body,
                        now,
                    );
                    proof {
                        assert(spec_post_secret_contents_post(
                            *old(store),
                            *store,
                            addr.ip,
                            spec_opt_string_view(req.bearer),
                            uuid,
                            body_view,
                            now,
                            outcome,
                        ));
                    }
                    match outcome {
                        Ok(done) => done,
                        Err(e) => e.render(req.accept.as_ref()),
                    }
                },
            }
        },
    }
}

/// Advancing one token's last-used timestamp preserves the store's
/// well-formedness: identities and credentials are untouched.
proof fn lemma_touch_preserves_wf(pre: Store, post: Store, i: int, now: Timestamp)
    requires
        pre.wf(),
        0 <= i < pre.tokens@.len(),
        post.tokens@ == pre.tokens@.update(i, Token { used_at: Some(now), ..pre.tokens@[i] }),
        post.permissions == pre.permissions,
        post.secrets == pre.secrets,
    ensures
        post.wf(),
{
    assert forall|a: int, b: int|
        0 <= a < b < post.tokens@.len() implies (#[trigger] post.tokens@[a]).uuid
        != (#[trigger] post.tokens@[b]).uuid && post.tokens@[a].token@
        != post.tokens@[b].token@ by {
        assert(pre.tokens@[a].uuid != pre.tokens@[b].uuid);
        assert(pre.tokens@[a].token@ != pre.tokens@[b].token@);
    }
}

} // verus!

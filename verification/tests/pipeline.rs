use vssv::addr::{ClientAddr, IpAddress, resolve_client_addr};
use vssv::audit::{AuditLogAction, AuditLogEntry, IpNetwork};
use vssv::errors::ResponseError;
use vssv::response::{HttpResponse, ResponseBody};
use vssv::routes::{
    HttpMethod, HttpRequest, extract_valid_token, get_livez, get_readyz, get_secret,
    handle_request, post_secret_contents,
};
use vssv::secret::Secret;
use vssv::store::Store;
use vssv::token::{Permission, Token};

const TOKEN_UUID: u128 = 0x1111;
const SECRET_UUID: u128 = 0x2222;
const PEER: IpAddress = IpAddress::V4(0x7f00_0001);

fn plain_token(credential: &str) -> Token {
    Token {
        uuid: TOKEN_UUID,
        token: credential.to_string(),
        expires_at: None,
        superuser: false,
        used_at: None,
    }
}

fn secret_with(contents: Option<Vec<u8>>, file_name: Option<&str>) -> Secret {
    Secret {
        uuid: SECRET_UUID,
        file_name: file_name.map(|n| n.to_string()),
        contents,
    }
}

fn store_with(tokens: Vec<Token>, permissions: Vec<Permission>, secrets: Vec<Secret>) -> Store {
    Store {
        tokens,
        permissions,
        secrets,
        audit_log: Vec::new(),
    }
}

fn read_permission() -> Permission {
    Permission {
        token: TOKEN_UUID,
        secret: SECRET_UUID,
        can_read: true,
        can_write: false,
    }
}

fn body_text(resp: &HttpResponse) -> &str {
    match &resp.body {
        ResponseBody::Text(text) => text.as_str(),
        _ => panic!("expected a text body"),
    }
}

#[test]
fn token_without_expiry_never_expires() {
    let token = plain_token("tok");
    assert!(!token.is_expired_at(i64::MIN));
    assert!(!token.is_expired_at(0));
    assert!(!token.is_expired_at(i64::MAX));
    assert!(!token.is_expired());
}

#[test]
fn token_expiry_is_strict() {
    let mut token = plain_token("tok");
    token.expires_at = Some(100);
    assert!(!token.is_expired_at(99));
    assert!(!token.is_expired_at(100));
    assert!(token.is_expired_at(101));
}

#[test]
fn expired_token_is_refused_but_timestamp_advances_once() {
    let mut token = plain_token("tok");
    token.expires_at = Some(50);
    let mut store = store_with(vec![token], vec![], vec![]);
    let bearer = "tok".to_string();
    let auth = extract_valid_token(&mut store, Some(&bearer), 100);
    assert_eq!(auth, Err(ResponseError::Unauthorized));
    assert_eq!(store.tokens[0].used_at, Some(100));
    assert_eq!(store.tokens[0].expires_at, Some(50));
}

#[test]
fn valid_token_authenticates_and_timestamp_advances() {
    let mut store = store_with(vec![plain_token("tok")], vec![], vec![]);
    let bearer = "tok".to_string();
    let auth = extract_valid_token(&mut store, Some(&bearer), 77);
    assert_eq!(auth, Ok(0));
    assert_eq!(store.tokens[0].used_at, Some(77));
}

#[test]
fn missing_credential_is_refused_with_401_kind() {
    let mut store = store_with(vec![plain_token("tok")], vec![], vec![]);
    let auth = extract_valid_token(&mut store, None, 77);
    assert_eq!(auth, Err(ResponseError::TypedHeaderRejection));
    assert_eq!(ResponseError::TypedHeaderRejection.status_code(), 401);
    assert_eq!(store.tokens[0].used_at, None);
}

#[test]
fn permissions_default_to_deny_without_a_row() {
    let token = plain_token("tok");
    let rows: Vec<Permission> = Vec::new();
    assert!(!token.can_read_secret(&rows, SECRET_UUID));
    assert!(!token.can_write_secret(&rows, SECRET_UUID));
    let mut partial = read_permission();
    partial.can_read = false;
    let rows = vec![partial];
    assert!(!token.can_read_secret(&rows, SECRET_UUID));
    assert!(!token.can_write_secret(&rows, SECRET_UUID));
}

#[test]
fn superuser_bypasses_permission_rows() {
    let mut token = plain_token("root");
    token.superuser = true;
    let rows: Vec<Permission> = Vec::new();
    assert!(token.can_read_secret(&rows, SECRET_UUID));
    assert!(token.can_write_secret(&rows, SECRET_UUID));
}

#[test]
fn permission_flags_are_independent() {
    let token = plain_token("tok");
    let rows = vec![read_permission()];
    assert!(token.can_read_secret(&rows, SECRET_UUID));
    assert!(!token.can_write_secret(&rows, SECRET_UUID));
}

#[test]
fn scenario_read_allowed_write_refused() {
    let secret = secret_with(Some(b"hunter2".to_vec()), Some("pass.txt"));
    let mut store = store_with(vec![plain_token("tok")], vec![read_permission()], vec![secret]);
    let bearer = "tok".to_string();

    let read = get_secret(&mut store, PEER, Some(&bearer), SECRET_UUID, 5).unwrap();
    assert_eq!(read.status, 200);
    assert_eq!(
        read.content_disposition.as_deref(),
        Some("attachment; filename=\"pass.txt\"")
    );
    match &read.body {
        ResponseBody::Blob(bytes) => assert_eq!(bytes, b"hunter2"),
        _ => panic!("expected the secret's bytes"),
    }
    assert_eq!(store.audit_log.len(), 1);
    let entry = &store.audit_log[0];
    assert!(matches!(entry.action, AuditLogAction::SecretRead));
    assert_eq!(entry.token, TOKEN_UUID);
    assert_eq!(entry.secret, SECRET_UUID);
    assert_eq!(entry.timestamp, 5);
    assert_eq!(
        entry.client_addr,
        IpNetwork { addr: PEER, prefix: 32 }
    );

    let write = post_secret_contents(&mut store, PEER, Some(&bearer), SECRET_UUID, b"x".to_vec(), 6);
    assert_eq!(write, Err(ResponseError::Unauthorized));
    assert_eq!(ResponseError::Unauthorized.status_code(), 401);
    assert_eq!(store.audit_log.len(), 1);
    assert_eq!(store.secrets[0].contents.as_deref(), Some(b"hunter2".as_slice()));
}

#[test]
fn unknown_token_gets_401_and_no_audit_entry() {
    let secret = secret_with(Some(b"data".to_vec()), None);
    let mut store = store_with(vec![plain_token("tok")], vec![read_permission()], vec![secret]);
    let bearer = "stranger".to_string();
    let read = get_secret(&mut store, PEER, Some(&bearer), SECRET_UUID, 9);
    assert_eq!(read, Err(ResponseError::Unauthorized));
    assert!(store.audit_log.is_empty());
    assert_eq!(store.tokens[0].used_at, None);
}

#[test]
fn write_then_read_round_trip() {
    let mut token = plain_token("root");
    token.superuser = true;
    let secret = secret_with(Some(b"old".to_vec()), Some("note.bin"));
    let mut store = store_with(vec![token], vec![], vec![secret]);
    let bearer = "root".to_string();

    let write =
        post_secret_contents(&mut store, PEER, Some(&bearer), SECRET_UUID, b"fresh".to_vec(), 10)
            .unwrap();
    assert_eq!(write.status, 204);
    assert!(matches!(write.body, ResponseBody::Empty));

    let read = get_secret(&mut store, PEER, Some(&bearer), SECRET_UUID, 11).unwrap();
    assert_eq!(read.status, 200);
    match &read.body {
        ResponseBody::Blob(bytes) => assert_eq!(bytes, b"fresh"),
        _ => panic!("expected the new bytes"),
    }
    assert_eq!(
        read.content_disposition.as_deref(),
        Some("attachment; filename=\"note.bin\"")
    );
    assert_eq!(store.audit_log.len(), 2);
    assert!(matches!(store.audit_log[0].action, AuditLogAction::SecretWrite));
    assert!(matches!(store.audit_log[1].action, AuditLogAction::SecretRead));
}

#[test]
fn authorized_read_of_a_missing_secret_is_not_found() {
    let mut token = plain_token("root");
    token.superuser = true;
    let mut store = store_with(vec![token], vec![], vec![]);
    let bearer = "root".to_string();
    let read = get_secret(&mut store, PEER, Some(&bearer), SECRET_UUID, 3);
    assert_eq!(read, Err(ResponseError::NotFoundError));
    assert_eq!(ResponseError::NotFoundError.status_code(), 404);
    assert!(store.audit_log.is_empty());
    assert_eq!(store.tokens[0].used_at, Some(3));
}

#[test]
fn authorized_write_to_a_missing_secret_is_not_found() {
    let mut token = plain_token("root");
    token.superuser = true;
    let mut store = store_with(vec![token], vec![], vec![]);
    let bearer = "root".to_string();
    let write = post_secret_contents(&mut store, PEER, Some(&bearer), SECRET_UUID, b"x".to_vec(), 3);
    assert_eq!(write, Err(ResponseError::NotFoundError));
    assert!(store.audit_log.is_empty());
    assert!(store.secrets.is_empty());
}

#[test]
fn absent_content_renders_204_and_empty_content_renders_200() {
    let absent = secret_with(None, Some("name.txt")).render();
    assert_eq!(absent.status, 204);
    assert!(matches!(absent.body, ResponseBody::Empty));
    assert!(absent.content_disposition.is_none());

    let empty = secret_with(Some(Vec::new()), Some("name.txt")).render();
    assert_eq!(empty.status, 200);
    match &empty.body {
        ResponseBody::Blob(bytes) => assert!(bytes.is_empty()),
        _ => panic!("expected an empty blob"),
    }
    assert_eq!(
        empty.content_disposition.as_deref(),
        Some("attachment; filename=\"name.txt\"")
    );
    assert_ne!(absent.status, empty.status);
}

#[test]
fn bare_attachment_hint_without_filename() {
    let resp = secret_with(Some(b"x".to_vec()), None).render();
    assert_eq!(resp.content_disposition.as_deref(), Some("attachment"));
}

#[test]
fn denied_caller_cannot_distinguish_existing_from_missing_secret() {
    let with_secret = || {
        store_with(
            vec![plain_token("tok")],
            vec![],
            vec![secret_with(Some(b"data".to_vec()), None)],
        )
    };
    let bearer = "tok".to_string();

    let mut store_a = with_secret();
    let out_a = get_secret(&mut store_a, PEER, Some(&bearer), SECRET_UUID, 1);

    let mut store_b = store_with(vec![plain_token("tok")], vec![], vec![]);
    let out_b = get_secret(&mut store_b, PEER, Some(&bearer), SECRET_UUID, 1);

    assert_eq!(out_a, Err(ResponseError::Unauthorized));
    assert_eq!(out_a, out_b);
    let rendered_a = ResponseError::Unauthorized.render(None);
    assert_eq!(rendered_a.status, 401);
}

#[test]
fn error_rendering_is_content_negotiated() {
    let err = ResponseError::Unauthorized;

    let plain = err.render(None);
    assert_eq!(plain.status, 401);
    assert!(!plain.json);
    assert_eq!(body_text(&plain), "401: unauthorized");

    let accept = b"application/json".to_vec();
    let json = err.render(Some(&accept));
    assert_eq!(json.status, 401);
    assert!(json.json);
    assert_eq!(body_text(&json), "{\"code\":401,\"message\":\"unauthorized\"}");

    let loud = b"Application/JSON; q=0.9".to_vec();
    let negotiated = err.render(Some(&loud));
    assert!(negotiated.json);

    let html = b"text/html".to_vec();
    let fallback = err.render(Some(&html));
    assert!(!fallback.json);
    assert_eq!(body_text(&fallback), "401: unauthorized");
}

#[test]
fn every_error_kind_has_its_fixed_status_and_message() {
    let cases = [
        (ResponseError::AxumExtensionRejection, 500, "internal server error"),
        (ResponseError::AxumHttpError, 500, "internal server error"),
        (ResponseError::DatabaseError, 500, "internal server error"),
        (ResponseError::EmptyXRealIP, 400, "x-real-ip header empty or unreadable"),
        (ResponseError::InvalidXRealIP, 400, "x-real-ip header malformed"),
        (ResponseError::NotFoundError, 404, "not found"),
        (ResponseError::TypedHeaderRejection, 401, "unauthorized"),
        (ResponseError::Unauthorized, 401, "unauthorized"),
    ];
    for (err, status, message) in cases {
        assert_eq!(err.status_code(), status);
        assert_eq!(err.message(), message);
        let rendered = err.render(None);
        assert_eq!(rendered.status, status);
        assert_eq!(body_text(&rendered), format!("{}: {}", status, message));
    }
    assert!(!ResponseError::NotFoundError.should_log());
    assert!(ResponseError::DatabaseError.should_log());
}

#[test]
fn client_address_resolution_follows_the_trust_setting() {
    let header = b"10.0.0.7".to_vec();
    assert_eq!(
        resolve_client_addr(true, Some(&header), PEER),
        Ok(ClientAddr { ip: IpAddress::V4(0x0a00_0007) })
    );
    assert_eq!(
        resolve_client_addr(false, Some(&header), PEER),
        Ok(ClientAddr { ip: PEER })
    );
    assert_eq!(resolve_client_addr(true, None, PEER), Ok(ClientAddr { ip: PEER }));

    let unreadable = vec![0xff_u8, 0x00];
    assert_eq!(
        resolve_client_addr(true, Some(&unreadable), PEER),
        Err(ResponseError::EmptyXRealIP)
    );

    let malformed = b"pineapple".to_vec();
    assert_eq!(
        resolve_client_addr(true, Some(&malformed), PEER),
        Err(ResponseError::InvalidXRealIP)
    );
}

#[test]
fn audit_entries_canonicalize_mapped_addresses() {
    let mapped = IpAddress::V6(0x0000_0000_0000_0000_0000_ffff_0102_0304);
    let entry = AuditLogEntry::new(mapped, AuditLogAction::SecretWrite, 1, 2, 3);
    assert_eq!(entry.client_addr.addr, IpAddress::V4(0x0102_0304));
    assert_eq!(entry.client_addr.prefix, 32);

    let plain_v6 = IpAddress::V6(0x2001_0db8_0000_0000_0000_0000_0000_0001);
    let entry = AuditLogEntry::new(plain_v6, AuditLogAction::SecretRead, 1, 2, 3);
    assert_eq!(entry.client_addr.addr, plain_v6);
    assert_eq!(entry.client_addr.prefix, 128);
}

#[test]
fn probes_answer_without_touching_the_store() {
    assert_eq!(get_livez().status, 204);
    assert_eq!(get_readyz(true).unwrap().status, 204);
    let failed = get_readyz(false);
    assert_eq!(failed, Err(ResponseError::DatabaseError));
    assert_eq!(ResponseError::DatabaseError.status_code(), 500);
}

fn request(method: HttpMethod, path: &[u8], bearer: Option<&str>) -> HttpRequest {
    HttpRequest {
        method,
        path: path.to_vec(),
        peer: PEER,
        real_ip_header: None,
        bearer: bearer.map(|b| b.to_string()),
        accept: None,
        body: Vec::new(),
    }
}

#[test]
fn livez_succeeds_even_when_the_probe_fails() {
    let mut store = store_with(vec![], vec![], vec![]);
    let resp = handle_request(
        &mut store,
        false,
        false,
        request(HttpMethod::Get, b"/livez", None),
        0,
    );
    assert_eq!(resp.status, 204);
    assert!(matches!(resp.body, ResponseBody::Empty));
}

#[test]
fn readyz_reports_a_failed_probe_as_500() {
    let mut store = store_with(vec![], vec![], vec![]);
    let ok = handle_request(
        &mut store,
        false,
        true,
        request(HttpMethod::Get, b"/readyz", None),
        0,
    );
    assert_eq!(ok.status, 204);
    let failed = handle_request(
        &mut store,
        false,
        false,
        request(HttpMethod::Get, b"/readyz", None),
        0,
    );
    assert_eq!(failed.status, 500);
    assert_eq!(body_text(&failed), "500: internal server error");
}

#[test]
fn unmatched_requests_render_the_typed_not_found() {
    let mut store = store_with(vec![], vec![], vec![]);
    let resp = handle_request(
        &mut store,
        false,
        true,
        request(HttpMethod::Get, b"/nope", None),
        0,
    );
    assert_eq!(resp.status, 404);
    assert_eq!(body_text(&resp), "404: not found");

    let mut req = request(HttpMethod::Post, b"/elsewhere", None);
    req.accept = Some(b"application/json".to_vec());
    let resp = handle_request(&mut store, false, true, req, 0);
    assert_eq!(resp.status, 404);
    assert!(resp.json);
    assert_eq!(body_text(&resp), "{\"code\":404,\"message\":\"not found\"}");
}

#[test]
fn full_request_serves_a_secret_end_to_end() {
    let secret = secret_with(Some(b"payload".to_vec()), None);
    let mut store = store_with(vec![plain_token("tok")], vec![read_permission()], vec![secret]);
    let path = format!("/secret/{}", "00000000-0000-0000-0000-000000002222");
    let resp = handle_request(
        &mut store,
        false,
        true,
        request(HttpMethod::Get, path.as_bytes(), Some("tok")),
        42,
    );
    assert_eq!(resp.status, 200);
    match &resp.body {
        ResponseBody::Blob(bytes) => assert_eq!(bytes, b"payload"),
        _ => panic!("expected the secret's bytes"),
    }
    assert_eq!(store.audit_log.len(), 1);
    assert_eq!(store.tokens[0].used_at, Some(42));
}

#[test]
fn full_request_with_unknown_token_renders_401_and_writes_nothing() {
    let secret = secret_with(Some(b"payload".to_vec()), None);
    let mut store = store_with(vec![plain_token("tok")], vec![read_permission()], vec![secret]);
    let path = "/secret/00000000-0000-0000-0000-000000002222";
    let resp = handle_request(
        &mut store,
        false,
        true,
        request(HttpMethod::Get, path.as_bytes(), Some("wrong")),
        42,
    );
    assert_eq!(resp.status, 401);
    assert_eq!(body_text(&resp), "401: unauthorized");
    assert!(store.audit_log.is_empty());
    assert_eq!(store.tokens[0].used_at, None);
}

#[test]
fn full_request_writes_contents_end_to_end() {
    let mut token = plain_token("root");
    token.superuser = true;
    let secret = secret_with(None, Some("blob"));
    let mut store = store_with(vec![token], vec![], vec![secret]);
    let mut req = request(
        HttpMethod::Post,
        b"/secret/00000000-0000-0000-0000-000000002222/contents",
        Some("root"),
    );
    req.body = b"written".to_vec();
    let resp = handle_request(&mut store, false, true, req, 7);
    assert_eq!(resp.status, 204);
    assert_eq!(store.secrets[0].contents.as_deref(), Some(b"written".as_slice()));
    assert_eq!(store.secrets[0].file_name.as_deref(), Some("blob"));
    assert_eq!(store.audit_log.len(), 1);
    assert!(matches!(store.audit_log[0].action, AuditLogAction::SecretWrite));
}

use job_service::errors::AppError;
use job_service::http::{
    access_session_token, audit_action_type, audit_target, client_ip, error_log_id, error_log_texts, extract_bearer_token,
    is_mutation, is_untracked_path, log_level, query_suffix, rate_limit_headers, rate_limit_policy,
    request_log_line, revoked_session_error, should_log_error, skip_audit, too_many_requests_body, LogLevel,
};
use job_service::json_scrub::{is_sensitive, scrub_body_str, scrub_json, JsonValue};
use job_service::pdf::{generate_url, CircuitBreaker, PdfProvider, PdfServiceReply, FALLBACK_PDF, MAX_FAILURES};
use job_service::rbac::{
    authorize_from_cache, authorize_from_records, authorize_step, check_role, check_user, is_admin_role,
    permission_cache_entries, requested_permission_allowed, unauthenticated_error, AuthorizeAction, AuthorizeEvent,
    RoleFeature, RoleRecord, UserRecord,
};
use job_service::session::{
    expire_sessions_error, permissions_key, rate_limit_key, PERMISSIONS_TTL_SEC, rate_limit_outcome, save_permissions_error,
    session_token_key, session_version_key, validate_session_reply, RequestWindow,
};

fn perm(feature: &str, create: bool, view: bool, activate: bool, delete: bool) -> RoleFeature {
    RoleFeature { id_feature: feature.to_string(), create, view, activate, delete }
}

fn from_json(v: &JsonValue) -> serde_json::Value {
    match v {
        JsonValue::Null => serde_json::Value::Null,
        JsonValue::Bool(b) => serde_json::Value::Bool(*b),
        JsonValue::Number(n) => serde_json::from_str(n).unwrap(),
        JsonValue::Str(s) => serde_json::Value::String(s.clone()),
        JsonValue::Array(items) => serde_json::Value::Array(items.iter().map(from_json).collect()),
        JsonValue::Object(m) => {
            let mut map = serde_json::Map::new();
            for (k, v) in m {
                map.insert(k.clone(), from_json(v));
            }
            serde_json::Value::Object(map)
        }
    }
}

#[test]
fn test_scrub_body_str() {
    let input = r#"{"password": "secret123", "normal": "value"}"#;
    let output = scrub_body_str(input);
    assert!(output.contains("[SCRUBBED]"));
    assert!(output.contains("normal"));

    let invalid_input = "invalid json payload";
    let output_invalid = scrub_body_str(invalid_input);
    assert_eq!(output_invalid, "invalid json payload");
}

#[test]
fn scrub_reaches_nested_members_and_keeps_others() {
    let mut doc = JsonValue::Array(vec![JsonValue::Object(vec![
        ("user".into(), JsonValue::Object(vec![
            ("Senha".into(), JsonValue::Str("x".into())),
            ("name".into(), JsonValue::Str("Ana".into())),
        ])),
        ("accessToken".into(), JsonValue::Number("12".into())),
        ("count".into(), JsonValue::Number("3".into())),
    ])]);
    scrub_json(&mut doc);
    let out = serde_json::to_string(&from_json(&doc)).unwrap();
    assert_eq!(out, r#"[{"accessToken":"[SCRUBBED]","count":3,"user":{"Senha":"[SCRUBBED]","name":"Ana"}}]"#);
    let mut again = JsonValue::Array(vec![]);
    scrub_json(&mut again);
    assert!(matches!(again, JsonValue::Array(ref v) if v.is_empty()));
}

#[test]
fn scrub_twice_is_scrub_once() {
    let raw = r#"{"client_secret":{"a":1},"list":[{"token":"t"}],"ok":true}"#;
    let once = scrub_body_str(raw);
    let twice = scrub_body_str(&once);
    assert_eq!(once, twice);
    assert_eq!(scrub_body_str("   \n"), "");
}

#[test]
fn sensitive_names() {
    assert!(is_sensitive("PASSWORD"));
    assert!(is_sensitive("refresh_token"));
    assert!(is_sensitive("mySecret"));
    assert!(is_sensitive("senha_atual"));
    assert!(!is_sensitive("name"));
}

#[test]
fn rbac_user_and_role_checks() {
    assert_eq!(check_user(&None).unwrap_err().message(), "Usuário não encontrado ou inativo");
    assert!(matches!(check_user(&None).unwrap_err(), AppError::Unauthorized(_)));
    let inactive = UserRecord { id_role: "r".into(), active: false };
    assert!(matches!(check_user(&Some(inactive)).unwrap_err(), AppError::Forbidden(_)));
    let active = UserRecord { id_role: "r1".into(), active: true };
    assert_eq!(check_user(&Some(active)).unwrap(), "r1");
    assert!(matches!(check_role(&None).unwrap_err(), AppError::Unauthorized(_)));
    let off = RoleRecord { id: "x".into(), active: false };
    assert_eq!(check_role(&Some(off)).unwrap_err().message(), "Perfil de acesso inativo");
    assert!(check_role(&Some(RoleRecord { id: "administrator".into(), active: true })).unwrap());
    assert!(!check_role(&Some(RoleRecord { id: "seller".into(), active: true })).unwrap());
    assert!(is_admin_role("administrator"));
    assert!(!is_admin_role("Administrator"));
}

#[test]
fn authorize_unknown_action_is_refused() {
    let perms = vec![perm("product", true, true, true, true)];
    let (entries, res) = authorize_from_records(&perms, "product", "invalid_action");
    assert_eq!(
        entries,
        vec![
            "product:create".to_string(),
            "product:view".to_string(),
            "product:activate".to_string(),
            "product:delete".to_string()
        ]
    );
    let err = res.unwrap_err();
    assert!(matches!(err, AppError::Forbidden(_)));
    assert_eq!(
        err.message(),
        "Sem permissão para executar a ação 'invalid_action' na funcionalidade 'product'"
    );
}

#[test]
fn cache_and_records_agree() {
    let perms = vec![perm("product", false, true, false, false), perm("user", true, false, false, true)];
    let entries = permission_cache_entries(&perms);
    for (feature, action) in [("product", "view"), ("product", "create"), ("user", "delete"), ("user", "view"), ("x", "view")] {
        let member = entries.contains(&format!("{}:{}", feature, action));
        assert_eq!(authorize_from_cache(member, feature, action).is_ok(), requested_permission_allowed(&perms, feature, action));
        assert_eq!(authorize_from_records(&perms, feature, action).1.is_ok(), member);
    }
    assert_eq!(permission_cache_entries(&vec![]), vec!["none:none".to_string()]);
}

#[test]
fn session_keys() {
    assert_eq!(session_version_key("u1"), "session:user:u1:version");
    assert_eq!(session_token_key("u1", "access:abc"), "session:user:u1:token:access:abc");
    assert_eq!(permissions_key("u1"), "session:u1:permissions");
    assert_eq!(rate_limit_key("1.2.3.4"), "ratelimit:1.2.3.4");
}

#[test]
fn session_validity_and_revocation() {
    assert!(validate_session_reply(&Some(vec![Some(0), None])));
    assert!(validate_session_reply(&Some(vec![Some(2), Some(2)])));
    assert!(!validate_session_reply(&Some(vec![Some(2), Some(3)])));
    assert!(!validate_session_reply(&Some(vec![None, Some(0)])));
    assert!(!validate_session_reply(&None));
    assert!(!validate_session_reply(&Some(vec![])));
    assert_eq!(expire_sessions_error("down").message(), "Erro ao expirar sessões antigas: down");
    assert_eq!(save_permissions_error("down").message(), "Erro ao salvar permissões no Redis: down");
}

#[test]
fn rate_limit_verdicts() {
    assert_eq!(rate_limit_outcome(&vec![1, 3], 10), (true, 7, 10));
    assert_eq!(rate_limit_outcome(&vec![0, 10], 10), (false, 0, 10));
    assert_eq!(rate_limit_outcome(&vec![], 10), (false, 0, 10));
    assert_eq!(rate_limit_outcome(&vec![1, 12], 10), (true, 0, 10));
}

#[test]
fn request_window_refuses_over_limit() {
    let mut w = RequestWindow::new();
    assert_eq!(w.record_request(1_000, 2, 60), (1, 1));
    assert_eq!(w.record_request(2_000, 2, 60), (1, 2));
    assert_eq!(w.record_request(3_000, 2, 60), (0, 2));
    assert_eq!(w.hits, vec![1_000, 2_000]);
    assert_eq!(w.record_request(62_000, 2, 60), (1, 1));
    assert_eq!(w.hits, vec![62_000]);
}

#[test]
fn bearer_token_extraction() {
    assert_eq!(extract_bearer_token(Some("Bearer abc.def")).unwrap(), "abc.def");
    let e = extract_bearer_token(Some("Basic xyz")).unwrap_err();
    assert!(matches!(e, AppError::Unauthorized(_)));
    assert_eq!(e.message(), "Token deve ser do tipo Bearer");
    assert_eq!(extract_bearer_token(None).unwrap_err().message(), "Cabeçalho de autorização ausente");
    assert_eq!(access_session_token("t"), "access:t");
    assert_eq!(revoked_session_error().message(), "Sessão revogada ou expirada");
}

#[test]
fn request_policies() {
    assert_eq!(client_ip(Some(" 10.0.0.1 , 10.0.0.2"), Some("9.9.9.9")), "10.0.0.1");
    assert_eq!(client_ip(None, Some("9.9.9.9")), "9.9.9.9");
    assert_eq!(client_ip(None, None), "127.0.0.1");
    assert_eq!(rate_limit_policy(), (1000, 60));
    assert_eq!(rate_limit_headers(1000, -5), ("1000".to_string(), "-5".to_string()));
    assert!(too_many_requests_body().contains("Too Many Requests"));
    assert!(is_mutation("PATCH") && is_mutation("POST") && !is_mutation("GET"));
    assert_eq!(audit_target("/v1/users/1"), ("User", "User"));
    assert_eq!(audit_target("/v1/products"), ("Product", "Product"));
    assert_eq!(audit_target("/other"), ("Generic", "Generic"));
    assert_eq!(audit_action_type("PUT"), "UPDATE");
    assert_eq!(audit_action_type("PATCH"), "MUTATE");
    assert!(skip_audit("POST", "/v1/auth/login", false));
    assert!(!skip_audit("POST", "/v1/auth/login", true));
}

#[test]
fn error_and_request_logging() {
    assert!(should_log_error(500, false));
    assert!(should_log_error(404, true));
    assert!(!should_log_error(404, false));
    assert!(!should_log_error(200, true));
    assert_eq!(
        error_log_texts("404 Not Found", "GET", "/x"),
        ("GET /x".to_string(), "HTTP 404 Not Found Error on GET /x".to_string())
    );
    assert!(is_untracked_path("/health"));
    assert!(is_untracked_path("/v1/docs/index.html"));
    assert!(!is_untracked_path("/v1/users"));
    assert_eq!(log_level(503), LogLevel::Error);
    assert_eq!(log_level(404), LogLevel::Warn);
    assert_eq!(log_level(201), LogLevel::Info);
    assert_eq!(query_suffix(Some("a=1")), "?a=1");
    assert_eq!(query_suffix(None), "");
    assert_eq!(request_log_line("GET", "/v1/x", "?a=1", 200, 15), "[BACKEND] GET /v1/x?a=1 → 200 (15ms)");
}

#[test]
fn breaker_opens_after_three_failures() {
    let mut b = CircuitBreaker::new();
    let fallback = PdfProvider::get_fallback_pdf_bytes();
    assert_eq!(fallback, FALLBACK_PDF.as_bytes().to_vec());
    assert!(PdfProvider::short_circuit(&b, 100).is_none());
    for t in [100, 101] {
        assert_eq!(PdfProvider::complete(&mut b, t, PdfServiceReply::ErrorStatus).unwrap(), fallback);
        assert!(!b.is_open(t));
    }
    assert_eq!(PdfProvider::complete(&mut b, 102, PdfServiceReply::Unreachable).unwrap(), fallback);
    assert!(b.is_open(102));
    assert_eq!(b.open_until, 112);
    assert_eq!(PdfProvider::short_circuit(&b, 105), Some(fallback.clone()));
    assert!(PdfProvider::short_circuit(&b, 112).is_none());
    let doc = PdfProvider::complete(&mut b, 113, PdfServiceReply::Document(vec![1, 2, 3])).unwrap();
    assert_eq!(doc, vec![1, 2, 3]);
    assert_eq!((b.failures, b.open_until), (0, 0));
}

#[test]
fn unreadable_pdf_body_is_an_error() {
    let mut b = CircuitBreaker::new();
    let e = PdfProvider::complete(&mut b, 1, PdfServiceReply::UnreadableBody("eof".into())).unwrap_err();
    assert!(matches!(e, AppError::Internal(_)));
    assert_eq!(e.message(), "Falha ao ler bytes do PDF: eof");
    assert_eq!(b.failures, 0);
}

#[test]
fn authorization_steps_in_order() {
    let step = |role: &str, ev: AuthorizeEvent| authorize_step(role, "product", "view", ev);
    assert!(matches!(step("administrator", AuthorizeEvent::Start), AuthorizeAction::Answer(Ok(()))));
    assert!(matches!(step("seller", AuthorizeEvent::Start), AuthorizeAction::AskCacheKey));
    assert!(matches!(step("seller", AuthorizeEvent::CacheKeyExists(true)), AuthorizeAction::AskCacheMembership));
    assert!(matches!(step("seller", AuthorizeEvent::CacheKeyExists(false)), AuthorizeAction::LoadUser));
    assert!(matches!(step("seller", AuthorizeEvent::CachedMembership(true)), AuthorizeAction::Answer(Ok(()))));
    match step("seller", AuthorizeEvent::CachedMembership(false)) {
        AuthorizeAction::Answer(Err(e)) => assert!(matches!(e, AppError::Forbidden(_))),
        other => panic!("unexpected {:?}", other),
    }
    let user = UserRecord { id_role: "r9".into(), active: true };
    match step("seller", AuthorizeEvent::UserLoaded(Some(user))) {
        AuthorizeAction::LoadRole(id) => assert_eq!(id, "r9"),
        other => panic!("unexpected {:?}", other),
    }
    match step("seller", AuthorizeEvent::UserLoaded(None)) {
        AuthorizeAction::Answer(Err(e)) => assert_eq!(e.message(), "Usuário não encontrado ou inativo"),
        other => panic!("unexpected {:?}", other),
    }
    let admin_role = RoleRecord { id: "administrator".into(), active: true };
    assert!(matches!(step("seller", AuthorizeEvent::RoleLoaded("administrator".into(), Some(admin_role))), AuthorizeAction::Answer(Ok(()))));
    let role = RoleRecord { id: "r9".into(), active: true };
    match step("seller", AuthorizeEvent::RoleLoaded("r9".into(), Some(role))) {
        AuthorizeAction::LoadPermissions(id) => assert_eq!(id, "r9"),
        other => panic!("unexpected {:?}", other),
    }
    match step("seller", AuthorizeEvent::PermissionsLoaded(vec![perm("product", false, true, false, false)])) {
        AuthorizeAction::CacheThenAnswer(entries, verdict) => {
            assert_eq!(entries, vec!["product:view".to_string()]);
            assert!(verdict.is_ok());
        }
        other => panic!("unexpected {:?}", other),
    }
    assert_eq!(unauthenticated_error().message(), "Usuário não autenticado");
}

#[test]
fn test_rate_limit_exceeded() {
    let mut window = RequestWindow::new();
    let now: i64 = 1_780_000_000_000;
    let (admitted1, count1) = window.record_request(now, 1, 10);
    let (allowed1, remaining1, limit1) = rate_limit_outcome(&vec![admitted1, count1], 1);
    assert!(allowed1);
    assert_eq!(remaining1, 0);
    assert_eq!(limit1, 1);

    let (admitted2, count2) = window.record_request(now + 5, 1, 10);
    let (allowed2, remaining2, limit2) = rate_limit_outcome(&vec![admitted2, count2], 1);
    assert!(!allowed2);
    assert_eq!(remaining2, 0);
    assert_eq!(limit2, 1);
}

/// One PDF request as the service makes it: refused while the circuit is open, otherwise
/// settled by the reply of the PDF service.
fn pdf_request(b: &mut CircuitBreaker, now: i64, reply: PdfServiceReply) -> Result<Vec<u8>, AppError> {
    match PdfProvider::short_circuit(b, now) {
        Some(fallback) => Ok(fallback),
        None => PdfProvider::complete(b, now, reply),
    }
}

#[test]
fn test_generate_pdf_success() {
    let mut b = CircuitBreaker::new();
    let res = pdf_request(&mut b, 1_000, PdfServiceReply::Document(b"custom-pdf-bytes".to_vec()));
    assert!(res.is_ok());
    assert_eq!(res.unwrap(), b"custom-pdf-bytes");
}

#[test]
fn test_generate_pdf_server_error() {
    let mut b = CircuitBreaker::new();
    let res = pdf_request(&mut b, 1_000, PdfServiceReply::ErrorStatus);
    assert!(res.is_ok());
    assert_eq!(res.unwrap(), PdfProvider::get_fallback_pdf_bytes());
}

#[test]
fn test_generate_pdf_connection_failure() {
    let mut b = CircuitBreaker::new();
    let res = pdf_request(&mut b, 1_000, PdfServiceReply::Unreachable);
    assert!(res.is_ok());
    assert_eq!(res.unwrap(), PdfProvider::get_fallback_pdf_bytes());
}

#[test]
fn test_generate_pdf_byte_reading_failure() {
    let mut b = CircuitBreaker::new();
    let res = pdf_request(&mut b, 1_000, PdfServiceReply::UnreadableBody("unexpected end of chunked body".into()));
    assert!(res.is_err());
    assert!(res.unwrap_err().message().contains("Falha ao ler bytes do PDF"));
}

#[test]
fn test_generate_pdf_circuit_breaker() {
    let mut b = CircuitBreaker::new();
    for _ in 0..MAX_FAILURES {
        assert!(pdf_request(&mut b, 1_000, PdfServiceReply::Unreachable).is_ok());
    }
    assert!(pdf_request(&mut b, 1_000, PdfServiceReply::Unreachable).is_ok());
    assert!(b.open_until > 0);
}

#[test]
fn scrubbed_body_texts() {
    assert_eq!(
        scrub_body_str(r#"{"password": "secret123", "normal": "value", "n": 1.5}"#),
        r#"{"n":1.5,"normal":"value","password":"[SCRUBBED]"}"#
    );
    assert_eq!(scrub_body_str(r#"[{"token": 7}, 2]"#), r#"[{"token":"[SCRUBBED]"},2]"#);
    assert_eq!(scrub_body_str("   \n"), "");
    assert_eq!(scrub_body_str("{not json"), "{not json");
}

#[test]
fn same_millisecond_requests_share_one_entry() {
    let mut w = RequestWindow::new();
    assert_eq!(w.record_request(5_000, 2, 60), (1, 1));
    assert_eq!(w.record_request(5_000, 2, 60), (1, 2));
    assert_eq!(w.hits, vec![5_000]);
    assert_eq!(w.record_request(5_000, 2, 60), (1, 2));
    assert_eq!(w.record_request(5_001, 2, 60), (1, 2));
    assert_eq!(w.hits, vec![5_000, 5_001]);
    assert_eq!(w.record_request(5_002, 2, 60), (0, 2));
}

#[test]
fn error_log_ids() {
    assert_eq!(
        error_log_id("/v1/x?FORCE_ERROR_LOG_DB_FAILURE=1"),
        "this-id-is-too-long-to-fit-in-varchar-40-so-it-fails-db-insert"
    );
    let id = error_log_id("/v1/product");
    assert_eq!(id.len(), 36);
    assert_ne!(id, error_log_id("/v1/product"));
}

#[test]
fn fallback_pdf_shape() {
    let pdf = PdfProvider::get_fallback_pdf_bytes();
    assert!(pdf.is_ascii());
    assert!(pdf.starts_with(b"%PDF-1.4\n"));
    assert!(pdf.ends_with(b"%%EOF"));
    let needle = b"(Mock PDF Content) Tj";
    assert!(pdf.windows(needle.len()).any(|w| w == needle));
    assert_eq!(pdf, PdfProvider::get_fallback_pdf_bytes());
}

#[test]
fn pdf_generate_address() {
    assert_eq!(generate_url("http://127.0.0.1:2"), "http://127.0.0.1:2/v1/pdf/generate");
    assert_eq!(generate_url(""), "/v1/pdf/generate");
}

#[test]
fn cached_permissions_live_an_hour() {
    assert_eq!(PERMISSIONS_TTL_SEC, 3600);
}

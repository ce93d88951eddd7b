use vstd::prelude::*;
use crate::errors::{AppError, error_message};
use crate::numbers::{i64_to_text, signed_text, str_equal, u64_to_text, decimal_text};
use crate::text::{contains, contains_spec, split, split_spec, starts_with, starts_with_spec, trim, trim_spec, substring};

verus! {

/// The token of an `Authorization` header: it must be present and start with `Bearer `.
pub fn extract_bearer_token(header: Option<&str>) -> (r: Result<String, AppError>)
    ensures
        match header {
            None => r is Err && r->Err_0 is Unauthorized && error_message(r->Err_0)
                == "Cabeçalho de autorização ausente"@,
            Some(h) => if starts_with_spec(h@, "Bearer "@) {
                r is Ok && r->Ok_0@ == h@.skip(7)
            } else {
                r is Err && r->Err_0 is Unauthorized && error_message(r->Err_0) == "Token deve ser do tipo Bearer"@
            },
        },
{
    match header {
        None => Err(AppError::Unauthorized(String::from_str("Cabeçalho de autorização ausente"))),
        Some(h) => {
            proof {
                reveal_strlit("Bearer ");
            }
            if starts_with(h, "Bearer ") {
                let n = h.unicode_len();
                let t = substring(h, 7, n);
                assert(h@.subrange(7, n as int) =~= h@.skip(7));
                Ok(t)
            } else {
                Err(AppError::Unauthorized(String::from_str("Token deve ser do tipo Bearer")))
            }
        },
    }
}

/// The session token under which an access token is stored: `access:<token>`.
pub fn access_session_token(token: &str) -> (r: String)
    ensures
        r@ == "access:"@ + token@,
{
    let mut s = String::from_str("access:");
    s.append(token);
    s
}

/// The message when a session was revoked or expired.
pub fn revoked_session_error() -> (r: AppError)
    ensures
        r is Unauthorized && error_message(r) == "Sessão revogada ou expirada"@,
{
    AppError::Unauthorized(String::from_str("Sessão revogada ou expirada"))
}

/// The client address that requests are counted under: the first entry of
/// `x-forwarded-for`, trimmed; otherwise `x-real-ip`; otherwise `127.0.0.1`.
pub fn client_ip(forwarded_for: Option<&str>, real_ip: Option<&str>) -> (r: String)
    ensures
        match forwarded_for {
            Some(f) => r@ == trim_spec(split_spec(f@, ',')[0]),
            None => match real_ip {
                Some(ip) => r@ == ip@,
                None => r@ == "127.0.0.1"@,
            },
        },
{
    match forwarded_for {
        Some(f) => {
            let pieces = split(f, ',');
            proof {
                crate::text::lemma_split_nonempty(f@, ',');
            }
            trim(pieces[0].as_str())
        },
        None => match real_ip {
            Some(ip) => String::from_str(ip),
            None => String::from_str("127.0.0.1"),
        },
    }
}


/// The number of requests allowed per window, and the window in seconds.
pub fn rate_limit_policy() -> (r: (i64, i64))
    ensures
        r == (1000i64, 60i64),
{
    (1000, 60)
}

/// The values of the `x-ratelimit-limit` and `x-ratelimit-remaining` headers.
pub fn rate_limit_headers(max_limit: i64, remaining: i64) -> (r: (String, String))
    ensures
        r.0@ == signed_text(max_limit as int),
        r.1@ == signed_text(remaining as int),
{
    (i64_to_text(max_limit), i64_to_text(remaining))
}

/// The body of the answer to a client over its limit.
pub fn too_many_requests_body() -> (r: &'static str)
    ensures
        r@ == "{\"status\":false,\"message\":\"Muitas requisições. Por favor, tente novamente mais tarde.\",\"error\":\"Too Many Requests\"}"@,
{
    "{\"status\":false,\"message\":\"Muitas requisições. Por favor, tente novamente mais tarde.\",\"error\":\"Too Many Requests\"}"
}

/// Whether a request method changes data and is audited: POST, PUT, DELETE or PATCH.
pub open spec fn is_mutation_spec(method: Seq<char>) -> bool {
    method == "POST"@ || method == "PUT"@ || method == "DELETE"@ || method == "PATCH"@
}

/// Whether a request method changes data.
pub fn is_mutation(method: &str) -> (r: bool)
    ensures
        r == is_mutation_spec(method@),
{
    str_equal(method, "POST") || str_equal(method, "PUT") || str_equal(method, "DELETE") || str_equal(method, "PATCH")
}

/// The class and table that an audited path concerns.
pub open spec fn audit_target_spec(path: Seq<char>) -> (Seq<char>, Seq<char>) {
    if contains_spec(path, "/v1/user"@) {
        ("User"@, "User"@)
    } else if contains_spec(path, "/v1/role"@) {
        ("Role"@, "Role"@)
    } else if contains_spec(path, "/v1/product"@) {
        ("Product"@, "Product"@)
    } else {
        ("Generic"@, "Generic"@)
    }
}

/// The class and table that an audited path concerns.
pub fn audit_target(path: &str) -> (r: (&'static str, &'static str))
    ensures
        (r.0@, r.1@) == audit_target_spec(path@),
{
    if contains(path, "/v1/user") {
        ("User", "User")
    } else if contains(path, "/v1/role") {
        ("Role", "Role")
    } else if contains(path, "/v1/product") {
        ("Product", "Product")
    } else {
        ("Generic", "Generic")
    }
}

/// The kind of change that a method makes, as the audit records it.
pub fn audit_action_type(method: &str) -> (r: &'static str)
    ensures
        method@ == "POST"@ ==> r@ == "CREATE"@,
        method@ == "PUT"@ ==> r@ == "UPDATE"@,
        method@ == "DELETE"@ ==> r@ == "DELETE"@,
        !(method@ == "POST"@ || method@ == "PUT"@ || method@ == "DELETE"@) ==> r@ == "MUTATE"@,
{
    proof {
        reveal_strlit("POST");
        reveal_strlit("PUT");
        reveal_strlit("DELETE");
        assert("PUT"@.len() != "POST"@.len());
        assert("DELETE"@.len() != "POST"@.len());
        assert("DELETE"@.len() != "PUT"@.len());
    }
    if str_equal(method, "POST") {
        "CREATE"
    } else if str_equal(method, "PUT") {
        "UPDATE"
    } else if str_equal(method, "DELETE") {
        "DELETE"
    } else {
        "MUTATE"
    }
}

/// Whether an audited request leaves no record: a failed login (a POST to the login route
/// that ended without a user).
pub fn skip_audit(method: &str, path: &str, has_user: bool) -> (r: bool)
    ensures
        r == (method@ == "POST"@ && contains_spec(path@, "/v1/auth/login"@) && !has_user),
{
    str_equal(method, "POST") && contains(path, "/v1/auth/login") && !has_user
}

/// Whether an answer is logged as an error: client errors made by a known user, and
/// every server error.
pub open spec fn should_log_error_spec(status: u16, has_user: bool) -> bool {
    let client = 400 <= status <= 499;
    let server = 500 <= status <= 599;
    (client || server) && (has_user || server)
}

/// Whether an answer is logged as an error.
pub fn should_log_error(status: u16, has_user: bool) -> (r: bool)
    ensures
        r == should_log_error_spec(status, has_user),
{
    let client = 400 <= status && status <= 499;
    let server = 500 <= status && status <= 599;
    (client || server) && (has_user || server)
}

/// The id under which an error is logged when the request's address holds this marker:
/// too long for the id column, so that writing the log fails.
pub const FORCED_LOG_FAILURE_ID: &'static str = "this-id-is-too-long-to-fit-in-varchar-40-so-it-fails-db-insert";

/// The id of an error log record: the over-long id when the request's address holds
/// `FORCE_ERROR_LOG_DB_FAILURE` (so that the write fails on purpose), a fresh random uuid
/// otherwise.
pub fn error_log_id(uri: &str) -> (r: String)
    ensures
        contains_spec(uri@, "FORCE_ERROR_LOG_DB_FAILURE"@) ==> r@ == FORCED_LOG_FAILURE_ID@,
        !contains_spec(uri@, "FORCE_ERROR_LOG_DB_FAILURE"@) ==> r@.len() == 36 && r@[8] == '-' && r@[13] == '-'
            && r@[18] == '-' && r@[23] == '-',
{
    if contains(uri, "FORCE_ERROR_LOG_DB_FAILURE") {
        FORCED_LOG_FAILURE_ID.to_string()
    } else {
        crate::storage::new_unique_id()
    }
}

/// The source and the message of a logged error.
pub fn error_log_texts(status_text: &str, method: &str, uri: &str) -> (r: (String, String))
    ensures
        r.0@ == method@ + " "@ + uri@,
        r.1@ == "HTTP "@ + status_text@ + " Error on "@ + method@ + " "@ + uri@,
{
    let source = crate::query_parser::join3(method, " ", uri);
    let mut msg = String::from_str("HTTP ");
    msg.append(status_text);
    msg.append(" Error on ");
    msg.append(method);
    msg.append(" ");
    msg.append(uri);
    (source, msg)
}

/// Whether a path is left out of the request log: health, metrics and liveness probes,
/// and the API documentation.
pub open spec fn untracked_path_spec(path: Seq<char>) -> bool {
    path == "/health"@ || path == "/metrics"@ || path == "/liveness"@ || starts_with_spec(path, "/v1/docs"@)
}

/// Whether a path is left out of the request log.
pub fn is_untracked_path(path: &str) -> (r: bool)
    ensures
        r == untracked_path_spec(path@),
{
    str_equal(path, "/health") || str_equal(path, "/metrics") || str_equal(path, "/liveness") || starts_with(
        path,
        "/v1/docs",
    )
}

/// The level that a request is logged at.
#[derive(Debug, Clone, Copy, PartialEq, Eq, Structural)]
pub enum LogLevel {
    Error,
    Warn,
    Info,
}

/// Server errors are logged as errors, client errors as warnings, the rest as information.
pub fn log_level(status: u16) -> (r: LogLevel)
    ensures
        status >= 500 ==> r == LogLevel::Error,
        400 <= status < 500 ==> r == LogLevel::Warn,
        status < 400 ==> r == LogLevel::Info,
{
    if status >= 500 {
        LogLevel::Error
    } else if status >= 400 {
        LogLevel::Warn
    } else {
        LogLevel::Info
    }
}

/// The query part of a logged request: `?` and the query, or nothing.
pub fn query_suffix(query: Option<&str>) -> (r: String)
    ensures
        match query {
            Some(q) => r@ == "?"@ + q@,
            None => r@ == ""@,
        },
{
    match query {
        Some(q) => {
            let mut s = String::from_str("?");
            s.append(q);
            s
        },
        None => String::from_str(""),
    }
}

/// The line of the request log: `[BACKEND] METHOD path?query → status (Nms)`.
pub fn request_log_line(method: &str, path: &str, query: &str, status: u16, duration_ms: u64) -> (r: String)
    ensures
        r@ == "[BACKEND] "@ + method@ + " "@ + path@ + query@ + " → "@ + decimal_text(status as nat) + " ("@
            + decimal_text(duration_ms as nat) + "ms)"@,
{
    let mut s = String::from_str("[BACKEND] ");
    s.append(method);
    s.append(" ");
    s.append(path);
    s.append(query);
    s.append(" → ");
    let st = u64_to_text(status as u64);
    s.append(st.as_str());
    s.append(" (");
    let d = u64_to_text(duration_ms);
    s.append(d.as_str());
    s.append("ms)");
    s
}

/// The audited methods: every request that writes (POST, PUT, DELETE, PATCH) is audited,
/// and the reading methods GET, HEAD and OPTIONS never are.
pub proof fn law_audited_methods(method: Seq<char>)
    ensures
        method == "DELETE"@ || method == "PATCH"@ || method == "POST"@ || method == "PUT"@ ==> is_mutation_spec(method),
        method == "GET"@ || method == "HEAD"@ || method == "OPTIONS"@ ==> !is_mutation_spec(method),
{
    reveal_strlit("POST");
    reveal_strlit("PUT");
    reveal_strlit("DELETE");
    reveal_strlit("PATCH");
    reveal_strlit("GET");
    reveal_strlit("HEAD");
    reveal_strlit("OPTIONS");
    if method == "GET"@ || method == "HEAD"@ || method == "OPTIONS"@ {
        assert(method != "POST"@ && method != "PUT"@ && method != "DELETE"@ && method != "PATCH"@) by {
            assert("GET"@.len() == 3 && "HEAD"@.len() == 4 && "OPTIONS"@.len() == 7);
            assert("PUT"@.len() == 3 && "POST"@.len() == 4 && "PATCH"@.len() == 5 && "DELETE"@.len() == 6);
            assert("GET"@[0] != "PUT"@[0]);
            assert("HEAD"@[0] != "POST"@[0]);
        }
    }
}

} // verus!

use vstd::prelude::*;
use crate::errors::{AppError, error_message};
use crate::json_scrub::{json_view, JsonValue, JsonView};
use crate::numbers::{parse_i64, parse_i64_spec, signed_text, str_equal};

verus! {

/// The bcrypt work factor used for every stored password.
pub const BCRYPT_COST: u32 = 12;

/// Seven days, in seconds: the lifetime of a refresh token.
pub const REFRESH_TOKEN_TTL_SEC: i64 = 604800;

/// The earliest instant, in seconds since the epoch, that a token time may reach
/// (1 January of year -262143, UTC).
pub const MIN_TIMESTAMP: i64 = -8334601315200;

/// The latest instant, in seconds since the epoch, that a token time may reach
/// (31 December of year 262142, 23:59:59 UTC).
pub const MAX_TIMESTAMP: i64 = 8210266876799;

/// The largest number of seconds that a token lifetime may span either way.
pub const MAX_TTL_SEC: i64 = 9223372036854775;

/// What `bcrypt::verify` gives for a password and a stored hash: whether they match,
/// or the displayed error when the hash cannot be read.
pub uninterp spec fn bcrypt_verify_outcome(password: Seq<char>, hash: Seq<char>) -> Result<bool, Seq<char>>;

/// Calls `bcrypt::hash`. Its salt is drawn from the operating system, so nothing is
/// said of which hash comes back; what the source shows of it is stated: with a cost in
/// 4..=31 the text is `$2b$`, the cost in two digits, `$`, then 53 characters of salt and
/// digest, and `bcrypt::verify` (which recomputes the digest from the salt and cost read
/// back from the hash) accepts the same password against it. A failure (the random
/// source) is passed on as its displayed text.
#[verifier::external_body]
fn bcrypt_hash(password: &str, cost: u32) -> (r: Result<String, String>)
    ensures
        4 <= cost <= 31 ==> (r matches Ok(h) ==> h@.len() == 60 && h@.take(4) == "$2b$"@ && h@.subrange(4, 6)
            == crate::scaffold::two_digits(cost as nat) && h@[6] == '$' && bcrypt_verify_outcome(password@, h@)
            == Ok::<bool, Seq<char>>(true)),
{
    match ::bcrypt::hash(password, cost) {
        Ok(h) => Ok(h),
        Err(e) => Err(format!("{}", e)),
    }
}

/// Calls `bcrypt::verify`: its result, and the displayed text of its error, are a
/// function of the password and the hash alone (the salt and cost are read from the
/// hash), named `bcrypt_verify_outcome`.
#[verifier::external_body]
fn bcrypt_verify(password: &str, hash: &str) -> (r: Result<bool, String>)
    ensures
        match r {
            Ok(b) => bcrypt_verify_outcome(password@, hash@) == Ok::<bool, Seq<char>>(b),
            Err(e) => bcrypt_verify_outcome(password@, hash@) == Err::<bool, Seq<char>>(e@),
        },
{
    match ::bcrypt::verify(password, hash) {
        Ok(b) => Ok(b),
        Err(e) => Err(format!("{}", e)),
    }
}

/// What a signed token carries: the user, their e-mail and role, and when the token
/// expires and was issued, in seconds since the epoch.
#[derive(Debug, Clone)]
pub struct Claims {
    pub sub: String,
    pub email: String,
    pub role: String,
    pub exp: i64,
    pub iat: i64,
}

/// What `jsonwebtoken::encode` gives, with the default header (HS256) and the key made
/// from the bytes of `secret`, for the claims written as a JSON object with the members
/// `sub`, `email`, `role`, `exp` and `iat`: the token, or the displayed error.
pub uninterp spec fn jwt_hs256(
    sub: Seq<char>,
    email: Seq<char>,
    role: Seq<char>,
    exp: int,
    iat: int,
    secret: Seq<char>,
) -> Result<Seq<char>, Seq<char>>;

/// Whether a token passes `jsonwebtoken`'s signature check under the key made from the
/// bytes of `secret` with the default validation: it has a header, a payload and a
/// signature, its header names HS256, and its signature is the HMAC-SHA256 of its first
/// two parts under that key.
pub uninterp spec fn jwt_signature_valid(token: Seq<char>, secret: Seq<char>) -> bool;

/// The payload of a token as `jsonwebtoken` reads it: its second part decoded from
/// base64url and read as a JSON document (`serde_json::Value`), in the library's form;
/// none where that fails.
pub uninterp spec fn jwt_payload(token: Seq<char>) -> Option<JsonView>;

/// The JSON object that a token signed by `jwt_encode` carries: the members as
/// `serde_json` writes an object, in the order of their names.
pub open spec fn claims_payload(sub: Seq<char>, email: Seq<char>, role: Seq<char>, exp: int, iat: int) -> JsonView {
    JsonView::Object(
        seq![
            ("email"@, JsonView::Str(email)),
            ("exp"@, JsonView::Number(signed_text(exp))),
            ("iat"@, JsonView::Number(signed_text(iat))),
            ("role"@, JsonView::Str(role)),
            ("sub"@, JsonView::Str(sub)),
        ],
    )
}

/// Calls `jsonwebtoken::encode` with the default header (`Header::default()`) and
/// `EncodingKey::from_secret`,
/// the claims converted member for member into a `serde_json` object. HMAC signing is a
/// function of the claims and the secret alone, named `jwt_hs256`. The token it gives
/// passes the signature check under the same secret, and its payload is the claims object
/// (`serde_json` keeps an object's members ordered by name and writes an `i64` as its
/// decimal text).
#[verifier::external_body]
fn jwt_encode(claims: &Claims, secret: &str) -> (r: Result<String, String>)
    ensures
        r matches Ok(t) ==> jwt_signature_valid(t@, secret@) && jwt_payload(t@) == Some(
            claims_payload(claims.sub@, claims.email@, claims.role@, claims.exp as int, claims.iat as int),
        ),
        match r {
            Ok(t) => jwt_hs256(claims.sub@, claims.email@, claims.role@, claims.exp as int, claims.iat as int, secret@)
                == Ok::<Seq<char>, Seq<char>>(t@),
            Err(e) => jwt_hs256(claims.sub@, claims.email@, claims.role@, claims.exp as int, claims.iat as int, secret@)
                == Err::<Seq<char>, Seq<char>>(e@),
        },
{
    let mut m = ::serde_json::Map::new();
    m.insert("sub".into(), claims.sub.clone().into());
    m.insert("email".into(), claims.email.clone().into());
    m.insert("role".into(), claims.role.clone().into());
    m.insert("exp".into(), claims.exp.into());
    m.insert("iat".into(), claims.iat.into());
    let key = ::jsonwebtoken::EncodingKey::from_secret(secret.as_bytes());
    match ::jsonwebtoken::encode(&Default::default(), &::serde_json::Value::Object(m), &key) {
        Ok(t) => Ok(t),
        Err(e) => Err(format!("{}", e)),
    }
}

/// Calls `jsonwebtoken::decode` with `DecodingKey::from_secret` and the default
/// validation, the claims read as a `serde_json` document and given in the library's form.
/// The validation also compares the expiry with the clock, so success is not stated; what
/// holds of every outcome is: a token that fails the signature check is refused, and
/// what comes back is the token's payload.
#[verifier::external_body]
fn jwt_decode(token: &str, secret: &str) -> (r: Result<JsonValue, String>)
    ensures
        r matches Ok(d) ==> jwt_signature_valid(token@, secret@) && jwt_payload(token@) == Some(json_view(d)),
        !jwt_signature_valid(token@, secret@) ==> r is Err,
{
    let key = ::jsonwebtoken::DecodingKey::from_secret(secret.as_bytes());
    match ::jsonwebtoken::decode::<::serde_json::Value>(token, &key, &::jsonwebtoken::Validation::default()) {
        Ok(data) => Ok(crate::json_scrub::json_from_serde(&data.claims)),
        Err(e) => Err(format!("{}", e)),
    }
}

/// The members of an object, as its view lists them.
pub open spec fn members_view(members: Seq<(String, JsonValue)>) -> Seq<(Seq<char>, JsonView)> {
    Seq::new(
        members.len(),
        |i: int|
            if 0 <= i < members.len() {
                (members[i].0@, json_view(members[i].1))
            } else {
                (Seq::empty(), JsonView::Null)
            },
    )
}

/// The value of the last member named `key`.
pub open spec fn member(members: Seq<(Seq<char>, JsonView)>, key: Seq<char>) -> Option<JsonView>
    decreases members.len(),
{
    if members.len() == 0 {
        None
    } else if members.last().0 == key {
        Some(members.last().1)
    } else {
        member(members.drop_last(), key)
    }
}

/// The text of member `key`, where it is a JSON string.
pub open spec fn text_member(members: Seq<(Seq<char>, JsonView)>, key: Seq<char>) -> Option<Seq<char>> {
    match member(members, key) {
        Some(JsonView::Str(t)) => Some(t),
        _ => None,
    }
}

/// The value of member `key`, where it is a JSON number that is an `i64`.
pub open spec fn int_member(members: Seq<(Seq<char>, JsonView)>, key: Seq<char>) -> Option<int> {
    match member(members, key) {
        Some(JsonView::Number(t)) => parse_i64_spec(t),
        _ => None,
    }
}

/// The claims that a token's JSON payload carries: an object whose `sub`, `email` and
/// `role` are strings and whose `exp` and `iat` are `i64` numbers; none otherwise.
pub open spec fn claims_of(doc: JsonView) -> Option<(Seq<char>, Seq<char>, Seq<char>, int, int)> {
    match doc {
        JsonView::Object(m) => match (
            text_member(m, "sub"@),
            text_member(m, "email"@),
            text_member(m, "role"@),
            int_member(m, "exp"@),
            int_member(m, "iat"@),
        ) {
            (Some(sub), Some(email), Some(role), Some(exp), Some(iat)) => Some((sub, email, role, exp, iat)),
            _ => None,
        },
        _ => None,
    }
}

/// The last member named `key`.
fn find_member<'a>(members: &'a Vec<(String, JsonValue)>, key: &str) -> (r: Option<&'a JsonValue>)
    ensures
        match r {
            Some(v) => member(members_view(members@), key@) == Some(json_view(*v)),
            None => member(members_view(members@), key@) is None,
        },
{
    let ghost mv = members_view(members@);
    let mut i = members.len();
    assert(mv.take(i as int) =~= mv);
    while i > 0
        invariant
            i <= members@.len(),
            mv == members_view(members@),
            member(mv, key@) == member(mv.take(i as int), key@),
        decreases i,
    {
        let ghost t = mv.take(i as int);
        assert(t.drop_last() =~= mv.take(i - 1));
        assert(t.last() == (members@[i - 1].0@, json_view(members@[i - 1].1)));
        if str_equal(members[i - 1].0.as_str(), key) {
            return Some(&members[i - 1].1);
        }
        i = i - 1;
    }
    None
}

/// The text of a JSON string.
fn as_text(v: Option<&JsonValue>) -> (r: Option<String>)
    ensures
        match v {
            Some(x) => match json_view(*x) {
                JsonView::Str(t) => r matches Some(s) && s@ == t,
                _ => r is None,
            },
            None => r is None,
        },
{
    match v {
        Some(JsonValue::Str(t)) => Some(t.clone()),
        _ => None,
    }
}

/// The value of a JSON number that is an `i64`.
fn as_int(v: Option<&JsonValue>) -> (r: Option<i64>)
    ensures
        match v {
            Some(x) => match json_view(*x) {
                JsonView::Number(t) => match r {
                    Some(k) => parse_i64_spec(t) == Some(k as int),
                    None => parse_i64_spec(t) is None,
                },
                _ => r is None,
            },
            None => r is None,
        },
{
    match v {
        Some(JsonValue::Number(t)) => parse_i64(t.as_str()),
        _ => None,
    }
}

/// Reads the claims of a token's payload.
pub fn claims_from_json(doc: &JsonValue) -> (r: Option<Claims>)
    ensures
        match r {
            Some(c) => claims_of(json_view(*doc)) == Some((c.sub@, c.email@, c.role@, c.exp as int, c.iat as int)),
            None => claims_of(json_view(*doc)) is None,
        },
{
    match doc {
        JsonValue::Object(members) => {
            proof {
                assert(members_view(members@) =~= json_view(*doc)->Object_0);
            }
            let sub = as_text(find_member(members, "sub"));
            let email = as_text(find_member(members, "email"));
            let role = as_text(find_member(members, "role"));
            let exp = as_int(find_member(members, "exp"));
            let iat = as_int(find_member(members, "iat"));
            match (sub, email, role, exp, iat) {
                (Some(sub), Some(email), Some(role), Some(exp), Some(iat)) => Some(Claims { sub, email, role, exp, iat }),
                _ => None,
            }
        },
        _ => None,
    }
}

/// Password hashing and token claims.
#[derive(Debug, Clone, Copy)]
pub struct AuthService;

/// An internal error whose message is `prefix` followed by `detail`.
fn internal_with(prefix: &str, detail: &str) -> (r: AppError)
    ensures
        r is Internal && error_message(r) == prefix@ + detail@,
{
    let mut s = prefix.to_string();
    s.append(detail);
    AppError::Internal(s)
}

impl AuthService {
    /// Hashes a password with bcrypt at cost 12: the hash names that cost and the same
    /// password verifies against it. A failure of the hashing (the random source) is an
    /// internal error `Falha ao criptografar senha: <cause>`.
    pub fn hash_password(password: &str) -> (r: Result<String, AppError>)
        ensures
            r matches Ok(h) ==> h@.len() == 60 && h@.take(4) == "$2b$"@ && h@.subrange(4, 6) == "12"@ && h@[6]
                == '$' && bcrypt_verify_outcome(password@, h@) == Ok::<bool, Seq<char>>(true),
            r matches Err(e) ==> e is Internal && "Falha ao criptografar senha: "@.is_prefix_of(error_message(e)),
    {
        match bcrypt_hash(password, BCRYPT_COST) {
            Ok(h) => {
                proof {
                    reveal_strlit("12");
                    assert(crate::numbers::decimal_text(12) =~= "12"@) by {
                        reveal_with_fuel(crate::numbers::decimal_text, 3);
                    }
                }
                Ok(h)
            },
            Err(cause) => {
                let e = internal_with("Falha ao criptografar senha: ", cause.as_str());
                proof {
                    reveal_strlit("Falha ao criptografar senha: ");
                    assert(("Falha ao criptografar senha: "@ + cause@).take(29) =~= "Falha ao criptografar senha: "@);
                }
                Err(e)
            },
        }
    }

    /// Checks a password against a stored bcrypt hash. A hash that cannot be read is an
    /// internal error `Falha ao verificar senha: <cause>`.
    pub fn verify_password(password: &str, hash: &str) -> (r: Result<bool, AppError>)
        ensures
            match bcrypt_verify_outcome(password@, hash@) {
                Ok(b) => r == Ok::<bool, AppError>(b),
                Err(cause) => r matches Err(e) && e is Internal && error_message(e)
                    == "Falha ao verificar senha: "@ + cause,
            },
    {
        match bcrypt_verify(password, hash) {
            Ok(b) => Ok(b),
            Err(cause) => Err(internal_with("Falha ao verificar senha: ", cause.as_str())),
        }
    }

    /// The claims of the access token and of the refresh token issued at `now` (seconds
    /// since the epoch): the access token lasts `expires_sec` seconds, the refresh token
    /// seven days. Every time involved must lie within the range of calendar dates that
    /// the clock arithmetic can represent, and the lifetime within the range of a duration.
    pub fn token_claims(user_id: &str, email: &str, role: &str, now: i64, expires_sec: i64) -> (r: (
        Claims,
        Claims,
    ))
        requires
            MIN_TIMESTAMP <= now <= MAX_TIMESTAMP,
            -MAX_TTL_SEC <= expires_sec <= MAX_TTL_SEC,
            MIN_TIMESTAMP <= now + expires_sec <= MAX_TIMESTAMP,
            now + REFRESH_TOKEN_TTL_SEC <= MAX_TIMESTAMP,
        ensures
            r.0.sub@ == user_id@ && r.0.email@ == email@ && r.0.role@ == role@,
            r.0.iat == now && r.0.exp == now + expires_sec,
            r.1.sub@ == user_id@ && r.1.email@ == email@ && r.1.role@ == role@,
            r.1.iat == now && r.1.exp == now + REFRESH_TOKEN_TTL_SEC,
    {
        let access = Claims {
            sub: user_id.to_string(),
            email: email.to_string(),
            role: role.to_string(),
            exp: now + expires_sec,
            iat: now,
        };
        let refresh = Claims {
            sub: user_id.to_string(),
            email: email.to_string(),
            role: role.to_string(),
            exp: now + REFRESH_TOKEN_TTL_SEC,
            iat: now,
        };
        (access, refresh)
    }

    /// Signs the access and the refresh token of a user issued at `now`, as
    /// `jsonwebtoken` does with the default header and `secret`: the access token lasts
    /// `expires_sec` seconds, the refresh token seven days. A signing failure is reported
    /// for the first token that fails.
    pub fn sign_tokens(user_id: &str, email: &str, role: &str, secret: &str, now: i64, expires_sec: i64) -> (r:
        Result<(String, String), AppError>)
        requires
            MIN_TIMESTAMP <= now <= MAX_TIMESTAMP,
            -MAX_TTL_SEC <= expires_sec <= MAX_TTL_SEC,
            MIN_TIMESTAMP <= now + expires_sec <= MAX_TIMESTAMP,
            now + REFRESH_TOKEN_TTL_SEC <= MAX_TIMESTAMP,
        ensures
            match jwt_hs256(user_id@, email@, role@, now + expires_sec, now as int, secret@) {
                Err(cause) => r matches Err(e) && e is Internal && error_message(e) == "Erro ao assinar JWT: "@ + cause,
                Ok(access) => match jwt_hs256(user_id@, email@, role@, now + REFRESH_TOKEN_TTL_SEC, now as int, secret@) {
                    Err(cause) => r matches Err(e) && e is Internal && error_message(e) == "Erro ao assinar Refresh JWT: "@
                        + cause,
                    Ok(refresh) => r matches Ok(p) && p.0@ == access && p.1@ == refresh,
                },
            },
            r matches Ok(p) ==> jwt_signature_valid(p.0@, secret@) && jwt_payload(p.0@) == Some(
                claims_payload(user_id@, email@, role@, now + expires_sec, now as int),
            ) && jwt_signature_valid(p.1@, secret@) && jwt_payload(p.1@) == Some(
                claims_payload(user_id@, email@, role@, now + REFRESH_TOKEN_TTL_SEC, now as int),
            ),
    {
        let (access, refresh) = AuthService::token_claims(user_id, email, role, now, expires_sec);
        let access_token = match jwt_encode(&access, secret) {
            Ok(t) => t,
            Err(cause) => return Err(AuthService::signing_error(false, cause.as_str())),
        };
        let refresh_token = match jwt_encode(&refresh, secret) {
            Ok(t) => t,
            Err(cause) => return Err(AuthService::signing_error(true, cause.as_str())),
        };
        Ok((access_token, refresh_token))
    }

    /// Checks a token's signature and expiry with `secret` and returns its claims. Any
    /// failure of the check is an unauthorized error with the check's own message; a
    /// payload that does not carry the claims is refused as well. Claims come back only
    /// from a token that passes the signature check, and they are its payload's claims.
    pub fn verify_token(token: &str, secret: &str) -> (r: Result<Claims, AppError>)
        ensures
            r matches Err(e) ==> e is Unauthorized,
            r matches Ok(c) ==> jwt_signature_valid(token@, secret@) && (jwt_payload(token@) matches Some(d) && claims_of(d)
                == Some((c.sub@, c.email@, c.role@, c.exp as int, c.iat as int))),
            !jwt_signature_valid(token@, secret@) ==> r is Err,
    {
        match jwt_decode(token, secret) {
            Err(cause) => Err(AppError::Unauthorized(cause)),
            Ok(doc) => match claims_from_json(&doc) {
                Some(c) => Ok(c),
                None => Err(AppError::Unauthorized(String::from_str("Claims do token inválidas"))),
            },
        }
    }

    /// The error when a token cannot be signed: `Erro ao assinar JWT: <cause>` for the
    /// access token, `Erro ao assinar Refresh JWT: <cause>` for the refresh token.
    pub fn signing_error(refresh: bool, cause: &str) -> (r: AppError)
        ensures
            !refresh ==> r is Internal && error_message(r) == "Erro ao assinar JWT: "@ + cause@,
            refresh ==> r is Internal && error_message(r) == "Erro ao assinar Refresh JWT: "@ + cause@,
    {
        if refresh {
            internal_with("Erro ao assinar Refresh JWT: ", cause)
        } else {
            internal_with("Erro ao assinar JWT: ", cause)
        }
    }
}

/// The user a request acts for, as its token names them.
#[derive(Debug, Clone)]
pub struct CurrentUser {
    pub id: String,
    pub email: String,
    pub role: String,
}

impl CurrentUser {
    /// The user named by the claims of a verified token.
    pub fn from_claims(claims: Claims) -> (r: CurrentUser)
        ensures
            r.id == claims.sub && r.email == claims.email && r.role == claims.role,
    {
        CurrentUser { id: claims.sub, email: claims.email, role: claims.role }
    }
}

/// The claims object that `jwt_encode` signs reads back as the claims it was made from:
/// the user, e-mail, role, expiry and issue time.
pub proof fn law_signed_claims_read_back(sub: Seq<char>, email: Seq<char>, role: Seq<char>, exp: i64, iat: i64)
    ensures
        claims_of(claims_payload(sub, email, role, exp as int, iat as int)) == Some(
            (sub, email, role, exp as int, iat as int),
        ),
{
    reveal_strlit("sub");
    reveal_strlit("email");
    reveal_strlit("role");
    reveal_strlit("exp");
    reveal_strlit("iat");
    crate::numbers::lemma_parse_signed_text(exp as int);
    crate::numbers::lemma_parse_signed_text(iat as int);
    let e = ("email"@, JsonView::Str(email));
    let x = ("exp"@, JsonView::Number(signed_text(exp as int)));
    let i = ("iat"@, JsonView::Number(signed_text(iat as int)));
    let r = ("role"@, JsonView::Str(role));
    let u = ("sub"@, JsonView::Str(sub));
    let m5 = claims_payload(sub, email, role, exp as int, iat as int)->Object_0;
    let m4 = seq![e, x, i, r];
    let m3 = seq![e, x, i];
    let m2 = seq![e, x];
    let m1 = seq![e];
    assert(m5 =~= seq![e, x, i, r, u]);
    assert(m5.drop_last() =~= m4);
    assert(m4.drop_last() =~= m3);
    assert(m3.drop_last() =~= m2);
    assert(m2.drop_last() =~= m1);
    assert("sub"@ != "email"@ && "sub"@ != "exp"@ && "sub"@ != "iat"@ && "sub"@ != "role"@) by {
        assert("sub"@[0] != "email"@[0] && "sub"@[0] != "exp"@[0] && "sub"@[0] != "iat"@[0] && "sub"@[0] != "role"@[0]);
    }
    assert("role"@ != "email"@ && "role"@ != "exp"@ && "role"@ != "iat"@) by {
        assert("role"@[0] != "email"@[0] && "role"@[0] != "exp"@[0] && "role"@[0] != "iat"@[0]);
    }
    assert("iat"@ != "email"@ && "iat"@ != "exp"@ && "exp"@ != "email"@) by {
        assert("iat"@[0] != "exp"@[0]);
        assert("exp"@[1] != "email"@[1]);
    }
    assert(member(m5, "sub"@) == Some(JsonView::Str(sub)));
    assert(member(m4, "role"@) == Some(JsonView::Str(role)));
    assert(member(m5, "role"@) == member(m4, "role"@));
    assert(member(m3, "iat"@) == Some(JsonView::Number(signed_text(iat as int))));
    assert(member(m4, "iat"@) == member(m3, "iat"@));
    assert(member(m5, "iat"@) == member(m4, "iat"@));
    assert(member(m2, "exp"@) == Some(JsonView::Number(signed_text(exp as int))));
    assert(member(m3, "exp"@) == member(m2, "exp"@));
    assert(member(m4, "exp"@) == member(m3, "exp"@));
    assert(member(m5, "exp"@) == member(m4, "exp"@));
    assert(member(m1, "email"@) == Some(JsonView::Str(email)));
    assert(member(m2, "email"@) == member(m1, "email"@));
    assert(member(m3, "email"@) == member(m2, "email"@));
    assert(member(m4, "email"@) == member(m3, "email"@));
    assert(member(m5, "email"@) == member(m4, "email"@));
}

/// Signing then verifying gives back the signed claims: when a token carries the payload
/// that `sign_tokens` states of its tokens, the claims that `verify_token` states of an
/// accepted token are the user, e-mail, role, expiry and issue time it was signed with.
pub proof fn law_verified_token_gives_signed_claims(
    token: Seq<char>,
    sub: Seq<char>,
    email: Seq<char>,
    role: Seq<char>,
    exp: i64,
    iat: i64,
    claims: (Seq<char>, Seq<char>, Seq<char>, int, int),
)
    requires
        jwt_payload(token) == Some(claims_payload(sub, email, role, exp as int, iat as int)),
        jwt_payload(token) matches Some(d) && claims_of(d) == Some(claims),
    ensures
        claims == (sub, email, role, exp as int, iat as int),
{
    law_signed_claims_read_back(sub, email, role, exp, iat);
}

} // verus!

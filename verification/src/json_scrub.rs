use vstd::prelude::*;
use crate::text::{contains, contains_spec, to_lowercase, trim, trim_spec, unicode_lowercase};

verus! {

/// A JSON document, with numbers kept as their text and object members in order.
#[derive(Debug)]
pub enum JsonValue {
    Null,
    Bool(bool),
    Number(String),
    Str(String),
    Array(Vec<JsonValue>),
    Object(Vec<(String, JsonValue)>),
}

/// The mathematical form of a JSON document.
pub ghost enum JsonView {
    Null,
    Bool(bool),
    Number(Seq<char>),
    Str(Seq<char>),
    Array(Seq<JsonView>),
    Object(Seq<(Seq<char>, JsonView)>),
}

/// The view of a JSON document.
pub open spec fn json_view(v: JsonValue) -> JsonView
    decreases v,
{
    match v {
        JsonValue::Null => JsonView::Null,
        JsonValue::Bool(b) => JsonView::Bool(b),
        JsonValue::Number(n) => JsonView::Number(n@),
        JsonValue::Str(s) => JsonView::Str(s@),
        JsonValue::Array(items) => JsonView::Array(
            Seq::new(
                items@.len(),
                |i: int|
                    if 0 <= i < items@.len() {
                        json_view(items@[i])
                    } else {
                        JsonView::Null
                    },
            ),
        ),
        JsonValue::Object(members) => JsonView::Object(
            Seq::new(
                members@.len(),
                |i: int|
                    if 0 <= i < members@.len() {
                        (members@[i].0@, json_view(members@[i].1))
                    } else {
                        (Seq::empty(), JsonView::Null)
                    },
            ),
        ),
    }
}

/// Whether a member name marks a secret: in lowercase it holds `password`, `token`,
/// `secret` or `senha`.
pub open spec fn is_sensitive_key(key: Seq<char>) -> bool {
    let k = unicode_lowercase(key);
    contains_spec(k, "password"@) || contains_spec(k, "token"@) || contains_spec(k, "secret"@)
        || contains_spec(k, "senha"@)
}

/// A document with the value of every member that marks a secret replaced by the text
/// `[SCRUBBED]`, at every depth; everything else as it was.
pub open spec fn scrubbed(v: JsonView) -> JsonView
    decreases v,
{
    match v {
        JsonView::Array(items) => JsonView::Array(
            Seq::new(
                items.len(),
                |i: int|
                    if 0 <= i < items.len() {
                        scrubbed(items[i])
                    } else {
                        JsonView::Null
                    },
            ),
        ),
        JsonView::Object(members) => JsonView::Object(
            Seq::new(
                members.len(),
                |i: int|
                    (
                        members[i].0,
                        if is_sensitive_key(members[i].0) || !(0 <= i < members.len()) {
                            JsonView::Str("[SCRUBBED]"@)
                        } else {
                            scrubbed(members[i].1)
                        },
                    ),
            ),
        ),
        _ => v,
    }
}

/// Whether a member name marks a secret.
pub fn is_sensitive(key: &str) -> (r: bool)
    ensures
        r == is_sensitive_key(key@),
{
    let k = to_lowercase(key);
    contains(k.as_str(), "password") || contains(k.as_str(), "token") || contains(k.as_str(), "secret")
        || contains(k.as_str(), "senha")
}

/// A copy of a document with its secrets replaced.
pub fn scrubbed_copy(v: &JsonValue) -> (r: JsonValue)
    ensures
        json_view(r) == scrubbed(json_view(*v)),
    decreases v,
{
    match v {
        JsonValue::Null => JsonValue::Null,
        JsonValue::Bool(b) => JsonValue::Bool(*b),
        JsonValue::Number(n) => JsonValue::Number(n.clone()),
        JsonValue::Str(s) => JsonValue::Str(s.clone()),
        JsonValue::Array(items) => {
            let n = items.len();
            let mut out: Vec<JsonValue> = Vec::new();
            let mut i: usize = 0;
            while i < n
                invariant
                    i <= n,
                    n == items@.len(),
                    *v == JsonValue::Array(*items),
                    out@.len() == i,
                    forall|k: int| 0 <= k < i ==> #[trigger] json_view(out@[k]) == scrubbed(json_view(items@[k])),
                decreases n - i,
            {
                proof {
                    assert(decreases_to!(items@ => items@[i as int]));
                    assert(decreases_to!(*items => items@));
                    assert(decreases_to!(*v => (*v)->Array_0));
                }
                let c = scrubbed_copy(&items[i]);
                out.push(c);
                i = i + 1;
            }
            let r = JsonValue::Array(out);
            proof {
                let iv = Seq::new(
                    items@.len(),
                    |k: int|
                        if 0 <= k < items@.len() {
                            json_view(items@[k])
                        } else {
                            JsonView::Null
                        },
                );
                assert(json_view(*v)->Array_0 =~= iv);
                let a = Seq::new(
                    out@.len(),
                    |k: int|
                        if 0 <= k < out@.len() {
                            json_view(out@[k])
                        } else {
                            JsonView::Null
                        },
                );
                assert(json_view(r)->Array_0 =~= a);
                let b = Seq::new(
                    iv.len(),
                    |k: int|
                        if 0 <= k < iv.len() {
                            scrubbed(iv[k])
                        } else {
                            JsonView::Null
                        },
                );
                assert(scrubbed(JsonView::Array(iv))->Array_0 =~= b);
                assert(a =~= b);
            }
            r
        },
        JsonValue::Object(members) => {
            let n = members.len();
            let mut out: Vec<(String, JsonValue)> = Vec::new();
            let mut i: usize = 0;
            while i < n
                invariant
                    i <= n,
                    n == members@.len(),
                    *v == JsonValue::Object(*members),
                    out@.len() == i,
                    forall|k: int| 0 <= k < i ==> #[trigger] out@[k].0@ == members@[k].0@,
                    forall|k: int| 0 <= k < i ==> #[trigger] json_view(out@[k].1) == (if is_sensitive_key(members@[k].0@) {
                        JsonView::Str("[SCRUBBED]"@)
                    } else {
                        scrubbed(json_view(members@[k].1))
                    }),
                decreases n - i,
            {
                let key = members[i].0.clone();
                let value = if is_sensitive(members[i].0.as_str()) {
                    JsonValue::Str(String::from_str("[SCRUBBED]"))
                } else {
                    proof {
                        assert(decreases_to!(members@ => members@[i as int]));
                        assert(decreases_to!(*members => members@));
                        assert(decreases_to!(members@[i as int] => members@[i as int].1));
                        assert(decreases_to!(*v => (*v)->Object_0));
                    }
                    scrubbed_copy(&members[i].1)
                };
                out.push((key, value));
                i = i + 1;
            }
            let r = JsonValue::Object(out);
            proof {
                let mv = Seq::new(
                    members@.len(),
                    |k: int|
                        if 0 <= k < members@.len() {
                            (members@[k].0@, json_view(members@[k].1))
                        } else {
                            (Seq::empty(), JsonView::Null)
                        },
                );
                assert(json_view(*v)->Object_0 =~= mv);
                let a = Seq::new(
                    out@.len(),
                    |k: int|
                        if 0 <= k < out@.len() {
                            (out@[k].0@, json_view(out@[k].1))
                        } else {
                            (Seq::empty(), JsonView::Null)
                        },
                );
                assert(json_view(r)->Object_0 =~= a);
                let b = Seq::new(
                    mv.len(),
                    |k: int|
                        (
                            mv[k].0,
                            if is_sensitive_key(mv[k].0) || !(0 <= k < mv.len()) {
                                JsonView::Str("[SCRUBBED]"@)
                            } else {
                                scrubbed(mv[k].1)
                            },
                        ),
                );
                assert(scrubbed(JsonView::Object(mv))->Object_0 =~= b);
                assert(a =~= b);
            }
            r
        },
    }
}

/// Replaces the secrets of a document in place.
pub fn scrub_json(val: &mut JsonValue)
    ensures
        json_view(*final(val)) == scrubbed(json_view(*old(val))),
{
    let c = scrubbed_copy(val);
    *val = c;
}

/// Whether a request body is blank: nothing but white space.
pub fn is_blank_body(raw: &str) -> (r: bool)
    ensures
        r == (trim_spec(raw@).len() == 0),
{
    let t = trim(raw);
    t.as_str().is_empty()
}

/// What an audit record keeps of a request body.
#[derive(Debug)]
pub enum ScrubbedBody {
    /// The body was blank: nothing is kept.
    Empty,
    /// The body was a JSON document: it is kept with its secrets replaced.
    Json(JsonValue),
    /// The body was not JSON: it is kept as it came.
    Raw(String),
}

/// What an audit record keeps of a request body, given the body and the document it
/// parses to (`None` where it is not JSON).
pub fn scrub_body(raw: &str, parsed: Option<JsonValue>) -> (r: ScrubbedBody)
    ensures
        trim_spec(raw@).len() == 0 ==> r is Empty,
        trim_spec(raw@).len() != 0 ==> match parsed {
            Some(doc) => r matches ScrubbedBody::Json(out) && json_view(out) == scrubbed(json_view(doc)),
            None => r matches ScrubbedBody::Raw(text) && text@ == raw@,
        },
{
    if is_blank_body(raw) {
        return ScrubbedBody::Empty;
    }
    match parsed {
        Some(mut doc) => {
            scrub_json(&mut doc);
            ScrubbedBody::Json(doc)
        },
        None => ScrubbedBody::Raw(raw.to_string()),
    }
}

/// serde_json's document type, carried through opaquely.
#[verifier::external_type_specification]
#[verifier::external_body]
pub struct ExSerdeJsonValue(::serde_json::Value);

/// What `serde_json::from_str` makes of a text as a `serde_json::Value`, in the library's
/// form: the document, or none where the text is not JSON.
pub uninterp spec fn serde_json_parse(raw: Seq<char>) -> Option<JsonView>;

/// What `serde_json::to_string` writes for a document in the library's form, made into a
/// `serde_json::Value` (numbers read back from their text): the text, or none where it
/// fails.
pub uninterp spec fn serde_json_text(v: JsonView) -> Option<Seq<char>>;

/// Converts serde_json's document into the library's form, variant for variant (numbers
/// as their displayed text, object members in the order serde_json keeps them); used by
/// `parse_json`, whose contract covers it.
#[verifier::external_body]
pub(crate) fn json_from_serde(v: &::serde_json::Value) -> JsonValue {
    match v {
        ::serde_json::Value::Null => JsonValue::Null,
        ::serde_json::Value::Bool(b) => JsonValue::Bool(*b),
        ::serde_json::Value::Number(n) => JsonValue::Number(n.to_string()),
        ::serde_json::Value::String(t) => JsonValue::Str(t.clone()),
        ::serde_json::Value::Array(items) => JsonValue::Array(items.iter().map(json_from_serde).collect()),
        ::serde_json::Value::Object(m) => JsonValue::Object(m.iter().map(|(k, x)| (k.clone(), json_from_serde(x))).collect()),
    }
}

/// Converts a document in the library's form into serde_json's, variant for variant (a
/// number's text read back with `serde_json::from_str`, null where that fails); used by
/// `json_text`, whose contract covers it.
#[verifier::external_body]
fn json_to_serde(v: &JsonValue) -> ::serde_json::Value {
    match v {
        JsonValue::Null => ::serde_json::Value::Null,
        JsonValue::Bool(b) => ::serde_json::Value::Bool(*b),
        JsonValue::Number(n) => ::serde_json::from_str(n).unwrap_or(::serde_json::Value::Null),
        JsonValue::Str(t) => ::serde_json::Value::String(t.clone()),
        JsonValue::Array(items) => ::serde_json::Value::Array(items.iter().map(json_to_serde).collect()),
        JsonValue::Object(m) => ::serde_json::Value::Object(m.iter().map(|(k, x)| (k.clone(), json_to_serde(x))).collect()),
    }
}

/// Calls `serde_json::from_str::<serde_json::Value>` and gives the document in the
/// library's form; the outcome is a function of the text, named `serde_json_parse`.
#[verifier::external_body]
fn parse_json(raw: &str) -> (r: Option<JsonValue>)
    ensures
        match r {
            Some(v) => serde_json_parse(raw@) == Some(json_view(v)),
            None => serde_json_parse(raw@) is None,
        },
{
    match ::serde_json::from_str::<::serde_json::Value>(raw) {
        Ok(v) => Some(json_from_serde(&v)),
        Err(_) => None,
    }
}

/// Calls `serde_json::to_string` on the document; the outcome is a function of the
/// document, named `serde_json_text`.
#[verifier::external_body]
fn json_text(v: &JsonValue) -> (r: Option<String>)
    ensures
        match r {
            Some(t) => serde_json_text(json_view(*v)) == Some(t@),
            None => serde_json_text(json_view(*v)) is None,
        },
{
    match ::serde_json::to_string(&json_to_serde(v)) {
        Ok(t) => Some(t),
        Err(_) => None,
    }
}

/// What an audit record keeps of a request body, as text: nothing for a blank body; for a
/// JSON body, the document with its secrets replaced, written out again (nothing where
/// writing fails); any other body as it came.
pub open spec fn scrub_body_text(raw: Seq<char>) -> Seq<char> {
    if trim_spec(raw).len() == 0 {
        ""@
    } else {
        match serde_json_parse(raw) {
            Some(doc) => match serde_json_text(scrubbed(doc)) {
                Some(t) => t,
                None => ""@,
            },
            None => raw,
        }
    }
}

/// The text that an audit record keeps of a request body.
pub fn scrub_body_str(raw: &str) -> (r: String)
    ensures
        r@ == scrub_body_text(raw@),
{
    proof {
        reveal_strlit("");
    }
    if is_blank_body(raw) {
        return String::new();
    }
    match scrub_body(raw, parse_json(raw)) {
        ScrubbedBody::Json(doc) => match json_text(&doc) {
            Some(t) => t,
            None => String::new(),
        },
        ScrubbedBody::Raw(t) => t,
        ScrubbedBody::Empty => String::new(),
    }
}

/// Scrubbing twice is scrubbing once.
pub proof fn law_scrub_idempotent(v: JsonView)
    ensures
        scrubbed(scrubbed(v)) == scrubbed(v),
    decreases v,
{
    match v {
        JsonView::Array(items) => {
            let once = scrubbed(v)->Array_0;
            assert(scrubbed(v) == JsonView::Array(once));
            assert(once.len() == items.len());
            assert forall|i: int| 0 <= i < items.len() implies #[trigger] scrubbed(once[i]) == once[i] by {
                law_scrub_idempotent(items[i]);
            }
            let twice = scrubbed(JsonView::Array(once))->Array_0;
            assert(twice.len() == once.len());
            assert forall|i: int| 0 <= i < once.len() implies #[trigger] twice[i] == once[i] by {
                assert(twice[i] == scrubbed(once[i]));
            }
            assert(twice =~= once);
        },
        JsonView::Object(members) => {
            let once = scrubbed(v)->Object_0;
            assert(once.len() == members.len());
            assert forall|i: int| 0 <= i < members.len() implies #[trigger] once[i].0 == members[i].0 && (
            if is_sensitive_key(once[i].0) {
                JsonView::Str("[SCRUBBED]"@)
            } else {
                scrubbed(once[i].1)
            }) == once[i].1 by {
                if !is_sensitive_key(members[i].0) {
                    law_scrub_idempotent(members[i].1);
                }
            }
            assert(scrubbed(scrubbed(v))->Object_0 =~= once);
        },
        _ => {},
    }
}

/// After scrubbing, every member of an object that marks a secret holds `[SCRUBBED]`, and
/// the member names and their order are unchanged.
pub proof fn law_secrets_masked(members: Seq<(Seq<char>, JsonView)>, i: int)
    requires
        0 <= i < members.len(),
    ensures
        scrubbed(JsonView::Object(members)) matches JsonView::Object(out) && out.len() == members.len()
            && out[i].0 == members[i].0 && (is_sensitive_key(members[i].0) ==> out[i].1 == JsonView::Str(
            "[SCRUBBED]"@,
        )),
{
}

} // verus!

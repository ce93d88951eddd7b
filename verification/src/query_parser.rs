use vstd::prelude::*;
use crate::errors::{AppError, error_message};
use crate::numbers::{parse_u64, parse_unsigned_spec, str_equal};
use crate::params::{Entry, QueryParams, lookup, distinct_keys};
use crate::text::{split, split_spec, trim, trim_spec, ends_with, ends_with_spec, substring};
use chrono::TimeZone;

verus! {

/// The format in which list queries give dates: `YYYY-MM-DD`.
pub const DATE_FORMAT: &'static str = "%Y-%m-%d";

/// What chrono gives for the text `text` read as a date with the format `format` and put
/// at `hour:minute:second` UTC on that day: the Unix timestamp in seconds, if both steps
/// succeed.
pub uninterp spec fn chrono_date_timestamp(
    text: Seq<char>,
    format: Seq<char>,
    hour: int,
    minute: int,
    second: int,
) -> Option<i64>;

/// Calls chrono's `NaiveDate::parse_from_str` with the format given, then
/// `NaiveDate::and_hms_opt` and `TimeZone::from_utc_datetime` for `Utc`, and returns the
/// timestamp. The result is the named result above; the claim beyond it is chrono's
/// documented one that `and_hms_opt` fails only on an hour, minute or second out of range,
/// so that for a valid time the text and format alone decide whether a timestamp comes back.
#[verifier::external_body]
fn date_utc_timestamp(text: &str, format: &str, hour: u32, minute: u32, second: u32) -> (r: Option<i64>)
    ensures
        r == chrono_date_timestamp(text@, format@, hour as int, minute as int, second as int),
        hour < 24 && minute < 60 && second < 60 ==> (r is Some <==> chrono_date_timestamp(text@, format@, 0, 0, 0) is Some),
{
    match chrono::NaiveDate::parse_from_str(text, format) {
        Ok(date) => match date.and_hms_opt(hour, minute, second) {
            Some(dt) => Some(chrono::Utc.from_utc_datetime(&dt).timestamp()),
            None => None,
        },
        Err(_) => None,
    }
}

/// The timestamp of a `YYYY-MM-DD` date at the start (`end_of_day` false) or at the last
/// second (`end_of_day` true) of the day.
pub open spec fn date_timestamp(text: Seq<char>, end_of_day: bool) -> Option<i64> {
    if end_of_day {
        chrono_date_timestamp(text, DATE_FORMAT@, 23, 59, 59)
    } else {
        chrono_date_timestamp(text, DATE_FORMAT@, 0, 0, 0)
    }
}

/// Reads a `YYYY-MM-DD` date as a UTC timestamp in seconds, at the start of the day or,
/// with `end_of_day`, at 23:59:59.
pub fn parse_date(val: &str, end_of_day: bool) -> (r: Result<i64, AppError>)
    ensures
        match r {
            Ok(t) => date_timestamp(val@, end_of_day) == Some(t),
            Err(e) => date_timestamp(val@, end_of_day) is None && e is BadRequest
                && error_message(e) == "Formato de data inválido. Use YYYY-MM-DD."@,
        },
        (r is Ok) == (chrono_date_timestamp(val@, DATE_FORMAT@, 0, 0, 0) is Some),
{
    let t = if end_of_day {
        date_utc_timestamp(val, DATE_FORMAT, 23, 59, 59)
    } else {
        date_utc_timestamp(val, DATE_FORMAT, 0, 0, 0)
    };
    match t {
        Some(ts) => Ok(ts),
        None => Err(AppError::BadRequest(String::from_str("Formato de data inválido. Use YYYY-MM-DD."))),
    }
}

/// `pre`, then `mid`, then `post`.
pub fn join3(pre: &str, mid: &str, post: &str) -> (r: String)
    ensures
        r@ == pre@ + mid@ + post@,
{
    let mut s = String::from_str(pre);
    s.append(mid);
    s.append(post);
    s
}

/// The view of a list of strings.
pub open spec fn strings_view(v: Seq<String>) -> Seq<Seq<char>> {
    v.map_values(|s: String| s@)
}

/// The view of an optional string.
pub open spec fn opt_view(o: Option<String>) -> Option<Seq<char>> {
    match o {
        Some(s) => Some(s@),
        None => None,
    }
}

/// Whether `f` is one of the names in `allowed`.
pub open spec fn allowed_has(allowed: Seq<&str>, f: Seq<char>) -> bool {
    exists|i: int| 0 <= i < allowed.len() && #[trigger] allowed[i]@ == f
}

/// Whether `f` is one of the names in `allowed`.
pub fn allowed_contains(allowed: &[&str], f: &str) -> (r: bool)
    ensures
        r == allowed_has(allowed@, f@),
{
    let n = allowed.len();
    let mut i: usize = 0;
    while i < n
        invariant
            i <= n,
            n == allowed@.len(),
            forall|k: int| 0 <= k < i ==> #[trigger] allowed@[k]@ != f@,
        decreases n - i,
    {
        if str_equal(allowed[i], f) {
            return true;
        }
        i = i + 1;
    }
    false
}

/// The parameters that drive paging, searching and ordering rather than filtering.
pub open spec fn is_reserved_key(k: Seq<char>) -> bool {
    ||| k == "page"@
    ||| k == "size"@
    ||| k == "searchWord"@
    ||| k == "searchFields"@
    ||| k == "orderBy"@
    ||| k == "orderDirection"@
    ||| k == "ignoreDefaultFilters"@
}

fn is_reserved(k: &str) -> (r: bool)
    ensures
        r == is_reserved_key(k@),
{
    str_equal(k, "page") || str_equal(k, "size") || str_equal(k, "searchWord") || str_equal(
        k,
        "searchFields",
    ) || str_equal(k, "orderBy") || str_equal(k, "orderDirection") || str_equal(
        k,
        "ignoreDefaultFilters",
    )
}

/// The field that a filter key names, and whether the key asks for a date bound:
/// `x_start` and `x_end` name the field `x`.
pub open spec fn strip_date_suffix(key: Seq<char>) -> (Seq<char>, bool) {
    if ends_with_spec(key, "_start"@) {
        (key.take(key.len() - 6), true)
    } else if ends_with_spec(key, "_end"@) {
        (key.take(key.len() - 4), true)
    } else {
        (key, false)
    }
}

fn date_suffix(key: &str) -> (r: (String, bool))
    ensures
        (r.0@, r.1) == strip_date_suffix(key@),
{
    let n = key.unicode_len();
    proof {
        reveal_strlit("_start");
        reveal_strlit("_end");
    }
    if ends_with(key, "_start") {
        (substring(key, 0, n - 6), true)
    } else if ends_with(key, "_end") {
        (substring(key, 0, n - 4), true)
    } else {
        (String::from_str(key), false)
    }
}

/// The value of `key` when it is present and not empty.
pub open spec fn nonempty_get(entries: Seq<Entry>, key: Seq<char>) -> Option<Seq<char>> {
    match lookup(entries, key) {
        Some(v) => if v.len() > 0 {
            Some(v)
        } else {
            None
        },
        None => None,
    }
}

fn get_nonempty(params: &QueryParams, key: &str) -> (r: Option<String>)
    ensures
        opt_view(r) == nonempty_get(params@, key@),
{
    match params.get(key) {
        Some(v) => if v.as_str().is_empty() {
            None
        } else {
            Some(v.clone())
        },
        None => None,
    }
}

/// The message for a search field that is not offered.
pub open spec fn search_field_message(t: Seq<char>) -> Seq<char> {
    "O campo '"@ + t + "' não está disponível para pesquisa global."@
}

/// The message for a filter that is not offered.
pub open spec fn filter_message(f: Seq<char>) -> Seq<char> {
    "O filtro '"@ + f + "' não é permitido para este recurso."@
}

/// The message for a date bound that is not a date.
pub open spec fn date_message(key: Seq<char>) -> Seq<char> {
    "Formato de '"@ + key + "' inválido. Use YYYY-MM-DD."@
}

/// The message for an ordering field that is not offered.
pub open spec fn order_message(f: Seq<char>) -> Seq<char> {
    "A ordenação pelo campo '"@ + f + "' não é permitida."@
}

/// The search fields that a list of comma-separated pieces names: each piece trimmed,
/// the empty ones left out.
pub open spec fn kept_search_fields(pieces: Seq<Seq<char>>) -> Seq<Seq<char>>
    decreases pieces.len(),
{
    if pieces.len() == 0 {
        Seq::empty()
    } else {
        let rest = kept_search_fields(pieces.drop_last());
        let t = trim_spec(pieces.last());
        if t.len() > 0 {
            rest.push(t)
        } else {
            rest
        }
    }
}

/// The message for the first piece that names a field not offered for search.
pub open spec fn search_fields_error(allowed: Seq<&str>, pieces: Seq<Seq<char>>) -> Option<Seq<char>>
    decreases pieces.len(),
{
    if pieces.len() == 0 {
        None
    } else {
        match search_fields_error(allowed, pieces.drop_last()) {
            Some(m) => Some(m),
            None => {
                let t = trim_spec(pieces.last());
                if t.len() > 0 && !allowed_has(allowed, t) {
                    Some(search_field_message(t))
                } else {
                    None
                }
            },
        }
    }
}

/// The message that one query parameter is refused with, if any.
pub open spec fn filter_entry_error(allowed: Seq<&str>, key: Seq<char>, val: Seq<char>) -> Option<Seq<char>> {
    if val.len() == 0 || is_reserved_key(key) {
        None
    } else {
        let (field, is_date) = strip_date_suffix(key);
        if !allowed_has(allowed, field) {
            Some(filter_message(field))
        } else if is_date && (field == "createdAt"@ || field == "updatedAt"@)
            && chrono_date_timestamp(val, DATE_FORMAT@, 0, 0, 0) is None {
            Some(date_message(key))
        } else {
            None
        }
    }
}

/// The message for the first query parameter, in order, that is refused.
pub open spec fn filters_error(allowed: Seq<&str>, entries: Seq<Entry>) -> Option<Seq<char>>
    decreases entries.len(),
{
    if entries.len() == 0 {
        None
    } else {
        match filters_error(allowed, entries.drop_last()) {
            Some(m) => Some(m),
            None => filter_entry_error(allowed, entries.last().0, entries.last().1),
        }
    }
}

/// The query parameters that act as filters: those with a value whose key is not reserved.
pub open spec fn kept_filters(entries: Seq<Entry>) -> Seq<Entry>
    decreases entries.len(),
{
    if entries.len() == 0 {
        Seq::empty()
    } else {
        let rest = kept_filters(entries.drop_last());
        let e = entries.last();
        if e.1.len() > 0 && !is_reserved_key(e.0) {
            rest.push(e)
        } else {
            rest
        }
    }
}

/// Every key of the kept filters is the key of some entry.
pub proof fn lemma_kept_filters_keys(entries: Seq<Entry>, k: Seq<char>)
    ensures
        lookup(kept_filters(entries), k) is Some ==> exists|j: int| 0 <= j < entries.len() && #[trigger] entries[j].0 == k,
    decreases entries.len(),
{
    if entries.len() > 0 {
        lemma_kept_filters_keys(entries.drop_last(), k);
        let rest = kept_filters(entries.drop_last());
        assert(rest.push(entries.last()).drop_last() =~= rest);
        if lookup(kept_filters(entries.drop_last()), k) is Some {
            let j = choose|j: int| 0 <= j < entries.drop_last().len() && #[trigger] entries.drop_last()[j].0 == k;
            assert(entries[j].0 == k);
        } else if entries.last().0 == k {
            assert(entries[entries.len() - 1].0 == k);
        }
    }
}

/// The value of a number parameter: its parsed value, or `default` when it is missing or
/// does not parse as a `u64`.
pub open spec fn number_or(entries: Seq<Entry>, key: Seq<char>, default: int) -> int {
    match lookup(entries, key) {
        Some(v) => match parse_unsigned_spec(v, u64::MAX as int) {
            Some(n) => n,
            None => default,
        },
        None => default,
    }
}

/// The parsed form of a query: paging, search, ordering and filters.
pub ghost struct FiltersView {
    pub page: int,
    pub size: int,
    pub search_word: Option<Seq<char>>,
    pub search_fields: Seq<Seq<char>>,
    pub order_by: Option<Seq<char>>,
    pub order_direction: Seq<char>,
    pub ignore_default_filters: bool,
    pub custom_filters: Seq<Entry>,
}

/// What validating a query gives: the parsed query, or the message of the first rule it
/// breaks. The rules are taken in this order: a search word needs search fields; every
/// search field must be offered; every filter, in parameter order, must be offered and a
/// date bound on `createdAt` or `updatedAt` must be a date; the ordering field must be
/// offered or be `created_at` or `updated_at`; the page size is at most 100. When
/// `active` is a filter that is offered, was not given, and default filters are not
/// ignored, the filter `active=true` is added.
pub open spec fn validation_outcome(
    params: Seq<Entry>,
    search_allowed: Seq<&str>,
    filter_allowed: Seq<&str>,
) -> Result<FiltersView, Seq<char>> {
    let word = nonempty_get(params, "searchWord"@);
    let fields = nonempty_get(params, "searchFields"@);
    if word is Some && fields is None {
        Err("O parâmetro \"searchFields\" é obrigatório quando \"searchWord\" é fornecido."@)
    } else {
        let pieces = match fields {
            Some(f) => split_spec(f, ','),
            None => Seq::empty(),
        };
        match search_fields_error(search_allowed, pieces) {
            Some(m) => Err(m),
            None => match filters_error(filter_allowed, params) {
                Some(m) => Err(m),
                None => {
                    let order_by = nonempty_get(params, "orderBy"@);
                    if order_by matches Some(ob) && !allowed_has(filter_allowed, ob) && ob
                        != "created_at"@ && ob != "updated_at"@ {
                        Err(order_message(order_by->0))
                    } else {
                        let size = number_or(params, "size"@, 25);
                        if size > 100 {
                            Err("O tamanho máximo da página é 100 itens."@)
                        } else {
                            let ignore = match lookup(params, "ignoreDefaultFilters"@) {
                                Some(v) => v == "true"@ || v == "1"@,
                                None => false,
                            };
                            let kept = kept_filters(params);
                            Ok(
                                FiltersView {
                                    page: number_or(params, "page"@, 0),
                                    size: size,
                                    search_word: word,
                                    search_fields: kept_search_fields(pieces),
                                    order_by: order_by,
                                    order_direction: match lookup(params, "orderDirection"@) {
                                        Some(d) => d,
                                        None => "asc"@,
                                    },
                                    ignore_default_filters: ignore,
                                    custom_filters: if allowed_has(filter_allowed, "active"@)
                                        && !ignore && lookup(kept, "active"@) is None {
                                        kept.push(("active"@, "true"@))
                                    } else {
                                        kept
                                    },
                                },
                            )
                        }
                    }
                },
            },
        }
    }
}


/// A validated query: paging, search, ordering and the filters to apply.
#[derive(Debug)]
pub struct ParsedFilters {
    pub page: u64,
    pub size: u64,
    pub search_word: Option<String>,
    pub search_fields: Vec<String>,
    pub order_by: Option<String>,
    pub order_direction: String,
    pub ignore_default_filters: bool,
    pub custom_filters: QueryParams,
}

impl View for ParsedFilters {
    type V = FiltersView;

    open spec fn view(&self) -> FiltersView {
        FiltersView {
            page: self.page as int,
            size: self.size as int,
            search_word: opt_view(self.search_word),
            search_fields: strings_view(self.search_fields@),
            order_by: opt_view(self.order_by),
            order_direction: self.order_direction@,
            ignore_default_filters: self.ignore_default_filters,
            custom_filters: self.custom_filters@,
        }
    }
}

/// A paginated list of items.
#[derive(Debug)]
pub struct PaginatedResponse<T> {
    pub items: Vec<T>,
    pub total: u64,
    pub page: u64,
    pub size: u64,
}

/// Reads the comma-separated search fields: each trimmed, empty ones skipped, each one
/// required to be offered.
fn parse_search_fields(allowed: &[&str], fields: &Option<String>) -> (r: Result<Vec<String>, AppError>)
    ensures
        ({
            let pieces = match opt_view(*fields) {
                Some(f) => split_spec(f, ','),
                None => Seq::empty(),
            };
            match r {
                Ok(v) => search_fields_error(allowed@, pieces) is None && strings_view(v@)
                    == kept_search_fields(pieces),
                Err(e) => e is BadRequest && search_fields_error(allowed@, pieces) is Some
                    && search_fields_error(allowed@, pieces)->0 == error_message(e),
            }
        }),
{
    let mut kept: Vec<String> = Vec::new();
    match fields {
        None => {
            assert(strings_view(kept@) =~= Seq::<Seq<char>>::empty());
            Ok(kept)
        },
        Some(f) => {
            let pieces = split(f.as_str(), ',');
            let ghost p = split_spec(f@, ',');
            assert(opt_view(*fields) == Some(f@));
            let n = pieces.len();
            let mut i: usize = 0;
            while i < n
                invariant
                    i <= n,
                    n == pieces@.len(),
                    n == p.len(),
                    opt_view(*fields) == Some(f@),
                    p == split_spec(f@, ','),
                    forall|k: int| 0 <= k < n ==> #[trigger] pieces@[k]@ == p[k],
                    search_fields_error(allowed@, p.take(i as int)) is None,
                    strings_view(kept@) == kept_search_fields(p.take(i as int)),
                decreases n - i,
            {
                let t = trim(pieces[i].as_str());
                assert(p.take(i + 1).drop_last() =~= p.take(i as int));
                assert(p.take(i + 1).last() == pieces@[i as int]@);
                if !t.as_str().is_empty() {
                    if !allowed_contains(allowed, t.as_str()) {
                        let msg = join3("O campo '", t.as_str(), "' não está disponível para pesquisa global.");
                        assert(search_fields_error(allowed@, p.take(i + 1)) == Some(msg@));
                        assert(p.take(n as int) =~= p);
                        proof {
                            lemma_search_error_prefix(allowed@, p, i + 1);
                        }
                        assert(search_fields_error(allowed@, p) == Some(msg@));
                        let e = AppError::BadRequest(msg);
                        assert(error_message(e) == msg@);
                        return Err(e);
                    }
                    let ghost before = kept@;
                    kept.push(t);
                    assert(strings_view(kept@) =~= strings_view(before).push(t@));
                }
                i = i + 1;
            }
            assert(p.take(n as int) =~= p);
            Ok(kept)
        },
    }
}

/// Once a prefix of the pieces has an error, the whole list has the same error.
proof fn lemma_search_error_prefix(allowed: Seq<&str>, p: Seq<Seq<char>>, k: int)
    requires
        0 <= k <= p.len(),
        search_fields_error(allowed, p.take(k)) is Some,
    ensures
        search_fields_error(allowed, p) == search_fields_error(allowed, p.take(k)),
    decreases p.len() - k,
{
    if k < p.len() {
        assert(p.take(k + 1).drop_last() =~= p.take(k));
        lemma_search_error_prefix(allowed, p, k + 1);
    } else {
        assert(p.take(k) =~= p);
    }
}

/// Once a prefix of the parameters has an error, the whole list has the same error.
proof fn lemma_filters_error_prefix(allowed: Seq<&str>, p: Seq<Entry>, k: int)
    requires
        0 <= k <= p.len(),
        filters_error(allowed, p.take(k)) is Some,
    ensures
        filters_error(allowed, p) == filters_error(allowed, p.take(k)),
    decreases p.len() - k,
{
    if k < p.len() {
        assert(p.take(k + 1).drop_last() =~= p.take(k));
        lemma_filters_error_prefix(allowed, p, k + 1);
    } else {
        assert(p.take(k) =~= p);
    }
}

/// Checks each filter parameter in order and collects those that act as filters.
fn collect_filters(params: &QueryParams, allowed: &[&str]) -> (r: Result<QueryParams, AppError>)
    ensures
        match r {
            Ok(c) => filters_error(allowed@, params@) is None && c@ == kept_filters(params@),
            Err(e) => e is BadRequest && filters_error(allowed@, params@) == Some(error_message(e)),
        },
{
    let n = params.len();
    let ghost p = params@;
    let mut custom = QueryParams::new();
    let mut i: usize = 0;
    while i < n
        invariant
            i <= n,
            n == p.len(),
            p == params@,
            distinct_keys(p),
            filters_error(allowed@, p.take(i as int)) is None,
            custom@ == kept_filters(p.take(i as int)),
        decreases n - i,
    {
        let (k, v) = params.entry(i);
        assert(p.take(i + 1).drop_last() =~= p.take(i as int));
        assert(p.take(i + 1).last() == p[i as int]);
        if !v.as_str().is_empty() && !is_reserved(k.as_str()) {
            let (field, is_date) = date_suffix(k.as_str());
            if !allowed_contains(allowed, field.as_str()) {
                let msg = join3("O filtro '", field.as_str(), "' não é permitido para este recurso.");
                proof {
                    lemma_filters_error_prefix(allowed@, p, i + 1);
                }
                return Err(AppError::BadRequest(msg));
            }
            if is_date && (str_equal(field.as_str(), "createdAt") || str_equal(field.as_str(), "updatedAt"))
                && parse_date(v.as_str(), false).is_err() {
                let msg = join3("Formato de '", k.as_str(), "' inválido. Use YYYY-MM-DD.");
                proof {
                    lemma_filters_error_prefix(allowed@, p, i + 1);
                }
                return Err(AppError::BadRequest(msg));
            }
            proof {
                lemma_kept_filters_keys(p.take(i as int), k@);
                if lookup(kept_filters(p.take(i as int)), k@) is Some {
                    let j = choose|j: int| 0 <= j < p.take(i as int).len() && #[trigger] p.take(i as int)[j].0 == k@;
                    assert(p[j].0 == p[i as int].0);
                }
            }
            let old_v = custom.insert(k.clone(), v.clone());
        }
        i = i + 1;
    }
    assert(p.take(n as int) =~= p);
    Ok(custom)
}

/// The validator for list queries.
pub struct QueryValidator;

impl QueryValidator {
    /// Validates a list query against the fields offered for search and for filtering,
    /// and parses it; the result and each refusal are those of `validation_outcome`, every
    /// refusal being a `BadRequest`.
    pub fn validate_and_parse(
        params: &QueryParams,
        allowed_search_fields: &[&str],
        allowed_filterable_fields: &[&str],
    ) -> (r: Result<ParsedFilters, AppError>)
        ensures
            match r {
                Ok(p) => validation_outcome(params@, allowed_search_fields@, allowed_filterable_fields@)
                    == Ok::<FiltersView, Seq<char>>(p@),
                Err(e) => e is BadRequest && validation_outcome(
                    params@,
                    allowed_search_fields@,
                    allowed_filterable_fields@,
                ) == Err::<FiltersView, Seq<char>>(error_message(e)),
            },
    {
        let search_word = get_nonempty(params, "searchWord");
        let search_fields_str = get_nonempty(params, "searchFields");
        if search_word.is_some() && search_fields_str.is_none() {
            return Err(
                AppError::BadRequest(
                    String::from_str(
                        "O parâmetro \"searchFields\" é obrigatório quando \"searchWord\" é fornecido.",
                    ),
                ),
            );
        }
        let search_fields = match parse_search_fields(allowed_search_fields, &search_fields_str) {
            Ok(v) => v,
            Err(e) => return Err(e),
        };
        let mut custom_filters = match collect_filters(params, allowed_filterable_fields) {
            Ok(c) => c,
            Err(e) => return Err(e),
        };
        let order_by = get_nonempty(params, "orderBy");
        if let Some(field) = &order_by {
            if !allowed_contains(allowed_filterable_fields, field.as_str()) && !str_equal(
                field.as_str(),
                "created_at",
            ) && !str_equal(field.as_str(), "updated_at") {
                return Err(
                    AppError::BadRequest(join3("A ordenação pelo campo '", field.as_str(), "' não é permitida.")),
                );
            }
        }
        let page = match params.get("page") {
            Some(p) => match parse_u64(p.as_str()) {
                Some(v) => v,
                None => 0,
            },
            None => 0,
        };
        let size = match params.get("size") {
            Some(p) => match parse_u64(p.as_str()) {
                Some(v) => v,
                None => 25,
            },
            None => 25,
        };
        if size > 100 {
            return Err(AppError::BadRequest(String::from_str("O tamanho máximo da página é 100 itens.")));
        }
        let order_direction = match params.get("orderDirection") {
            Some(d) => d.clone(),
            None => String::from_str("asc"),
        };
        let ignore_default_filters = match params.get("ignoreDefaultFilters") {
            Some(v) => str_equal(v.as_str(), "true") || str_equal(v.as_str(), "1"),
            None => false,
        };
        if allowed_contains(allowed_filterable_fields, "active") && !ignore_default_filters
            && !custom_filters.contains_key("active") {
            let _ = custom_filters.insert(String::from_str("active"), String::from_str("true"));
        }
        let r = ParsedFilters {
            page,
            size,
            search_word,
            search_fields,
            order_by,
            order_direction,
            ignore_default_filters,
            custom_filters,
        };
        Ok(r)
    }
}


/// The direction of an ordering.
#[derive(Debug, Clone, Copy, PartialEq, Eq, Structural)]
pub enum SortOrder {
    Asc,
    Desc,
}

/// How a list query is ordered: by the ordering definition at an index, or by the
/// default column.
#[derive(Debug, Clone, Copy, PartialEq, Eq, Structural)]
pub enum OrderPlan {
    Definition(usize, SortOrder),
    DefaultColumn(SortOrder),
}

/// The index of the first key equal to `k`.
pub open spec fn first_key_index(keys: Seq<&str>, k: Seq<char>) -> Option<int>
    decreases keys.len(),
{
    if keys.len() == 0 {
        None
    } else {
        match first_key_index(keys.drop_last(), k) {
            Some(i) => Some(i),
            None => if keys.last()@ == k {
                Some(keys.len() - 1)
            } else {
                None
            },
        }
    }
}

/// The filter definitions that apply, in the order of the definitions: each whose key
/// is among the filters, with the filter's value.
pub open spec fn filter_plan_spec(filters: Seq<Entry>, keys: Seq<&str>) -> Seq<(int, Seq<char>)>
    decreases keys.len(),
{
    if keys.len() == 0 {
        Seq::empty()
    } else {
        let rest = filter_plan_spec(filters, keys.drop_last());
        match lookup(filters, keys.last()@) {
            Some(v) => rest.push((keys.len() - 1, v)),
            None => rest,
        }
    }
}

/// The search definitions that a search uses: for each search field, in order, the first
/// definition with that key; fields without a definition are passed over.
pub open spec fn search_plan_spec(fields: Seq<Seq<char>>, keys: Seq<&str>) -> Seq<int>
    decreases fields.len(),
{
    if fields.len() == 0 {
        Seq::empty()
    } else {
        let rest = search_plan_spec(fields.drop_last(), keys);
        match first_key_index(keys, fields.last()) {
            Some(i) => rest.push(i),
            None => rest,
        }
    }
}

/// The ordering of a query: the direction is descending exactly when the requested
/// direction, in lowercase, is `desc`; with no ordering field the default column is used
/// in descending order; a field without a definition falls back to the default column.
pub open spec fn order_plan_spec(p: FiltersView, keys: Seq<&str>) -> OrderPlan {
    let dir = if crate::text::unicode_lowercase(p.order_direction) == "desc"@ {
        SortOrder::Desc
    } else {
        SortOrder::Asc
    };
    match p.order_by {
        Some(f) => match first_key_index(keys, f) {
            Some(i) => OrderPlan::Definition(i as usize, dir),
            None => OrderPlan::DefaultColumn(dir),
        },
        None => OrderPlan::DefaultColumn(SortOrder::Desc),
    }
}

/// The first index whose key is `k`.
pub fn find_key(keys: &[&str], k: &str) -> (r: Option<usize>)
    ensures
        match r {
            Some(i) => first_key_index(keys@, k@) == Some(i as int),
            None => first_key_index(keys@, k@) is None,
        },
{
    let n = keys.len();
    let mut i: usize = 0;
    while i < n
        invariant
            i <= n,
            n == keys@.len(),
            first_key_index(keys@.take(i as int), k@) is None,
        decreases n - i,
    {
        assert(keys@.take(i + 1).drop_last() =~= keys@.take(i as int));
        if str_equal(keys[i], k) {
            proof {
                lemma_first_key_prefix(keys@, k@, i + 1);
            }
            return Some(i);
        }
        i = i + 1;
    }
    assert(keys@.take(n as int) =~= keys@);
    None
}

proof fn lemma_first_key_prefix(keys: Seq<&str>, k: Seq<char>, j: int)
    requires
        0 <= j <= keys.len(),
        first_key_index(keys.take(j), k) is Some,
    ensures
        first_key_index(keys, k) == first_key_index(keys.take(j), k),
    decreases keys.len() - j,
{
    if j < keys.len() {
        assert(keys.take(j + 1).drop_last() =~= keys.take(j));
        lemma_first_key_prefix(keys, k, j + 1);
    } else {
        assert(keys.take(j) =~= keys);
    }
}

impl ParsedFilters {
    /// The filter definitions to apply, given their keys in order: the index of each
    /// definition whose key is among the parsed filters, with that filter's value.
    pub fn filter_plan(&self, def_keys: &[&str]) -> (r: Vec<(usize, String)>)
        ensures
            r@.len() == filter_plan_spec(self@.custom_filters, def_keys@).len(),
            forall|i: int| 0 <= i < r@.len() ==> (#[trigger] r@[i].0 as int, r@[i].1@)
                == filter_plan_spec(self@.custom_filters, def_keys@)[i],
    {
        let n = def_keys.len();
        let mut plan: Vec<(usize, String)> = Vec::new();
        let mut i: usize = 0;
        while i < n
            invariant
                i <= n,
                n == def_keys@.len(),
                plan@.len() == filter_plan_spec(self@.custom_filters, def_keys@.take(i as int)).len(),
                forall|j: int| 0 <= j < plan@.len() ==> (#[trigger] plan@[j].0 as int, plan@[j].1@)
                    == filter_plan_spec(self@.custom_filters, def_keys@.take(i as int))[j],
            decreases n - i,
        {
            assert(def_keys@.take(i + 1).drop_last() =~= def_keys@.take(i as int));
            match self.custom_filters.get(def_keys[i]) {
                Some(v) => {
                    plan.push((i, v.clone()));
                },
                None => {},
            }
            i = i + 1;
        }
        assert(def_keys@.take(n as int) =~= def_keys@);
        plan
    }

    /// The search to apply, given the keys of the search definitions: with a search word,
    /// the word and the definitions that the search fields select; without one, none.
    pub fn search_plan(&self, def_keys: &[&str]) -> (r: Option<(String, Vec<usize>)>)
        ensures
            match r {
                Some((w, idx)) => self@.search_word == Some(w@) && idx@.len() == search_plan_spec(
                    self@.search_fields,
                    def_keys@,
                ).len() && forall|i: int| 0 <= i < idx@.len() ==> #[trigger] idx@[i] as int
                    == search_plan_spec(self@.search_fields, def_keys@)[i],
                None => self@.search_word is None,
            },
    {
        match &self.search_word {
            None => None,
            Some(w) => {
                let n = self.search_fields.len();
                let ghost f = self@.search_fields;
                let mut idx: Vec<usize> = Vec::new();
                let mut i: usize = 0;
                while i < n
                    invariant
                        i <= n,
                        n == f.len(),
                        f == strings_view(self.search_fields@),
                        idx@.len() == search_plan_spec(f.take(i as int), def_keys@).len(),
                        forall|j: int| 0 <= j < idx@.len() ==> #[trigger] idx@[j] as int
                            == search_plan_spec(f.take(i as int), def_keys@)[j],
                    decreases n - i,
                {
                    assert(f.take(i + 1).drop_last() =~= f.take(i as int));
                    assert(f.take(i + 1).last() == self.search_fields@[i as int]@);
                    match find_key(def_keys, self.search_fields[i].as_str()) {
                        Some(k) => {
                            idx.push(k);
                        },
                        None => {},
                    }
                    i = i + 1;
                }
                assert(f.take(n as int) =~= f);
                Some((w.clone(), idx))
            },
        }
    }

    /// The ordering to apply, given the keys of the ordering definitions.
    pub fn order_plan(&self, def_keys: &[&str]) -> (r: OrderPlan)
        ensures
            r == order_plan_spec(self@, def_keys@),
    {
        let lowered = crate::text::to_lowercase(self.order_direction.as_str());
        let dir = if str_equal(lowered.as_str(), "desc") {
            SortOrder::Desc
        } else {
            SortOrder::Asc
        };
        match &self.order_by {
            Some(f) => match find_key(def_keys, f.as_str()) {
                Some(i) => OrderPlan::Definition(i, dir),
                None => OrderPlan::DefaultColumn(dir),
            },
            None => OrderPlan::DefaultColumn(SortOrder::Desc),
        }
    }

    /// The window of one page: at most `size` records, after skipping `page * size`.
    pub fn page_window(&self) -> (r: (u64, u64))
        requires
            self.page * self.size <= u64::MAX,
        ensures
            r.0 == self.size,
            r.1 == self.page * self.size,
    {
        (self.size, self.page * self.size)
    }
}

/// Whether fetching every page is done: once as many records as the count are in hand,
/// or once a page comes back short.
pub fn fetch_all_done(collected: usize, total: u64, last_page_len: usize, page_size: u64) -> (r: bool)
    ensures
        r == (collected as int >= total as int || (last_page_len as int) < page_size as int),
{
    collected as u64 >= total || (last_page_len as u64) < page_size
}

/// Looking a key up among one entry finds its value exactly when the key is the entry's.
proof fn lemma_lookup_one(k: Seq<char>, v: Seq<char>, key: Seq<char>)
    ensures
        lookup(seq![(k, v)], key) == (if key == k { Some(v) } else { None::<Seq<char>> }),
{
    let one: Seq<Entry> = seq![(k, v)];
    assert(one.drop_last() =~= Seq::<Entry>::empty());
    assert(one.last() == (k, v));
    assert(lookup(Seq::<Entry>::empty(), key) is None);
    assert(lookup(one, key) == (if one.last().0 == key { Some(one.last().1) } else { lookup(one.drop_last(), key) }));
}

/// The page size limit: a query that only sets `size` to a decimal number is accepted,
/// on the first page, ascending, with exactly that size, for every size up to and
/// including 100; any larger size is refused with the page-size message.
pub proof fn law_page_size_limit(n: nat, search_allowed: Seq<&str>, filter_allowed: Seq<&str>)
    requires
        n <= u64::MAX,
    ensures
        n <= 100 ==> (validation_outcome(seq![("size"@, crate::numbers::decimal_text(n))], search_allowed, filter_allowed)
            matches Ok(v) && v.size == n && v.page == 0 && v.order_direction == "asc"@),
        n > 100 ==> validation_outcome(seq![("size"@, crate::numbers::decimal_text(n))], search_allowed, filter_allowed)
            == Err::<FiltersView, Seq<char>>("O tamanho máximo da página é 100 itens."@),
{
    let d = crate::numbers::decimal_text(n);
    let params: Seq<Entry> = seq![("size"@, d)];
    crate::numbers::lemma_decimal_text_value(n);
    reveal_strlit("size");
    reveal_strlit("searchWord");
    reveal_strlit("searchFields");
    reveal_strlit("orderBy");
    reveal_strlit("page");
    reveal_strlit("orderDirection");
    reveal_strlit("ignoreDefaultFilters");
    assert(params.drop_last() =~= Seq::<Entry>::empty());
    assert("size"@ != "searchWord"@ && "size"@ != "searchFields"@ && "size"@ != "orderBy"@ && "size"@ != "page"@
        && "size"@ != "orderDirection"@ && "size"@ != "ignoreDefaultFilters"@) by {
        assert("size"@[1] != "searchWord"@[1] && "size"@[1] != "searchFields"@[1] && "size"@[0] != "orderBy"@[0]
            && "size"@[0] != "page"@[0] && "size"@[0] != "orderDirection"@[0] && "size"@[0]
            != "ignoreDefaultFilters"@[0]);
    }
    assert(crate::numbers::is_digit(d[0]));
    assert(d[0] != '+');
    assert(crate::numbers::unsigned_digits(d) == d);
    lemma_lookup_one("size"@, d, "size"@);
    lemma_lookup_one("size"@, d, "page"@);
    lemma_lookup_one("size"@, d, "orderDirection"@);
    lemma_lookup_one("size"@, d, "searchWord"@);
    lemma_lookup_one("size"@, d, "searchFields"@);
    lemma_lookup_one("size"@, d, "orderBy"@);
    lemma_lookup_one("size"@, d, "ignoreDefaultFilters"@);
    assert(number_or(params, "size"@, 25) == n);
    assert(filters_error(filter_allowed, params.drop_last()) is None);
    assert(is_reserved_key("size"@));
    assert(filters_error(filter_allowed, params) is None);
}

} // verus!

use vstd::prelude::*;
use crate::errors::{AppError, error_message};
use crate::numbers::str_equal;
use crate::params::QueryParams;
use crate::query_parser::{
    FiltersView, ParsedFilters, QueryValidator, allowed_has, strip_date_suffix, validation_outcome,
    strings_view,
};
use crate::text::{ends_with, substring};

verus! {

/// The fields that a list of filter keys offers: each key without a `_start` or `_end`
/// suffix, each field once, in the order of first appearance.
pub open spec fn base_filter_fields(keys: Seq<Seq<char>>) -> Seq<Seq<char>>
    decreases keys.len(),
{
    if keys.len() == 0 {
        Seq::empty()
    } else {
        let rest = base_filter_fields(keys.drop_last());
        let b = strip_date_suffix(keys.last()).0;
        if rest.contains(b) {
            rest
        } else {
            rest.push(b)
        }
    }
}

/// The view of a list of string slices.
pub open spec fn strs_view(v: Seq<&str>) -> Seq<Seq<char>> {
    v.map_values(|s: &str| s@)
}

/// Whether `v` holds a string equal to `s`.
fn vec_has(v: &Vec<String>, s: &str) -> (r: bool)
    ensures
        r == strings_view(v@).contains(s@),
{
    let n = v.len();
    let mut i: usize = 0;
    while i < n
        invariant
            i <= n,
            n == v@.len(),
            forall|k: int| 0 <= k < i ==> #[trigger] v@[k]@ != s@,
        decreases n - i,
    {
        if str_equal(v[i].as_str(), s) {
            assert(strings_view(v@)[i as int] == s@);
            return true;
        }
        i = i + 1;
    }
    assert forall|k: int| 0 <= k < strings_view(v@).len() implies strings_view(v@)[k] != s@ by {
        assert(v@[k]@ != s@);
    }
    false
}

/// The fields offered for filtering by a list of filter keys, as `base_filter_fields` gives them.
pub fn filterable_fields(filter_keys: &[&str]) -> (r: Vec<String>)
    ensures
        strings_view(r@) == base_filter_fields(strs_view(filter_keys@)),
{
    let n = filter_keys.len();
    let ghost keys = strs_view(filter_keys@);
    let mut fields: Vec<String> = Vec::new();
    let mut i: usize = 0;
    while i < n
        invariant
            i <= n,
            n == filter_keys@.len(),
            keys == strs_view(filter_keys@),
            strings_view(fields@) == base_filter_fields(keys.take(i as int)),
        decreases n - i,
    {
        let key = filter_keys[i];
        let m = key.unicode_len();
        assert(keys.take(i + 1).drop_last() =~= keys.take(i as int));
        assert(keys.take(i + 1).last() == key@);
        proof {
            reveal_strlit("_start");
            reveal_strlit("_end");
        }
        let base = if ends_with(key, "_start") {
            substring(key, 0, m - 6)
        } else if ends_with(key, "_end") {
            substring(key, 0, m - 4)
        } else {
            String::from_str(key)
        };
        if !vec_has(&fields, base.as_str()) {
            let ghost before = fields@;
            fields.push(base);
            assert(strings_view(fields@) =~= strings_view(before).push(base@));
        }
        i = i + 1;
    }
    assert(keys.take(n as int) =~= keys);
    fields
}

/// Borrows each string of `v` as a slice.
fn as_strs(v: &Vec<String>) -> (r: Vec<&str>)
    ensures
        strs_view(r@) == strings_view(v@),
{
    let n = v.len();
    let mut out: Vec<&str> = Vec::new();
    let mut i: usize = 0;
    while i < n
        invariant
            i <= n,
            n == v@.len(),
            out@.len() == i,
            forall|k: int| 0 <= k < i ==> #[trigger] out@[k]@ == v@[k]@,
        decreases n - i,
    {
        out.push(v[i].as_str());
        i = i + 1;
    }
    assert(strs_view(out@) =~= strings_view(v@));
    out
}

/// Validates a list query for an entity from the keys of its search and filter
/// definitions: the search fields are the search keys, the filterable fields are the
/// filter keys without their date suffixes.
pub fn validate_and_parse(params: &QueryParams, search_keys: &[&str], filter_keys: &[&str]) -> (r:
    Result<ParsedFilters, AppError>)
    ensures
        forall|fa: Seq<&str>| strs_view(fa) == base_filter_fields(strs_view(filter_keys@)) ==>
            #[trigger] validation_outcome(params@, search_keys@, fa) == match r {
                Ok(p) => Ok::<FiltersView, Seq<char>>(p@),
                Err(e) => Err::<FiltersView, Seq<char>>(crate::errors::error_message(e)),
            },
        r matches Err(e) ==> e is BadRequest,
{
    let fields = filterable_fields(filter_keys);
    let refs = as_strs(&fields);
    let r = QueryValidator::validate_and_parse(params, search_keys, refs.as_slice());
    proof {
        assert forall|fa: Seq<&str>| strs_view(fa) == base_filter_fields(strs_view(filter_keys@)) implies
            #[trigger] validation_outcome(params@, search_keys@, fa) == validation_outcome(params@, search_keys@, refs@) by {
            lemma_outcome_by_views(params@, search_keys@, fa, refs@);
        }
    }
    r
}

/// Validation depends on the offered fields only through their text.
proof fn lemma_outcome_by_views(params: Seq<crate::params::Entry>, sa: Seq<&str>, fa: Seq<&str>, fb: Seq<&str>)
    requires
        strs_view(fa) == strs_view(fb),
    ensures
        validation_outcome(params, sa, fa) == validation_outcome(params, sa, fb),
{
    assert(fa.len() == strs_view(fa).len());
    assert(fb.len() == strs_view(fb).len());
    assert forall|f: Seq<char>| allowed_has(fa, f) == allowed_has(fb, f) by {
        if allowed_has(fa, f) {
            let i = choose|i: int| 0 <= i < fa.len() && #[trigger] fa[i]@ == f;
            assert(strs_view(fa)[i] == f);
            assert(fb[i]@ == strs_view(fb)[i]);
        }
        if allowed_has(fb, f) {
            let i = choose|i: int| 0 <= i < fb.len() && #[trigger] fb[i]@ == f;
            assert(strs_view(fb)[i] == f);
            assert(fa[i]@ == strs_view(fa)[i]);
        }
    }
    lemma_filters_error_same(params, fa, fb);
}

proof fn lemma_filters_error_same(entries: Seq<crate::params::Entry>, fa: Seq<&str>, fb: Seq<&str>)
    requires
        forall|f: Seq<char>| allowed_has(fa, f) == allowed_has(fb, f),
    ensures
        crate::query_parser::filters_error(fa, entries) == crate::query_parser::filters_error(fb, entries),
    decreases entries.len(),
{
    if entries.len() > 0 {
        lemma_filters_error_same(entries.drop_last(), fa, fb);
    }
}


/// What an entity's record can be told to do before it is stored: take an id, be
/// switched on or off, be marked deleted, be filled in as new, be stamped as updated.
pub trait CrudActiveModel {
    fn set_id(&mut self, id: String);

    fn set_active(&mut self, active: bool);

    fn set_deleted(&mut self);

    fn init_new(&mut self);

    fn set_updated_at(&mut self);
}

/// How an entity is listed and how its write failures are told: its messages, and the
/// keys of its searches, filters and orderings.
#[derive(Debug)]
pub struct EntityRules {
    pub not_found: &'static str,
    pub create_conflict: &'static str,
    pub update_conflict: &'static str,
    pub search_keys: Vec<&'static str>,
    pub filter_keys: Vec<&'static str>,
    pub order_keys: Vec<&'static str>,
}

impl EntityRules {
    /// The error for a record that is not there.
    pub fn not_found_error(&self) -> (r: AppError)
        ensures
            r is NotFound && error_message(r) == self.not_found@,
    {
        AppError::NotFound(self.not_found.to_string())
    }

    /// The message for a creation refused by a unique constraint; the database's own
    /// message is not shown.
    pub fn create_conflict_error_message(&self, _db_msg: &str) -> (r: String)
        ensures
            r@ == self.create_conflict@,
    {
        self.create_conflict.to_string()
    }

    /// The message for an update refused by a unique constraint; the database's own
    /// message is not shown.
    pub fn update_conflict_error_message(&self, _db_msg: &str) -> (r: String)
        ensures
            r@ == self.update_conflict@,
    {
        self.update_conflict.to_string()
    }
}

/// The rules of products.
pub fn product_rules() -> (r: EntityRules)
    ensures
        r.not_found@ == "Produto não encontrado"@,
        r.create_conflict@ == "SKU já cadastrado no sistema"@,
        r.update_conflict@ == "SKU já está sendo utilizado por outro produto"@,
        strs_view(r.search_keys@) == seq!["name"@, "sku"@, "category"@],
        strs_view(r.filter_keys@) == seq![
            "name"@,
            "sku"@,
            "category"@,
            "active"@,
            "createdAt_start"@,
            "createdAt_end"@,
            "updatedAt_start"@,
            "updatedAt_end"@,
        ],
        strs_view(r.order_keys@) == seq!["name"@, "sku"@, "category"@, "createdAt"@],
{
    let r = EntityRules {
        not_found: "Produto não encontrado",
        create_conflict: "SKU já cadastrado no sistema",
        update_conflict: "SKU já está sendo utilizado por outro produto",
        search_keys: vec!["name", "sku", "category"],
        filter_keys: vec![
            "name",
            "sku",
            "category",
            "active",
            "createdAt_start",
            "createdAt_end",
            "updatedAt_start",
            "updatedAt_end",
        ],
        order_keys: vec!["name", "sku", "category", "createdAt"],
    };
    assert(strs_view(r.search_keys@) =~= seq!["name"@, "sku"@, "category"@]);
    assert(strs_view(r.filter_keys@) =~= seq![
        "name"@,
        "sku"@,
        "category"@,
        "active"@,
        "createdAt_start"@,
        "createdAt_end"@,
        "updatedAt_start"@,
        "updatedAt_end"@,
    ]);
    assert(strs_view(r.order_keys@) =~= seq!["name"@, "sku"@, "category"@, "createdAt"@]);
    r
}

/// The rules of roles.
pub fn role_rules() -> (r: EntityRules)
    ensures
        r.not_found@ == "Perfil não encontrado"@,
        r.create_conflict@ == "Perfil com ID ou nome correspondente já cadastrado"@,
        r.update_conflict@ == "Perfil com ID ou nome correspondente já cadastrado"@,
        strs_view(r.search_keys@) == seq!["name"@, "description"@],
        strs_view(r.filter_keys@) == seq![
            "name"@,
            "description"@,
            "active"@,
            "createdAt_start"@,
            "createdAt_end"@,
            "updatedAt_start"@,
            "updatedAt_end"@,
        ],
        strs_view(r.order_keys@) == seq!["name"@, "description"@, "createdAt"@],
{
    let r = EntityRules {
        not_found: "Perfil não encontrado",
        create_conflict: "Perfil com ID ou nome correspondente já cadastrado",
        update_conflict: "Perfil com ID ou nome correspondente já cadastrado",
        search_keys: vec!["name", "description"],
        filter_keys: vec![
            "name",
            "description",
            "active",
            "createdAt_start",
            "createdAt_end",
            "updatedAt_start",
            "updatedAt_end",
        ],
        order_keys: vec!["name", "description", "createdAt"],
    };
    assert(strs_view(r.search_keys@) =~= seq!["name"@, "description"@]);
    assert(strs_view(r.filter_keys@) =~= seq![
        "name"@,
        "description"@,
        "active"@,
        "createdAt_start"@,
        "createdAt_end"@,
        "updatedAt_start"@,
        "updatedAt_end"@,
    ]);
    assert(strs_view(r.order_keys@) =~= seq!["name"@, "description"@, "createdAt"@]);
    r
}

/// The rules of users.
pub fn user_rules() -> (r: EntityRules)
    ensures
        r.not_found@ == "Usuário não encontrado"@,
        r.create_conflict@ == "E-mail já cadastrado no sistema"@,
        r.update_conflict@ == "E-mail já está sendo utilizado por outro usuário"@,
        strs_view(r.search_keys@) == seq!["name"@, "email"@, "Role.name"@],
        strs_view(r.filter_keys@) == seq![
            "name"@,
            "email"@,
            "active"@,
            "Role.name"@,
            "createdAt_start"@,
            "createdAt_end"@,
            "updatedAt_start"@,
            "updatedAt_end"@,
        ],
        strs_view(r.order_keys@) == seq!["name"@, "email"@, "createdAt"@],
{
    let r = EntityRules {
        not_found: "Usuário não encontrado",
        create_conflict: "E-mail já cadastrado no sistema",
        update_conflict: "E-mail já está sendo utilizado por outro usuário",
        search_keys: vec!["name", "email", "Role.name"],
        filter_keys: vec![
            "name",
            "email",
            "active",
            "Role.name",
            "createdAt_start",
            "createdAt_end",
            "updatedAt_start",
            "updatedAt_end",
        ],
        order_keys: vec!["name", "email", "createdAt"],
    };
    assert(strs_view(r.search_keys@) =~= seq!["name"@, "email"@, "Role.name"@]);
    assert(strs_view(r.filter_keys@) =~= seq![
        "name"@,
        "email"@,
        "active"@,
        "Role.name"@,
        "createdAt_start"@,
        "createdAt_end"@,
        "updatedAt_start"@,
        "updatedAt_end"@,
    ]);
    assert(strs_view(r.order_keys@) =~= seq!["name"@, "email"@, "createdAt"@]);
    r
}

/// How a write to the database failed.
#[derive(Debug, Clone, Copy, PartialEq, Eq, Structural)]
pub enum WriteFailure {
    /// The record to change was not found.
    RecordNotFound,
    /// The change touched no record.
    RecordNotUpdated,
    /// A unique constraint refused the values.
    UniqueViolation,
    /// Anything else.
    Other,
}

/// The error an update, a status change or a soft delete reports for a failed write:
/// the entity's not-found error when no record was there, its update conflict on a
/// unique constraint; `None` when the database error is passed on as it is.
pub fn update_failure_error(failure: WriteFailure, rules: &EntityRules) -> (r: Option<AppError>)
    ensures
        (failure == WriteFailure::RecordNotFound || failure == WriteFailure::RecordNotUpdated) ==> (r matches Some(
            e,
        ) && e is NotFound && error_message(e) == rules.not_found@),
        failure == WriteFailure::UniqueViolation ==> (r matches Some(e) && e is Conflict && error_message(e)
            == rules.update_conflict@),
        failure == WriteFailure::Other ==> r is None,
{
    match failure {
        WriteFailure::RecordNotFound | WriteFailure::RecordNotUpdated => Some(rules.not_found_error()),
        WriteFailure::UniqueViolation => Some(AppError::Conflict(rules.update_conflict_error_message(""))),
        WriteFailure::Other => None,
    }
}

/// The error a creation reports for a failed write: the entity's creation conflict on a
/// unique constraint; `None` when the database error is passed on as it is.
pub fn create_failure_error(failure: WriteFailure, rules: &EntityRules) -> (r: Option<AppError>)
    ensures
        failure == WriteFailure::UniqueViolation ==> (r matches Some(e) && e is Conflict && error_message(e)
            == rules.create_conflict@),
        failure != WriteFailure::UniqueViolation ==> r is None,
{
    match failure {
        WriteFailure::UniqueViolation => Some(AppError::Conflict(rules.create_conflict_error_message(""))),
        _ => None,
    }
}

/// The size of each page when every matching record is fetched.
pub const FETCH_ALL_PAGE_SIZE: u64 = 100;

} // verus!

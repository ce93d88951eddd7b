use vstd::prelude::*;
use crate::errors::{AppError, error_message};
use crate::numbers::str_equal;

verus! {

/// The actions that a role's permission on a feature grants.
#[derive(Debug, Clone)]
pub struct RoleFeature {
    pub id_feature: String,
    pub create: bool,
    pub view: bool,
    pub activate: bool,
    pub delete: bool,
}

/// What the authorization reads of a user.
#[derive(Debug, Clone)]
pub struct UserRecord {
    pub id_role: String,
    pub active: bool,
}

/// What the authorization reads of a role.
#[derive(Debug, Clone)]
pub struct RoleRecord {
    pub id: String,
    pub active: bool,
}

/// The permission that a route requires: an action on a feature.
#[derive(Debug, Clone, Copy)]
pub struct RequirePermission {
    pub feature: &'static str,
    pub action: &'static str,
}

/// Whether a permission grants `action`; none for an action that is not one of
/// `create`, `view`, `activate` and `delete`.
pub open spec fn grants(p: RoleFeature, action: Seq<char>) -> Option<bool> {
    if action == "create"@ {
        Some(p.create)
    } else if action == "view"@ {
        Some(p.view)
    } else if action == "activate"@ {
        Some(p.activate)
    } else if action == "delete"@ {
        Some(p.delete)
    } else {
        None
    }
}

/// Whether the permissions of a role grant `action` on `feature`: the last permission on
/// the feature decides; an unknown action is never granted.
pub open spec fn requested_allowed(perms: Seq<RoleFeature>, feature: Seq<char>, action: Seq<char>) -> bool
    decreases perms.len(),
{
    if perms.len() == 0 {
        false
    } else {
        let prev = requested_allowed(perms.drop_last(), feature, action);
        let p = perms.last();
        if p.id_feature@ == feature {
            match grants(p, action) {
                Some(b) => b,
                None => prev,
            }
        } else {
            prev
        }
    }
}

/// `feature:action`.
pub open spec fn perm_text(feature: Seq<char>, action: Seq<char>) -> Seq<char> {
    feature + ":"@ + action
}

/// The entries `feature:action` for each action that one permission grants.
pub open spec fn entries_of(p: RoleFeature) -> Seq<Seq<char>> {
    let f = p.id_feature@;
    let a = if p.create { seq![perm_text(f, "create"@)] } else { Seq::empty() };
    let b = if p.view { a.push(perm_text(f, "view"@)) } else { a };
    let c = if p.activate { b.push(perm_text(f, "activate"@)) } else { b };
    if p.delete { c.push(perm_text(f, "delete"@)) } else { c }
}

/// The entries `feature:action` for every action that the permissions grant, in order.
pub open spec fn permission_entries(perms: Seq<RoleFeature>) -> Seq<Seq<char>>
    decreases perms.len(),
{
    if perms.len() == 0 {
        Seq::empty()
    } else {
        permission_entries(perms.drop_last()) + entries_of(perms.last())
    }
}

/// What is cached for a role: its permission entries, or `none:none` when it has none.
pub open spec fn cache_entries(perms: Seq<RoleFeature>) -> Seq<Seq<char>> {
    if permission_entries(perms).len() == 0 {
        seq!["none:none"@]
    } else {
        permission_entries(perms)
    }
}

/// The message that a missing permission is refused with.
pub open spec fn denied_message(feature: Seq<char>, action: Seq<char>) -> Seq<char> {
    "Sem permissão para executar a ação '"@ + action + "' na funcionalidade '"@ + feature + "'"@
}

/// The refusal of `action` on `feature`.
pub fn permission_denied(feature: &str, action: &str) -> (r: AppError)
    ensures
        r is Forbidden && error_message(r) == denied_message(feature@, action@),
{
    let mut s = String::from_str("Sem permissão para executar a ação '");
    s.append(action);
    s.append("' na funcionalidade '");
    s.append(feature);
    s.append("'");
    AppError::Forbidden(s)
}

/// The refusal of a request that reaches a permission check without an authenticated user.
pub fn unauthenticated_error() -> (r: AppError)
    ensures
        r is Unauthorized && error_message(r) == "Usuário não autenticado"@,
{
    AppError::Unauthorized(String::from_str("Usuário não autenticado"))
}

/// Whether a role is the administrator role, which is allowed everything.
pub fn is_admin_role(role_id: &str) -> (r: bool)
    ensures
        r == (role_id@ == "administrator"@),
{
    str_equal(role_id, "administrator")
}

/// The answer when the user's permissions are cached: allowed exactly when
/// `feature:action` is among them.
pub fn authorize_from_cache(is_member: bool, feature: &str, action: &str) -> (r: Result<(), AppError>)
    ensures
        r is Ok <==> is_member,
        r is Err ==> r->Err_0 is Forbidden && error_message(r->Err_0) == denied_message(feature@, action@),
{
    if is_member {
        Ok(())
    } else {
        Err(permission_denied(feature, action))
    }
}

/// The role of the user being authorized: a missing user is unauthorized, an inactive one
/// forbidden.
pub fn check_user(user: &Option<UserRecord>) -> (r: Result<String, AppError>)
    ensures
        match user {
            None => r is Err && r->Err_0 is Unauthorized && error_message(r->Err_0) == "Usuário não encontrado ou inativo"@,
            Some(u) => if u.active {
                r is Ok && r->Ok_0@ == u.id_role@
            } else {
                r is Err && r->Err_0 is Forbidden && error_message(r->Err_0) == "Usuário inativo no sistema"@
            },
        },
{
    match user {
        None => Err(AppError::Unauthorized(String::from_str("Usuário não encontrado ou inativo"))),
        Some(u) => if u.active {
            Ok(u.id_role.clone())
        } else {
            Err(AppError::Forbidden(String::from_str("Usuário inativo no sistema")))
        },
    }
}

/// Whether the user's role is the administrator role: a missing role is unauthorized, an
/// inactive one forbidden.
pub fn check_role(role: &Option<RoleRecord>) -> (r: Result<bool, AppError>)
    ensures
        match role {
            None => r is Err && r->Err_0 is Unauthorized && error_message(r->Err_0) == "Perfil não encontrado ou inativo"@,
            Some(ro) => if ro.active {
                r == Ok::<bool, AppError>(ro.id@ == "administrator"@)
            } else {
                r is Err && r->Err_0 is Forbidden && error_message(r->Err_0) == "Perfil de acesso inativo"@
            },
        },
{
    match role {
        None => Err(AppError::Unauthorized(String::from_str("Perfil não encontrado ou inativo"))),
        Some(ro) => if ro.active {
            Ok(is_admin_role(ro.id.as_str()))
        } else {
            Err(AppError::Forbidden(String::from_str("Perfil de acesso inativo")))
        },
    }
}

fn push_entry(v: &mut Vec<String>, feature: &str, action: &str)
    ensures
        final(v)@.len() == old(v)@.len() + 1,
        forall|i: int| 0 <= i < old(v)@.len() ==> #[trigger] final(v)@[i] == old(v)@[i],
        final(v)@[old(v)@.len() as int]@ == perm_text(feature@, action@),
{
    let s = crate::query_parser::join3(feature, ":", action);
    v.push(s);
}

/// The view of a list of strings.
pub open spec fn texts(v: Seq<String>) -> Seq<Seq<char>> {
    v.map_values(|s: String| s@)
}

/// The entries to cache for a role's permissions, as `cache_entries` gives them.
pub fn permission_cache_entries(perms: &Vec<RoleFeature>) -> (r: Vec<String>)
    ensures
        texts(r@) == cache_entries(perms@),
{
    let n = perms.len();
    let mut out: Vec<String> = Vec::new();
    let mut i: usize = 0;
    while i < n
        invariant
            i <= n,
            n == perms@.len(),
            texts(out@) == permission_entries(perms@.take(i as int)),
        decreases n - i,
    {
        let p = &perms[i];
        let ghost before = texts(out@);
        let f = p.id_feature.as_str();
        proof {
            reveal_strlit("create");
            reveal_strlit("view");
            reveal_strlit("activate");
            reveal_strlit("delete");
        }
        let ghost o0 = out@;
        if p.create {
            push_entry(&mut out, f, "create");
        }
        let ghost o1 = out@;
        if p.view {
            push_entry(&mut out, f, "view");
        }
        let ghost o2 = out@;
        if p.activate {
            push_entry(&mut out, f, "activate");
        }
        let ghost o3 = out@;
        if p.delete {
            push_entry(&mut out, f, "delete");
        }
        proof {
            let e = entries_of(perms@[i as int]);
            assert(perms@.take(i + 1).drop_last() =~= perms@.take(i as int));
            assert(perms@.take(i + 1).last() == perms@[i as int]);
            assert(texts(out@) =~= before + e) by {
                let fv = p.id_feature@;
                let a = if p.create { seq![perm_text(fv, "create"@)] } else { Seq::<Seq<char>>::empty() };
                let b = if p.view { a.push(perm_text(fv, "view"@)) } else { a };
                let c = if p.activate { b.push(perm_text(fv, "activate"@)) } else { b };
                assert(texts(o1) =~= before + a);
                assert(texts(o2) =~= before + b);
                assert(texts(o3) =~= before + c);
            }
        }
        i = i + 1;
    }
    assert(perms@.take(n as int) =~= perms@);
    if out.len() == 0 {
        let mut none: Vec<String> = Vec::new();
        none.push(String::from_str("none:none"));
        assert(texts(none@) =~= seq!["none:none"@]);
        none
    } else {
        out
    }
}

/// Whether the permissions grant `action` on `feature`, as `requested_allowed` gives it.
pub fn requested_permission_allowed(perms: &Vec<RoleFeature>, feature: &str, action: &str) -> (r: bool)
    ensures
        r == requested_allowed(perms@, feature@, action@),
{
    let n = perms.len();
    let mut allowed = false;
    let mut i: usize = 0;
    while i < n
        invariant
            i <= n,
            n == perms@.len(),
            allowed == requested_allowed(perms@.take(i as int), feature@, action@),
        decreases n - i,
    {
        let p = &perms[i];
        assert(perms@.take(i + 1).drop_last() =~= perms@.take(i as int));
        assert(perms@.take(i + 1).last() == perms@[i as int]);
        if str_equal(p.id_feature.as_str(), feature) {
            if str_equal(action, "create") {
                allowed = p.create;
            } else if str_equal(action, "view") {
                allowed = p.view;
            } else if str_equal(action, "activate") {
                allowed = p.activate;
            } else if str_equal(action, "delete") {
                allowed = p.delete;
            }
        }
        i = i + 1;
    }
    assert(perms@.take(n as int) =~= perms@);
    allowed
}

/// The answer from a role's permissions read from the database: what to cache, and
/// whether `action` on `feature` is allowed.
pub fn authorize_from_records(perms: &Vec<RoleFeature>, feature: &str, action: &str) -> (r: (Vec<String>, Result<(), AppError>))
    ensures
        texts(r.0@) == cache_entries(perms@),
        r.1 is Ok <==> requested_allowed(perms@, feature@, action@),
        r.1 is Err ==> r.1->Err_0 is Forbidden && error_message(r.1->Err_0) == denied_message(feature@, action@),
{
    let entries = permission_cache_entries(perms);
    if requested_permission_allowed(perms, feature, action) {
        (entries, Ok(()))
    } else {
        (entries, Err(permission_denied(feature, action)))
    }
}

/// What the authorization has learned so far from the cache and the database.
#[derive(Debug)]
pub enum AuthorizeEvent {
    /// Nothing yet.
    Start,
    /// Whether the user's permissions are cached.
    CacheKeyExists(bool),
    /// Whether `feature:action` is among the cached permissions.
    CachedMembership(bool),
    /// The user's record, if one was found.
    UserLoaded(Option<UserRecord>),
    /// The user's role id, and the role's record if one was found.
    RoleLoaded(String, Option<RoleRecord>),
    /// The permissions of the user's role.
    PermissionsLoaded(Vec<RoleFeature>),
}

/// What the authorization does next.
#[derive(Debug)]
pub enum AuthorizeAction {
    /// Ask the cache whether the user's permissions are cached.
    AskCacheKey,
    /// Ask the cache whether `feature:action` is among them.
    AskCacheMembership,
    /// Load the user.
    LoadUser,
    /// Load the role with this id.
    LoadRole(String),
    /// Load the permissions of the role with this id.
    LoadPermissions(String),
    /// Cache these entries for an hour, then answer.
    CacheThenAnswer(Vec<String>, Result<(), AppError>),
    /// Answer.
    Answer(Result<(), AppError>),
}

/// One step of authorizing `action` on `feature` for a user whose token names role
/// `role_id`: the administrator is allowed at once; cached permissions answer when present;
/// otherwise the user, then the role, then the role's permissions are read, refusing a
/// missing or inactive user or role, allowing an administrator role, and caching what
/// the permissions grant.
pub fn authorize_step(role_id: &str, feature: &str, action: &str, event: AuthorizeEvent) -> (r: AuthorizeAction)
    ensures
        match event {
            AuthorizeEvent::Start => if role_id@ == "administrator"@ {
                r matches AuthorizeAction::Answer(v) && v is Ok
            } else {
                r is AskCacheKey
            },
            AuthorizeEvent::CacheKeyExists(exists) => if exists {
                r is AskCacheMembership
            } else {
                r is LoadUser
            },
            AuthorizeEvent::CachedMembership(member) => r matches AuthorizeAction::Answer(v) && (v is Ok <==> member)
                && (v matches Err(e) ==> e is Forbidden && error_message(e) == denied_message(feature@, action@)),
            AuthorizeEvent::UserLoaded(user) => match user {
                None => r matches AuthorizeAction::Answer(v) && v matches Err(e) && e is Unauthorized && error_message(e)
                    == "Usuário não encontrado ou inativo"@,
                Some(u) => if u.active {
                    r matches AuthorizeAction::LoadRole(id) && id@ == u.id_role@
                } else {
                    r matches AuthorizeAction::Answer(v) && v matches Err(e) && e is Forbidden && error_message(e)
                        == "Usuário inativo no sistema"@
                },
            },
            AuthorizeEvent::RoleLoaded(user_role, role) => match role {
                None => r matches AuthorizeAction::Answer(v) && v matches Err(e) && e is Unauthorized && error_message(e)
                    == "Perfil não encontrado ou inativo"@,
                Some(ro) => if !ro.active {
                    r matches AuthorizeAction::Answer(v) && v matches Err(e) && e is Forbidden && error_message(e)
                        == "Perfil de acesso inativo"@
                } else if ro.id@ == "administrator"@ {
                    r matches AuthorizeAction::Answer(v) && v is Ok
                } else {
                    r matches AuthorizeAction::LoadPermissions(id) && id@ == user_role@
                },
            },
            AuthorizeEvent::PermissionsLoaded(perms) => r matches AuthorizeAction::CacheThenAnswer(entries, v)
                && texts(entries@) == cache_entries(perms@) && (v is Ok <==> requested_allowed(perms@, feature@, action@))
                && (v matches Err(e) ==> e is Forbidden && error_message(e) == denied_message(feature@, action@)),
        },
{
    match event {
        AuthorizeEvent::Start => {
            if is_admin_role(role_id) {
                AuthorizeAction::Answer(Ok(()))
            } else {
                AuthorizeAction::AskCacheKey
            }
        },
        AuthorizeEvent::CacheKeyExists(exists) => {
            if exists {
                AuthorizeAction::AskCacheMembership
            } else {
                AuthorizeAction::LoadUser
            }
        },
        AuthorizeEvent::CachedMembership(member) => AuthorizeAction::Answer(authorize_from_cache(member, feature, action)),
        AuthorizeEvent::UserLoaded(user) => match check_user(&user) {
            Ok(id_role) => AuthorizeAction::LoadRole(id_role),
            Err(e) => AuthorizeAction::Answer(Err(e)),
        },
        AuthorizeEvent::RoleLoaded(user_role, role) => match check_role(&role) {
            Ok(true) => AuthorizeAction::Answer(Ok(())),
            Ok(false) => AuthorizeAction::LoadPermissions(user_role),
            Err(e) => AuthorizeAction::Answer(Err(e)),
        },
        AuthorizeEvent::PermissionsLoaded(perms) => {
            let (entries, verdict) = authorize_from_records(&perms, feature, action);
            AuthorizeAction::CacheThenAnswer(entries, verdict)
        },
    }
}

/// No `:` in a text.
pub open spec fn colon_free(s: Seq<char>) -> bool {
    forall|i: int| 0 <= i < s.len() ==> s[i] != ':'
}

/// Two `feature:action` texts with colon-free actions are equal only when both parts are.
proof fn lemma_perm_text_injective_right(f: Seq<char>, a: Seq<char>, g: Seq<char>, b: Seq<char>)
    requires
        colon_free(a),
        colon_free(b),
        perm_text(f, a) == perm_text(g, b),
    ensures
        f == g,
        a == b,
{
    reveal_strlit(":");
    let s = perm_text(f, a);
    let n = s.len() as int;
    assert(s[n - 1 - a.len()] == ':');
    assert(s[n - 1 - b.len()] == ':');
    if a.len() < b.len() {
        assert(s[n - 1 - a.len()] == b[b.len() - 1 - a.len()]);
    } else if b.len() < a.len() {
        assert(s[n - 1 - b.len()] == a[a.len() - 1 - b.len()]);
    }
    assert(f =~= s.take(f.len() as int));
    assert(g =~= s.take(g.len() as int));
    assert(a =~= s.skip(f.len() as int + 1));
    assert(b =~= s.skip(g.len() as int + 1));
}

/// An action that a permission grants is one of the four, free of `:`.
proof fn lemma_granted_colon_free(p: RoleFeature, a: Seq<char>)
    requires
        grants(p, a) is Some,
    ensures
        colon_free(a),
{
    reveal_strlit("create");
    reveal_strlit("view");
    reveal_strlit("activate");
    reveal_strlit("delete");
}

/// The four actions are distinct texts.
proof fn lemma_actions_distinct()
    ensures
        "create"@ != "view"@,
        "create"@ != "activate"@,
        "create"@ != "delete"@,
        "view"@ != "activate"@,
        "view"@ != "delete"@,
        "activate"@ != "delete"@,
{
    reveal_strlit("create");
    reveal_strlit("view");
    reveal_strlit("activate");
    reveal_strlit("delete");
    assert("create"@[0] != "delete"@[0]);
    assert("create"@.len() != "view"@.len());
    assert("create"@.len() != "activate"@.len());
    assert("view"@.len() != "activate"@.len());
    assert("view"@.len() != "delete"@.len());
    assert("activate"@.len() != "delete"@.len());
}

/// The entries of one permission name its feature and an action that it grants.
proof fn lemma_entries_of_member(p: RoleFeature, x: Seq<char>)
    ensures
        entries_of(p).contains(x) <==> exists|a: Seq<char>| #[trigger] grants(p, a) == Some(true) && x
            == perm_text(p.id_feature@, a),
{
    lemma_actions_distinct();
    let f = p.id_feature@;
    let e = entries_of(p);
    let a0 = if p.create { seq![perm_text(f, "create"@)] } else { Seq::<Seq<char>>::empty() };
    let b0 = if p.view { a0.push(perm_text(f, "view"@)) } else { a0 };
    let c0 = if p.activate { b0.push(perm_text(f, "activate"@)) } else { b0 };
    assert(forall|k: int| 0 <= k < a0.len() ==> b0[k] == a0[k]);
    assert(forall|k: int| 0 <= k < b0.len() ==> c0[k] == b0[k]);
    assert(forall|k: int| 0 <= k < c0.len() ==> e[k] == c0[k]);
    if e.contains(x) {
        let k = choose|k: int| 0 <= k < e.len() && e[k] == x;
        if k < a0.len() {
            assert(grants(p, "create"@) == Some(true) && x == perm_text(f, "create"@));
        } else if k < b0.len() {
            assert(grants(p, "view"@) == Some(true) && x == perm_text(f, "view"@));
        } else if k < c0.len() {
            assert(grants(p, "activate"@) == Some(true) && x == perm_text(f, "activate"@));
        } else {
            assert(grants(p, "delete"@) == Some(true) && x == perm_text(f, "delete"@));
        }
    }
    if exists|a: Seq<char>| #[trigger] grants(p, a) == Some(true) && x == perm_text(f, a) {
        let a = choose|a: Seq<char>| #[trigger] grants(p, a) == Some(true) && x == perm_text(f, a);
        if a == "create"@ {
            assert(e[0] == x);
        } else if a == "view"@ {
            assert(e[a0.len() as int] == x);
        } else if a == "activate"@ {
            assert(e[b0.len() as int] == x);
        } else {
            assert(e[c0.len() as int] == x);
        }
    }
}

/// The permission rows name distinct features.
pub open spec fn features_distinct(perms: Seq<RoleFeature>) -> bool {
    forall|i: int, j: int| 0 <= i < j < perms.len() ==> perms[i].id_feature@ != perms[j].id_feature@
}

/// A permission entry is among the entries of the permissions exactly when some permission
/// grants it.
proof fn lemma_permission_entries_member(perms: Seq<RoleFeature>, x: Seq<char>)
    ensures
        permission_entries(perms).contains(x) <==> exists|i: int| 0 <= i < perms.len() && #[trigger] entries_of(perms[i]).contains(x),
    decreases perms.len(),
{
    if perms.len() > 0 {
        let rest = perms.drop_last();
        lemma_permission_entries_member(rest, x);
        let pe = permission_entries(rest);
        let e = entries_of(perms.last());
        if (pe + e).contains(x) {
            let k = choose|k: int| 0 <= k < (pe + e).len() && (pe + e)[k] == x;
            if k < pe.len() {
                assert(pe[k] == x);
                let i = choose|i: int| 0 <= i < rest.len() && #[trigger] entries_of(rest[i]).contains(x);
                assert(rest[i] == perms[i]);
            } else {
                assert(e[k - pe.len()] == x);
                assert(entries_of(perms[perms.len() - 1]).contains(x));
            }
        }
        if exists|i: int| 0 <= i < perms.len() && #[trigger] entries_of(perms[i]).contains(x) {
            let i = choose|i: int| 0 <= i < perms.len() && #[trigger] entries_of(perms[i]).contains(x);
            if i < perms.len() - 1 {
                assert(rest[i] == perms[i]);
                assert(entries_of(rest[i]).contains(x));
                let k = choose|k: int| 0 <= k < pe.len() && pe[k] == x;
                assert((pe + e)[k] == x);
            } else {
                let k = choose|k: int| 0 <= k < e.len() && e[k] == x;
                assert((pe + e)[pe.len() + k] == x);
            }
        }
    }
}

/// With distinct features, the decision of `requested_allowed` is that of the one
/// permission on the feature, if any.
proof fn lemma_requested_unique(perms: Seq<RoleFeature>, feature: Seq<char>, action: Seq<char>)
    requires
        features_distinct(perms),
    ensures
        requested_allowed(perms, feature, action) <==> exists|i: int| 0 <= i < perms.len() && perms[i].id_feature@
            == feature && #[trigger] grants(perms[i], action) == Some(true),
    decreases perms.len(),
{
    if perms.len() > 0 {
        let rest = perms.drop_last();
        assert(features_distinct(rest)) by {
            assert forall|i: int, j: int| 0 <= i < j < rest.len() implies rest[i].id_feature@ != rest[j].id_feature@ by {
                assert(rest[i] == perms[i] && rest[j] == perms[j]);
            }
        }
        lemma_requested_unique(rest, feature, action);
        let last = perms.len() - 1;
        if perms[last].id_feature@ == feature {
            assert forall|i: int| 0 <= i < rest.len() implies rest[i].id_feature@ != feature by {
                assert(rest[i] == perms[i]);
            }
            if exists|i: int| 0 <= i < perms.len() && perms[i].id_feature@ == feature && #[trigger] grants(perms[i], action) == Some(true) {
                let i = choose|i: int| 0 <= i < perms.len() && perms[i].id_feature@ == feature && #[trigger] grants(perms[i], action) == Some(true);
                if i < last {
                    assert(rest[i] == perms[i]);
                }
            }
            if !(grants(perms.last(), action) is Some) {
                assert(!requested_allowed(rest, feature, action)) by {
                    if requested_allowed(rest, feature, action) {
                        let i = choose|i: int| 0 <= i < rest.len() && rest[i].id_feature@ == feature && #[trigger] grants(rest[i], action) == Some(true);
                    }
                }
            }
        } else {
            if exists|i: int| 0 <= i < perms.len() && perms[i].id_feature@ == feature && #[trigger] grants(perms[i], action) == Some(true) {
                let i = choose|i: int| 0 <= i < perms.len() && perms[i].id_feature@ == feature && #[trigger] grants(perms[i], action) == Some(true);
                assert(rest[i] == perms[i]);
            }
            if exists|i: int| 0 <= i < rest.len() && rest[i].id_feature@ == feature && #[trigger] grants(rest[i], action) == Some(true) {
                let i = choose|i: int| 0 <= i < rest.len() && rest[i].id_feature@ == feature && #[trigger] grants(rest[i], action) == Some(true);
                assert(rest[i] == perms[i]);
            }
        }
    }
}

/// An answer read from the cached permissions agrees with one read from the database:
/// `feature:action` is cached exactly when the role's permissions grant `action` on
/// `feature`. It holds when the permission rows name distinct features and the requested
/// action is free of `:`, except for the request `none`/`none`, which the placeholder
/// cached for a role without permissions matches.
pub proof fn law_cache_agrees_with_database(perms: Seq<RoleFeature>, feature: Seq<char>, action: Seq<char>)
    requires
        features_distinct(perms),
        colon_free(action),
        !(feature == "none"@ && action == "none"@),
    ensures
        cache_entries(perms).contains(perm_text(feature, action)) <==> requested_allowed(perms, feature, action),
{
    let x = perm_text(feature, action);
    lemma_requested_unique(perms, feature, action);
    lemma_permission_entries_member(perms, x);
    if permission_entries(perms).contains(x) {
        let i = choose|i: int| 0 <= i < perms.len() && #[trigger] entries_of(perms[i]).contains(x);
        lemma_entries_of_member(perms[i], x);
        let a = choose|a: Seq<char>| #[trigger] grants(perms[i], a) == Some(true) && x == perm_text(perms[i].id_feature@, a);
        lemma_granted_colon_free(perms[i], a);
        lemma_perm_text_injective_right(feature, action, perms[i].id_feature@, a);
    }
    if requested_allowed(perms, feature, action) {
        let i = choose|i: int| 0 <= i < perms.len() && perms[i].id_feature@ == feature && #[trigger] grants(perms[i], action) == Some(true);
        lemma_entries_of_member(perms[i], x);
        assert(entries_of(perms[i]).contains(x));
    }
    if permission_entries(perms).len() == 0 {
        reveal_strlit("none:none");
        reveal_strlit("none");
        reveal_strlit(":");
        if seq!["none:none"@].contains(x) {
            assert(x == "none:none"@);
            assert(colon_free("none"@));
            assert(perm_text("none"@, "none"@) =~= "none:none"@);
            lemma_perm_text_injective_right(feature, action, "none"@, "none"@);
        }
        if requested_allowed(perms, feature, action) {
            let i = choose|i: int| 0 <= i < perms.len() && perms[i].id_feature@ == feature && #[trigger] grants(perms[i], action) == Some(true);
            lemma_entries_of_member(perms[i], x);
            assert(entries_of(perms[i]).contains(x));
            assert(permission_entries(perms).contains(x));
        }
    }
}

/// Each flag of a permission row decides its own action: on the row's feature, when it is
/// the last row for it, `create`, `view`, `activate` and `delete` are allowed exactly when
/// the row's flag of the same name is set; and for a role with that one row, the entry
/// `feature:action` is cached exactly then.
pub proof fn law_row_flags_decide(perms: Seq<RoleFeature>, p: RoleFeature)
    ensures
        requested_allowed(perms.push(p), p.id_feature@, "create"@) == p.create,
        requested_allowed(perms.push(p), p.id_feature@, "view"@) == p.view,
        requested_allowed(perms.push(p), p.id_feature@, "activate"@) == p.activate,
        requested_allowed(perms.push(p), p.id_feature@, "delete"@) == p.delete,
        cache_entries(seq![p]).contains(perm_text(p.id_feature@, "create"@)) == p.create,
        cache_entries(seq![p]).contains(perm_text(p.id_feature@, "view"@)) == p.view,
        cache_entries(seq![p]).contains(perm_text(p.id_feature@, "activate"@)) == p.activate,
        cache_entries(seq![p]).contains(perm_text(p.id_feature@, "delete"@)) == p.delete,
{
    lemma_actions_distinct();
    reveal_strlit("create");
    reveal_strlit("view");
    reveal_strlit("activate");
    reveal_strlit("delete");
    reveal_strlit("none");
    let f = p.id_feature@;
    let ps = perms.push(p);
    assert(ps.drop_last() =~= perms);
    assert(ps.last() == p);
    let one: Seq<RoleFeature> = seq![p];
    assert(one =~= Seq::<RoleFeature>::empty().push(p));
    assert(one.drop_last() =~= Seq::<RoleFeature>::empty());
    assert(features_distinct(one));
    assert("create"@.len() == 6 && "view"@.len() == 4 && "activate"@.len() == 8 && "delete"@.len() == 6);
    assert("none"@.len() == 4 && "view"@[0] != "none"@[0]);
    assert(colon_free("create"@));
    assert(colon_free("view"@));
    assert(colon_free("activate"@));
    assert(colon_free("delete"@));
    law_cache_agrees_with_database(one, f, "create"@);
    law_cache_agrees_with_database(one, f, "view"@);
    law_cache_agrees_with_database(one, f, "activate"@);
    law_cache_agrees_with_database(one, f, "delete"@);
}

} // verus!

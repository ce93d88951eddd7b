use vstd::prelude::*;
use crate::generator::{join, join_with};
use crate::scaffold::{texts, unlines};
use crate::text::{
    contains, contains_spec, lemma_contains_concat, lemma_contains_self, lemma_contains_trans, split, split_spec,
    starts_with, starts_with_spec, trim, trim_spec,
};
use crate::text_edit::{
    agree_at_start, lemma_replace_absent, lemma_replace_keeps, lemma_replace_present, replace, replace_spec,
};

verus! {

/// The cloud storage back ends that can be scaffolded.
#[derive(Debug, Clone, Copy, PartialEq, Eq, Structural)]
pub enum CloudProvider {
    S3,
    Gcs,
    Azure,
}

/// The provider at a position of the scaffolding menu: S3, GCS, Azure.
pub fn provider_from_menu(selection: usize) -> (r: Option<CloudProvider>)
    ensures
        selection == 0 ==> r == Some(CloudProvider::S3),
        selection == 1 ==> r == Some(CloudProvider::Gcs),
        selection == 2 ==> r == Some(CloudProvider::Azure),
        selection > 2 ==> r is None,
{
    if selection == 0 {
        Some(CloudProvider::S3)
    } else if selection == 1 {
        Some(CloudProvider::Gcs)
    } else if selection == 2 {
        Some(CloudProvider::Azure)
    } else {
        None
    }
}

/// What scaffolding one provider takes: its key, the service type, the template and the
/// file it is copied to, the dependencies, and the settings with their sample values.
#[derive(Debug)]
pub struct ProviderPlan {
    pub key: &'static str,
    pub service_name: &'static str,
    pub template_path: &'static str,
    pub dest_path: &'static str,
    pub dependencies: Vec<&'static str>,
    pub env_vars: Vec<(&'static str, &'static str)>,
}

/// The plan for scaffolding a provider.
pub fn provider_plan(p: CloudProvider) -> (r: ProviderPlan)
    ensures
        p == CloudProvider::S3 ==> r.key@ == "s3"@ && r.service_name@ == "S3StorageService"@
            && r.template_path@ == "templates/storage/s3.rs.tpl"@ && r.dest_path@ == "src/infra/storage/s3.rs"@
            && r.dependencies@.len() == 2 && r.env_vars@.len() == 3,
        p == CloudProvider::Gcs ==> r.key@ == "gcs"@ && r.service_name@ == "GcsStorageService"@
            && r.template_path@ == "templates/storage/gcs.rs.tpl"@ && r.dest_path@ == "src/infra/storage/gcs.rs"@
            && r.dependencies@.len() == 2 && r.env_vars@.len() == 2,
        p == CloudProvider::Azure ==> r.key@ == "azure"@ && r.service_name@ == "AzureStorageService"@
            && r.template_path@ == "templates/storage/azure.rs.tpl"@ && r.dest_path@
            == "src/infra/storage/azure.rs"@ && r.dependencies@.len() == 3 && r.env_vars@.len() == 2,
        forall|i: int| 0 <= i < r.dependencies@.len() ==> #[trigger] r.dependencies@[i]@.len() > 0,
{
    match p {
        CloudProvider::S3 => {
            let plan = ProviderPlan {
                key: "s3",
                service_name: "S3StorageService",
                template_path: "templates/storage/s3.rs.tpl",
                dest_path: "src/infra/storage/s3.rs",
                dependencies: vec!["aws-config = \"1.1.7\"", "aws-sdk-s3 = \"1.17.0\""],
                env_vars: vec![
                    ("AWS_ACCESS_KEY_ID", "dummy_access_key"),
                    ("AWS_SECRET_ACCESS_KEY", "dummy_secret_key"),
                    ("AWS_S3_BUCKET", "my-s3-bucket"),
                ],
            };
            proof {
                reveal_strlit("aws-config = \"1.1.7\"");
                reveal_strlit("aws-sdk-s3 = \"1.17.0\"");
            }
            plan
        },
        CloudProvider::Gcs => {
            let plan = ProviderPlan {
                key: "gcs",
                service_name: "GcsStorageService",
                template_path: "templates/storage/gcs.rs.tpl",
                dest_path: "src/infra/storage/gcs.rs",
                dependencies: vec!["google-cloud-storage = \"0.13.0\"", "google-cloud-token = \"0.1.2\""],
                env_vars: vec![("GOOGLE_APPLICATION_CREDENTIALS", ""), ("GCS_BUCKET", "my-gcs-bucket")],
            };
            proof {
                reveal_strlit("google-cloud-storage = \"0.13.0\"");
                reveal_strlit("google-cloud-token = \"0.1.2\"");
            }
            plan
        },
        CloudProvider::Azure => {
            let plan = ProviderPlan {
                key: "azure",
                service_name: "AzureStorageService",
                template_path: "templates/storage/azure.rs.tpl",
                dest_path: "src/infra/storage/azure.rs",
                dependencies: vec![
                    "azure_core = \"0.21.0\"",
                    "azure_storage = \"0.21.0\"",
                    "azure_storage_blobs = \"0.21.0\"",
                ],
                env_vars: vec![
                    ("AZURE_STORAGE_CONNECTION_STRING", "UseDevelopmentStorage=true"),
                    ("AZURE_STORAGE_CONTAINER", "my-azure-container"),
                ],
            };
            proof {
                reveal_strlit("azure_core = \"0.21.0\"");
                reveal_strlit("azure_storage = \"0.21.0\"");
                reveal_strlit("azure_storage_blobs = \"0.21.0\"");
            }
            plan
        },
    }
}

/// The name of a dependency line: the text before its first `=`, trimmed.
pub open spec fn dependency_name(dep: Seq<char>) -> Seq<char> {
    trim_spec(split_spec(dep, '=')[0])
}

/// The manifest with each dependency whose name it does not mention added right after the
/// `[dependencies]` header, in order.
pub open spec fn with_dependencies(content: Seq<char>, deps: Seq<Seq<char>>) -> Seq<char>
    decreases deps.len(),
{
    if deps.len() == 0 {
        content
    } else {
        let before = with_dependencies(content, deps.drop_last());
        if contains_spec(before, dependency_name(deps.last())) {
            before
        } else {
            replace_spec(before, "[dependencies]\n"@, "[dependencies]\n"@ + deps.last() + "\n"@)
        }
    }
}

/// Adds dependencies to a manifest: each one whose name is not mentioned yet goes right
/// after the `[dependencies]` header. A manifest without that header is refused.
pub fn add_dependencies(content: &str, deps: &Vec<&'static str>) -> (r: Result<String, String>)
    ensures
        !contains_spec(content@, "[dependencies]\n"@) ==> (r matches Err(m) && m@
            == "Could not find [dependencies] block in Cargo.toml"@),
        contains_spec(content@, "[dependencies]\n"@) ==> (r matches Ok(t) && t@ == with_dependencies(
            content@,
            deps@.map_values(|d: &str| d@),
        )),
{
    let target = "[dependencies]\n";
    if !contains(content, target) {
        return Err(String::from_str("Could not find [dependencies] block in Cargo.toml"));
    }
    proof {
        reveal_strlit("[dependencies]\n");
    }
    let ghost dv = deps@.map_values(|d: &str| d@);
    let mut out = content.to_string();
    let mut i: usize = 0;
    while i < deps.len()
        invariant
            dv == deps@.map_values(|d: &str| d@),
            i <= deps@.len(),
            out@ == with_dependencies(content@, dv.take(i as int)),
            target@ == "[dependencies]\n"@,
            target@.len() > 0,
        decreases deps@.len() - i,
    {
        proof {
            assert(dv.take(i + 1).drop_last() =~= dv.take(i as int));
            assert(dv.take(i + 1).last() == deps@[i as int]@);
        }
        let dep = deps[i];
        let parts = split(dep, '=');
        proof {
            crate::text::lemma_split_nonempty(dep@, '=');
        }
        let name = trim(parts[0].as_str());
        if !contains(out.as_str(), name.as_str()) {
            let mut replacement = target.to_string();
            replacement.append(dep);
            replacement.append("\n");
            out = replace(out.as_str(), target, replacement.as_str());
        }
        i = i + 1;
    }
    proof {
        assert(dv.take(deps@.len() as int) =~= dv);
    }
    Ok(out)
}

/// The storage index with a provider's module declared after `pub mod local;` and its
/// start-up arm placed before the generated-providers marker, each unless already there.
pub open spec fn register_provider_spec(content: Seq<char>, key: Seq<char>, service_name: Seq<char>) -> Seq<char> {
    let step1 = if contains_spec(content, "pub mod "@ + key + ";"@) {
        content
    } else {
        replace_spec(content, "pub mod local;"@, "pub mod local;\npub mod "@ + key + ";"@)
    };
    if contains_spec(step1, "\""@ + key + "\" =>"@) {
        step1
    } else {
        replace_spec(step1, "/* {{GENERATED_PROVIDERS}} */"@, provider_arm(key, service_name))
    }
}

/// The start-up arm of a provider, followed by the generated-providers marker.
pub open spec fn provider_arm(key: Seq<char>, service_name: Seq<char>) -> Seq<char> {
    "\""@ + key + "\" => {\n                info!(\"[Storage] Initializing "@ + service_name
        + "...\");\n                Arc::new("@ + key + "::"@ + service_name
        + "::new().await?)\n            }\n            /* {{GENERATED_PROVIDERS}} */"@
}

/// Registers a provider's module and start-up arm in the storage index.
pub fn register_provider_in_mod(content: &str, key: &str, service_name: &str) -> (r: String)
    ensures
        r@ == register_provider_spec(content@, key@, service_name@),
{
    proof {
        reveal_strlit("pub mod local;");
        reveal_strlit("/* {{GENERATED_PROVIDERS}} */");
    }
    let mut decl = String::from_str("pub mod ");
    decl.append(key);
    decl.append(";");
    let step1 = if !contains(content, decl.as_str()) {
        let mut rep = String::from_str("pub mod local;\npub mod ");
        rep.append(key);
        rep.append(";");
        replace(content, "pub mod local;", rep.as_str())
    } else {
        content.to_string()
    };
    let mut arm_head = String::from_str("\"");
    arm_head.append(key);
    arm_head.append("\" =>");
    if !contains(step1.as_str(), arm_head.as_str()) {
        let mut arm = String::from_str("\"");
        arm.append(key);
        arm.append("\" => {\n                info!(\"[Storage] Initializing ");
        arm.append(service_name);
        arm.append("...\");\n                Arc::new(");
        arm.append(key);
        arm.append("::");
        arm.append(service_name);
        arm.append("::new().await?)\n            }\n            /* {{GENERATED_PROVIDERS}} */");
        replace(step1.as_str(), "/* {{GENERATED_PROVIDERS}} */", arm.as_str())
    } else {
        step1
    }
}

/// A settings line with the storage provider set to `key`, other lines as they were.
pub open spec fn with_provider_line(line: Seq<char>, key: Seq<char>) -> Seq<char> {
    if starts_with_spec(line, "STORAGE_PROVIDER="@) {
        "STORAGE_PROVIDER="@ + key
    } else {
        line
    }
}

/// Whether some line starts with `prefix`.
pub open spec fn any_starts_with(ls: Seq<Seq<char>>, prefix: Seq<char>) -> bool {
    exists|i: int| 0 <= i < ls.len() && #[trigger] starts_with_spec(ls[i], prefix)
}

/// The settings lines with each missing variable appended with its value, in order.
pub open spec fn with_missing_vars(ls: Seq<Seq<char>>, vars: Seq<(Seq<char>, Seq<char>)>) -> Seq<Seq<char>>
    decreases vars.len(),
{
    if vars.len() == 0 {
        ls
    } else {
        let before = with_missing_vars(ls, vars.drop_last());
        let (k, v) = vars.last();
        if any_starts_with(before, k + "="@) {
            before
        } else {
            before.push(k + "="@ + v)
        }
    }
}

/// The settings lines pointed at a provider: every `STORAGE_PROVIDER=` line set to the
/// provider (one added when there is none), then each of the provider's variables that
/// is missing added with its sample value.
pub open spec fn env_lines(lines: Seq<Seq<char>>, key: Seq<char>, vars: Seq<(Seq<char>, Seq<char>)>) -> Seq<
    Seq<char>,
> {
    let set = lines.map_values(|l: Seq<char>| with_provider_line(l, key));
    let with_provider = if any_starts_with(lines, "STORAGE_PROVIDER="@) {
        set
    } else {
        set.push("STORAGE_PROVIDER="@ + key)
    };
    with_missing_vars(with_provider, vars)
}

/// The settings file pointed at a provider: its lines as `env_lines` gives them, joined
/// with a final line ending.
pub open spec fn update_env_spec(lines: Seq<Seq<char>>, key: Seq<char>, vars: Seq<(Seq<char>, Seq<char>)>) -> Seq<
    char,
> {
    unlines(env_lines(lines, key, vars))
}

/// Whether some line starts with `prefix`.
fn has_line_starting(ls: &Vec<String>, prefix: &str) -> (r: bool)
    ensures
        r == any_starts_with(texts(ls@), prefix@),
{
    let mut i: usize = 0;
    while i < ls.len()
        invariant
            i <= ls@.len(),
            forall|k: int| 0 <= k < i ==> !#[trigger] starts_with_spec(texts(ls@)[k], prefix@),
        decreases ls@.len() - i,
    {
        proof {
            assert(texts(ls@)[i as int] == ls@[i as int]@);
        }
        if starts_with(ls[i].as_str(), prefix) {
            return true;
        }
        i = i + 1;
    }
    false
}

/// Points the lines of a settings file at a provider and adds its missing variables.
pub fn update_env_lines(lines: &Vec<String>, key: &str, vars: &Vec<(&'static str, &'static str)>) -> (r: String)
    ensures
        r@ == update_env_spec(texts(lines@), key@, vars@.map_values(|p: (&str, &str)| (p.0@, p.1@))),
{
    let ghost lv = texts(lines@);
    let had_provider = has_line_starting(lines, "STORAGE_PROVIDER=");
    let mut out: Vec<String> = Vec::new();
    let mut i: usize = 0;
    while i < lines.len()
        invariant
            lv == texts(lines@),
            i <= lines@.len(),
            texts(out@) == lv.take(i as int).map_values(|l: Seq<char>| with_provider_line(l, key@)),
        decreases lines@.len() - i,
    {
        let line = if starts_with(lines[i].as_str(), "STORAGE_PROVIDER=") {
            let mut l = String::from_str("STORAGE_PROVIDER=");
            l.append(key);
            l
        } else {
            lines[i].clone()
        };
        proof {
            assert(lv[i as int] == lines@[i as int]@);
            crate::generator::lemma_map_push(out@, line, |s: String| s@);
            crate::generator::lemma_map_take_step(lv, i as int, |l: Seq<char>| with_provider_line(l, key@));
        }
        out.push(line);
        i = i + 1;
    }
    proof {
        assert(lv.take(lines@.len() as int) =~= lv);
    }
    if !had_provider {
        let mut l = String::from_str("STORAGE_PROVIDER=");
        l.append(key);
        proof {
            crate::generator::lemma_map_push(out@, l, |s: String| s@);
        }
        out.push(l);
    }
    let ghost base = texts(out@);
    let ghost vv = vars@.map_values(|p: (&str, &str)| (p.0@, p.1@));
    let mut j: usize = 0;
    while j < vars.len()
        invariant
            vv == vars@.map_values(|p: (&str, &str)| (p.0@, p.1@)),
            j <= vars@.len(),
            texts(out@) == with_missing_vars(base, vv.take(j as int)),
        decreases vars@.len() - j,
    {
        proof {
            assert(vv.take(j + 1).drop_last() =~= vv.take(j as int));
            assert(vv.take(j + 1).last() == (vars@[j as int].0@, vars@[j as int].1@));
        }
        let (k, v) = vars[j];
        let mut prefix = k.to_string();
        prefix.append("=");
        if !has_line_starting(&out, prefix.as_str()) {
            let mut l = prefix.clone();
            l.append(v);
            proof {
                crate::generator::lemma_map_push(out@, l, |s: String| s@);
            }
            out.push(l);
        }
        j = j + 1;
    }
    proof {
        assert(vv.take(vars@.len() as int) =~= vv);
    }
    let mut s = join(&out, "\n");
    s.append("\n");
    s
}

/// Whether a settings line that names the storage provider names `key`.
pub open spec fn names_provider(line: Seq<char>, key: Seq<char>) -> bool {
    starts_with_spec(line, "STORAGE_PROVIDER="@) ==> line == "STORAGE_PROVIDER="@ + key
}

/// Adding the missing variables keeps the lines there, adds only variable lines, and
/// leaves every variable's key present.
proof fn lemma_missing_vars_grow(ls: Seq<Seq<char>>, vars: Seq<(Seq<char>, Seq<char>)>, key: Seq<char>)
    ensures
        with_missing_vars(ls, vars).len() >= ls.len(),
        forall|i: int| 0 <= i < ls.len() ==> #[trigger] with_missing_vars(ls, vars)[i] == ls[i],
        forall|j: int| 0 <= j < vars.len() ==> any_starts_with(with_missing_vars(ls, vars), #[trigger] (vars[j].0 + "="@)),
        ((forall|i: int| 0 <= i < ls.len() ==> #[trigger] names_provider(ls[i], key)) && (forall|j: int|
            0 <= j < vars.len() ==> names_provider(#[trigger] (vars[j].0 + "="@ + vars[j].1), key))) ==> (forall|i: int|
            0 <= i < with_missing_vars(ls, vars).len() ==> #[trigger] names_provider(with_missing_vars(ls, vars)[i], key)),
    decreases vars.len(),
{
    if vars.len() > 0 {
        let pre = vars.drop_last();
        lemma_missing_vars_grow(ls, pre, key);
        let before = with_missing_vars(ls, pre);
        let (k, v) = vars.last();
        let r = with_missing_vars(ls, vars);
        assert forall|j: int| 0 <= j < vars.len() implies any_starts_with(r, #[trigger] (vars[j].0 + "="@)) by {
            if j < vars.len() - 1 {
                assert(pre[j] == vars[j]);
                let w = choose|i: int| 0 <= i < before.len() && #[trigger] starts_with_spec(before[i], pre[j].0 + "="@);
                assert(r[w] == before[w]);
            } else if !any_starts_with(before, k + "="@) {
                let line = k + "="@ + v;
                assert(line.take((k + "="@).len() as int) =~= k + "="@);
                assert(starts_with_spec(r[before.len() as int], k + "="@));
            }
        }
        if (forall|i: int| 0 <= i < ls.len() ==> #[trigger] names_provider(ls[i], key)) && (forall|j: int|
            0 <= j < vars.len() ==> names_provider(#[trigger] (vars[j].0 + "="@ + vars[j].1), key)) {
            assert forall|j: int| 0 <= j < pre.len() implies names_provider(#[trigger] (pre[j].0 + "="@ + pre[j].1), key) by {
                assert(pre[j] == vars[j]);
            }
            assert(names_provider(vars[vars.len() - 1].0 + "="@ + vars[vars.len() - 1].1, key));
        }
    }
}

/// Variables whose keys are all present already add nothing.
proof fn lemma_missing_vars_none(ls: Seq<Seq<char>>, vars: Seq<(Seq<char>, Seq<char>)>)
    requires
        forall|j: int| 0 <= j < vars.len() ==> any_starts_with(ls, #[trigger] (vars[j].0 + "="@)),
    ensures
        with_missing_vars(ls, vars) == ls,
    decreases vars.len(),
{
    if vars.len() > 0 {
        let pre = vars.drop_last();
        assert forall|j: int| 0 <= j < pre.len() implies any_starts_with(ls, #[trigger] (pre[j].0 + "="@)) by {
            assert(pre[j] == vars[j]);
        }
        lemma_missing_vars_none(ls, pre);
        assert(any_starts_with(ls, vars[vars.len() - 1].0 + "="@));
    }
}

/// Pointing the settings at a provider twice gives the lines that pointing them once
/// gives, where no variable's line itself names the storage provider.
pub proof fn law_update_env_idempotent(lines: Seq<Seq<char>>, key: Seq<char>, vars: Seq<(Seq<char>, Seq<char>)>)
    requires
        forall|j: int| 0 <= j < vars.len() ==> !starts_with_spec(#[trigger] (vars[j].0 + "="@ + vars[j].1), "STORAGE_PROVIDER="@),
    ensures
        env_lines(env_lines(lines, key, vars), key, vars) == env_lines(lines, key, vars),
{
    let prov = "STORAGE_PROVIDER="@;
    let set = lines.map_values(|l: Seq<char>| with_provider_line(l, key));
    let with_provider = if any_starts_with(lines, prov) {
        set
    } else {
        set.push(prov + key)
    };
    let once = env_lines(lines, key, vars);
    assert(prov + key =~= (prov + key).take(prov.len() as int) + (prov + key).skip(prov.len() as int));
    assert((prov + key).take(prov.len() as int) =~= prov);
    assert(starts_with_spec(prov + key, prov));
    assert forall|i: int| 0 <= i < with_provider.len() implies #[trigger] names_provider(with_provider[i], key) by {
        if i < set.len() {
            assert(set[i] == with_provider_line(lines[i], key));
        }
    }
    assert forall|j: int| 0 <= j < vars.len() implies names_provider(#[trigger] (vars[j].0 + "="@ + vars[j].1), key) by {}
    lemma_missing_vars_grow(with_provider, vars, key);
    let set2 = once.map_values(|l: Seq<char>| with_provider_line(l, key));
    assert(set2 =~= once) by {
        assert forall|i: int| 0 <= i < once.len() implies set2[i] == once[i] by {
            assert(names_provider(once[i], key));
        }
    }
    assert(any_starts_with(once, prov)) by {
        if any_starts_with(lines, prov) {
            let w = choose|i: int| 0 <= i < lines.len() && #[trigger] starts_with_spec(lines[i], prov);
            assert(with_provider[w] == prov + key);
            assert(once[w] == with_provider[w]);
        } else {
            assert(once[set.len() as int] == prov + key);
        }
    }
    lemma_missing_vars_none(once, vars);
}

/// The start-up marker replacement keeps a provider's module declaration: the marker
/// cannot overlap it.
proof fn lemma_marker_keeps_decl(t: Seq<char>, key: Seq<char>, rep: Seq<char>)
    requires
        contains_spec(t, "pub mod "@ + key + ";"@),
        !contains_spec(key, "/* {{GENERATED_PROVIDERS}} */"@),
    ensures
        contains_spec(replace_spec(t, "/* {{GENERATED_PROVIDERS}} */"@, rep), "pub mod "@ + key + ";"@),
{
    reveal_strlit("pub mod ");
    reveal_strlit(";");
    reveal_strlit("/* {{GENERATED_PROVIDERS}} */");
    let m = "/* {{GENERATED_PROVIDERS}} */"@;
    let x = "pub mod "@ + key + ";"@;
    assert(x[0] == 'p');
    assert(x[x.len() - 1] == ';');
    assert(!contains_spec(x, m)) by {
        if contains_spec(x, m) {
            let j = choose|j: int| 0 <= j <= x.len() - m.len() && #[trigger] x.subrange(j, j + m.len()) == m;
            assert(x.subrange(j, j + m.len())[0] == x[j]);
            if j >= 8 {
                assert(x.subrange(j, j + m.len())[m.len() - 1] == x[j + m.len() - 1]);
                assert(key.subrange(j - 8, j - 8 + m.len()) =~= x.subrange(j, j + m.len()));
            }
        }
    }
    assert forall|k: int| 0 < k < m.len() implies !#[trigger] agree_at_start(m.skip(k), x) by {
        if agree_at_start(m.skip(k), x) {
            let mm = if m.len() - k < x.len() {
                m.len() - k
            } else {
                x.len() as int
            };
            assert(m.skip(k).take(mm)[0] == x.take(mm)[0]);
        }
    }
    assert forall|k: int| 0 < k < m.len() && k <= x.len() implies #[trigger] m.take(k) != x.skip(x.len() - k) by {
        if m.take(k) == x.skip(x.len() - k) {
            assert(m.take(k)[k - 1] == x.skip(x.len() - k)[k - 1]);
        }
    }
    lemma_replace_keeps(t, x, m, rep);
}

/// Registering a provider twice gives the text that registering it once gives, where the
/// index declares the local provider and the key does not hold the start-up marker.
pub proof fn law_register_provider_idempotent(content: Seq<char>, key: Seq<char>, service_name: Seq<char>)
    requires
        contains_spec(content, "pub mod local;"@),
        !contains_spec(key, "/* {{GENERATED_PROVIDERS}} */"@),
    ensures
        register_provider_spec(register_provider_spec(content, key, service_name), key, service_name)
            == register_provider_spec(content, key, service_name),
{
    reveal_strlit("pub mod local;");
    reveal_strlit("/* {{GENERATED_PROVIDERS}} */");
    let decl = "pub mod "@ + key + ";"@;
    let marker = "/* {{GENERATED_PROVIDERS}} */"@;
    let head = "\""@ + key + "\" =>"@;
    let arm = provider_arm(key, service_name);
    let step1 = if contains_spec(content, decl) {
        content
    } else {
        replace_spec(content, "pub mod local;"@, "pub mod local;\npub mod "@ + key + ";"@)
    };
    assert(contains_spec(step1, decl)) by {
        if !contains_spec(content, decl) {
            let rep = "pub mod local;\npub mod "@ + key + ";"@;
            lemma_replace_present(content, "pub mod local;"@, rep);
            reveal_strlit("pub mod local;\npub mod ");
            reveal_strlit("pub mod ");
            reveal_strlit("pub mod local;\n");
            assert(rep =~= "pub mod local;\n"@ + decl);
            lemma_contains_self(decl);
            lemma_contains_concat("pub mod local;\n"@, decl, decl);
            lemma_contains_trans(step1, rep, decl);
        }
    }
    let once = register_provider_spec(content, key, service_name);
    if !contains_spec(step1, head) {
        lemma_marker_keeps_decl(step1, key, arm);
    }
    assert(contains_spec(once, decl));
    if contains_spec(step1, head) {
        assert(once == step1);
    } else if contains_spec(step1, marker) {
        lemma_replace_present(step1, marker, arm);
        reveal_strlit("\"");
        reveal_strlit("\" =>");
        reveal_strlit("\" => {\n                info!(\"[Storage] Initializing ");
        let z: int = 0;
        assert(arm.subrange(z, z + head.len()) =~= head);
        assert(once == replace_spec(step1, marker, arm));
        lemma_contains_trans(once, arm, head);
    } else {
        lemma_replace_absent(step1, marker, arm);
        lemma_replace_absent(once, marker, arm);
    }
}

/// Whether a dependency name is plain: free of brackets and line ends, and not a piece
/// of the `[dependencies]` header.
pub open spec fn plain_dependency_name(name: Seq<char>) -> bool {
    &&& forall|i: int| 0 <= i < name.len() ==> #[trigger] name[i] != '[' && name[i] != ']' && name[i] != '\n'
    &&& !contains_spec("[dependencies]\n"@, name)
}

/// A dependency line holds its name.
proof fn lemma_name_within(dep: Seq<char>)
    ensures
        contains_spec(dep, dependency_name(dep)),
{
    crate::text::lemma_split_first_prefix(dep, '=');
    let first = split_spec(dep, '=')[0];
    let z: int = 0;
    assert(dep.subrange(z, z + first.len()) =~= first);
    crate::text::lemma_trim_within(first);
    lemma_contains_trans(dep, first, trim_spec(first));
}

/// Adding a line under the header keeps a plain name mentioned: the header cannot
/// overlap it.
proof fn lemma_header_keeps_name(t: Seq<char>, name: Seq<char>, rep: Seq<char>)
    requires
        contains_spec(t, name),
        plain_dependency_name(name),
    ensures
        contains_spec(replace_spec(t, "[dependencies]\n"@, rep), name),
{
    reveal_strlit("[dependencies]\n");
    let h = "[dependencies]\n"@;
    if name.len() == 0 {
        let r = replace_spec(t, h, rep);
        let z: int = 0;
        assert(r.subrange(z, z + name.len()) =~= name);
    } else {
        assert(!contains_spec(name, h)) by {
            if contains_spec(name, h) {
                let j = choose|j: int| 0 <= j <= name.len() - h.len() && #[trigger] name.subrange(j, j + h.len()) == h;
                assert(name.subrange(j, j + h.len())[0] == name[j]);
            }
        }
        assert forall|k: int| 0 < k < h.len() implies !#[trigger] agree_at_start(h.skip(k), name) by {
            if agree_at_start(h.skip(k), name) {
                let mm = if h.len() - k < name.len() {
                    h.len() - k
                } else {
                    name.len() as int
                };
                if k == 14 {
                    assert(h.skip(k).take(mm)[0] == name.take(mm)[0]);
                } else if mm > 13 - k {
                    assert(h.skip(k).take(mm)[13 - k] == name.take(mm)[13 - k]);
                } else {
                    assert(mm == name.len());
                    assert(name.take(mm) =~= name);
                    assert(h.skip(k).take(mm) =~= h.subrange(k, k + name.len()));
                    assert(h.subrange(k, k + name.len()) == name);
                }
            }
        }
        assert forall|k: int| 0 < k < h.len() && k <= name.len() implies #[trigger] h.take(k) != name.skip(
            name.len() - k,
        ) by {
            if h.take(k) == name.skip(name.len() - k) {
                assert(h.take(k)[0] == name.skip(name.len() - k)[0]);
            }
        }
        lemma_replace_keeps(t, name, h, rep);
    }
}

/// After adding dependencies with plain names, the header is still there and every
/// dependency's name is mentioned.
proof fn lemma_dependencies_mentioned(content: Seq<char>, deps: Seq<Seq<char>>)
    requires
        contains_spec(content, "[dependencies]\n"@),
        forall|j: int| 0 <= j < deps.len() ==> plain_dependency_name(#[trigger] dependency_name(deps[j])),
    ensures
        contains_spec(with_dependencies(content, deps), "[dependencies]\n"@),
        forall|j: int|
            0 <= j < deps.len() ==> contains_spec(with_dependencies(content, deps), #[trigger] dependency_name(deps[j])),
    decreases deps.len(),
{
    if deps.len() > 0 {
        let h = "[dependencies]\n"@;
        let pre = deps.drop_last();
        assert forall|j: int| 0 <= j < pre.len() implies plain_dependency_name(#[trigger] dependency_name(pre[j])) by {
            assert(pre[j] == deps[j]);
        }
        lemma_dependencies_mentioned(content, pre);
        let before = with_dependencies(content, pre);
        let d = deps.last();
        let n = dependency_name(d);
        if contains_spec(before, n) {
            assert forall|j: int| 0 <= j < deps.len() implies contains_spec(before, #[trigger] dependency_name(deps[j])) by {
                if j < pre.len() {
                    assert(pre[j] == deps[j]);
                }
            }
        } else {
            reveal_strlit("[dependencies]\n");
            let rep = h + d + "\n"@;
            let after = replace_spec(before, h, rep);
            lemma_replace_present(before, h, rep);
            lemma_contains_self(h);
            lemma_contains_concat(h, d + "\n"@, h);
            assert(rep =~= h + (d + "\n"@));
            lemma_contains_trans(after, rep, h);
            lemma_name_within(d);
            lemma_contains_concat(h, d, n);
            lemma_contains_concat(h + d, "\n"@, n);
            lemma_contains_trans(after, rep, n);
            assert forall|j: int| 0 <= j < deps.len() implies contains_spec(after, #[trigger] dependency_name(deps[j])) by {
                if j < pre.len() {
                    assert(pre[j] == deps[j]);
                    lemma_header_keeps_name(before, dependency_name(deps[j]), rep);
                }
            }
        }
    }
}

/// Dependencies whose names are all mentioned already add nothing.
proof fn lemma_dependencies_none(content: Seq<char>, deps: Seq<Seq<char>>)
    requires
        forall|j: int| 0 <= j < deps.len() ==> contains_spec(content, #[trigger] dependency_name(deps[j])),
    ensures
        with_dependencies(content, deps) == content,
    decreases deps.len(),
{
    if deps.len() > 0 {
        let pre = deps.drop_last();
        assert forall|j: int| 0 <= j < pre.len() implies contains_spec(content, #[trigger] dependency_name(pre[j])) by {
            assert(pre[j] == deps[j]);
        }
        lemma_dependencies_none(content, pre);
        assert(contains_spec(content, dependency_name(deps[deps.len() - 1])));
    }
}

/// Adding the same dependencies twice gives the manifest that adding them once gives,
/// where the manifest has its `[dependencies]` header and each name is plain.
pub proof fn law_add_dependencies_idempotent(content: Seq<char>, deps: Seq<Seq<char>>)
    requires
        contains_spec(content, "[dependencies]\n"@),
        forall|j: int| 0 <= j < deps.len() ==> plain_dependency_name(#[trigger] dependency_name(deps[j])),
    ensures
        with_dependencies(with_dependencies(content, deps), deps) == with_dependencies(content, deps),
{
    lemma_dependencies_mentioned(content, deps);
    lemma_dependencies_none(with_dependencies(content, deps), deps);
}

} // verus!

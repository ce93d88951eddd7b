use vstd::prelude::*;
use crate::generator::{join, join_with};
use crate::numbers::{all_digits, decimal_text, decimal_value, parse_unsigned, parse_unsigned_spec, str_equal, u64_to_text, unsigned_digits};
use crate::text::{
    contains, contains_spec, lemma_contains_concat, lemma_contains_self, lemma_contains_trans, split, split_spec,
    substring, to_lowercase, trim, trim_spec, unicode_lowercase,
};
use crate::text_edit::{
    agree_at_start, last_index_of, last_index_spec, lemma_last_index_in_range, lemma_replace_absent,
    lemma_replace_keeps, lemma_replace_present, lines, lines_spec, replace, replace_spec,
};

verus! {

/// The views of a list of strings.
pub open spec fn texts(v: Seq<String>) -> Seq<Seq<char>> {
    v.map_values(|s: String| s@)
}

/// The first line at or after `start` that holds `pat`.
pub open spec fn first_containing(ls: Seq<Seq<char>>, pat: Seq<char>, start: int) -> Option<int>
    decreases ls.len() - start,
{
    if start < 0 || start >= ls.len() {
        None
    } else if contains_spec(ls[start], pat) {
        Some(start)
    } else {
        first_containing(ls, pat, start + 1)
    }
}

/// The first line at or after `start` that holds `pat`.
fn find_containing(ls: &Vec<String>, pat: &str, start: usize) -> (r: Option<usize>)
    ensures
        match r {
            Some(i) => first_containing(texts(ls@), pat@, start as int) == Some(i as int),
            None => first_containing(texts(ls@), pat@, start as int) is None,
        },
{
    let mut i = start;
    while i < ls.len()
        invariant
            start <= i,
            first_containing(texts(ls@), pat@, start as int) == first_containing(texts(ls@), pat@, i as int),
        decreases ls@.len() - i,
    {
        proof {
            assert(texts(ls@)[i as int] == ls@[i as int]@);
        }
        if contains(ls[i].as_str(), pat) {
            return Some(i);
        }
        i = i + 1;
    }
    None
}

/// The lines of a text joined by `\n`, with a final `\n`.
pub open spec fn unlines(ls: Seq<Seq<char>>) -> Seq<char> {
    join_with(ls, "\n"@) + "\n"@
}

fn unlines_text(ls: &Vec<String>) -> (r: String)
    ensures
        r@ == unlines(texts(ls@)),
{
    let mut s = join(ls, "\n");
    s.append("\n");
    s
}

fn cat2(a: &str, b: &str) -> (r: String)
    ensures
        r@ == a@ + b@,
{
    let mut s = a.to_string();
    s.append(b);
    s
}

fn cat3(a: &str, b: &str, c: &str) -> (r: String)
    ensures
        r@ == a@ + b@ + c@,
{
    let mut s = a.to_string();
    s.append(b);
    s.append(c);
    s
}

/// Whether the answer to "register the feature in RBAC? [S/n]" is yes: empty, `s` or
/// `sim`, after trimming and in any case.
pub open spec fn rbac_answer_yes(answer: Seq<char>) -> bool {
    let a = unicode_lowercase(trim_spec(answer));
    a.len() == 0 || a == "s"@ || a == "sim"@
}

/// Whether the answer to the RBAC question is yes.
pub fn should_register_rbac(answer: &str) -> (r: bool)
    ensures
        r == rbac_answer_yes(answer@),
{
    let t = trim(answer);
    let a = to_lowercase(t.as_str());
    a.as_str().unicode_len() == 0 || str_equal(a.as_str(), "s") || str_equal(a.as_str(), "sim")
}

/// A prompted value: the trimmed input, or the default where the input is blank.
pub fn answer_or_default(input: &str, default: &str) -> (r: String)
    ensures
        trim_spec(input@).len() > 0 ==> r@ == trim_spec(input@),
        trim_spec(input@).len() == 0 ==> r@ == default@,
{
    let t = trim(input);
    if t.as_str().unicode_len() > 0 {
        t
    } else {
        default.to_string()
    }
}

/// The description a feature gets by default: `Gestão de <Entity>`.
pub fn default_feature_description(entity_name: &str) -> (r: String)
    ensures
        r@ == "Gestão de "@ + entity_name@,
{
    cat2("Gestão de ", entity_name)
}

/// The name of the migration that creates an entity's table, from the time it was made
/// (as `YYYYmmdd_HHMMSS`).
pub fn migration_name(timestamp: &str, slug: &str) -> (r: String)
    ensures
        r@ == "m"@ + timestamp@ + "_create_"@ + slug@ + "_table"@,
{
    let mut s = String::from_str("m");
    s.append(timestamp);
    s.append("_create_");
    s.append(slug);
    s.append("_table");
    s
}

/// A number written with at least two digits.
pub open spec fn two_digits(n: nat) -> Seq<char> {
    if n < 10 {
        seq!['0'] + decimal_text(n)
    } else {
        decimal_text(n)
    }
}

/// The name of an entity's compliance test module: `t`, the index in two digits, `_`,
/// the slug.
pub fn test_module_name(index: u64, slug: &str) -> (r: String)
    ensures
        r@ == "t"@ + two_digits(index as nat) + "_"@ + slug@,
{
    let mut s = String::from_str("t");
    if index < 10 {
        s.append("0");
    }
    let digits = u64_to_text(index);
    s.append(digits.as_str());
    s.append("_");
    s.append(slug);
    proof {
        reveal_strlit("0");
    }
    s
}

/// The number of bytes of a character in UTF-8.
pub open spec fn utf8_len(c: char) -> int {
    if (c as int) < 0x80 {
        1
    } else if (c as int) < 0x800 {
        2
    } else if (c as int) < 0x10000 {
        3
    } else {
        4
    }
}

/// The number of bytes of a text in UTF-8.
pub open spec fn utf8_size(s: Seq<char>) -> int
    decreases s.len(),
{
    if s.len() == 0 {
        0
    } else {
        utf8_size(s.drop_last()) + utf8_len(s.last())
    }
}

/// A test file name whose index bytes (the second and third) can be cut out: where the
/// name starts with `t` and is longer than three bytes, the third byte starts a character.
pub open spec fn index_slice_ok(name: Seq<char>) -> bool {
    (name.len() > 0 && name[0] == 't' && utf8_size(name) > 3) ==> (utf8_len(name[1]) == 2 || (utf8_len(name[1])
        == 1 && name.len() >= 3 && utf8_len(name[2]) == 1))
}

/// The index a compliance test file name carries: bytes two and three of a name that
/// starts with `t` and is longer than three bytes, up to the first `_`, read as a number.
pub open spec fn test_index_of(name: Seq<char>) -> Option<int> {
    if name.len() > 0 && name[0] == 't' && utf8_size(name) > 3 {
        let piece = if utf8_len(name[1]) == 1 {
            name.subrange(1, 3)
        } else {
            name.subrange(1, 2)
        };
        parse_unsigned_spec(split_spec(piece, '_')[0], usize::MAX as int)
    } else {
        None
    }
}

/// The highest index among the file names, and 16 at least.
pub open spec fn max_test_index(names: Seq<Seq<char>>) -> int
    decreases names.len(),
{
    if names.len() == 0 {
        16
    } else {
        let m = max_test_index(names.drop_last());
        match test_index_of(names.last()) {
            Some(i) => if i > m {
                i
            } else {
                m
            },
            None => m,
        }
    }
}

proof fn lemma_size_prefix(s: Seq<char>, k: int)
    requires
        0 <= k <= s.len(),
    ensures
        utf8_size(s.take(k)) <= utf8_size(s),
        utf8_size(s.take(k)) >= k,
    decreases s.len(),
{
    if k < s.len() {
        assert(s.drop_last().take(k) =~= s.take(k));
        lemma_size_prefix(s.drop_last(), k);
    } else {
        assert(s.take(k) =~= s);
        lemma_size_at_least_len(s);
    }
}

proof fn lemma_size_at_least_len(s: Seq<char>)
    ensures
        utf8_size(s) >= s.len(),
    decreases s.len(),
{
    if s.len() > 0 {
        lemma_size_at_least_len(s.drop_last());
    }
}

/// Whether the text takes more than `limit` bytes in UTF-8.
fn utf8_size_exceeds(s: &str, limit: u64) -> (r: bool)
    requires
        limit < 1000,
    ensures
        r == (utf8_size(s@) > limit),
{
    let n = s.unicode_len();
    let mut total: u64 = 0;
    let mut i: usize = 0;
    while i < n
        invariant
            n == s@.len(),
            i <= n,
            limit < 1000,
            total == utf8_size(s@.take(i as int)),
            total <= limit,
        decreases n - i,
    {
        let c = s.get_char(i);
        proof {
            assert(s@.take(i + 1).drop_last() =~= s@.take(i as int));
        }
        let w: u64 = if (c as u32) < 0x80 {
            1
        } else if (c as u32) < 0x800 {
            2
        } else if (c as u32) < 0x10000 {
            3
        } else {
            4
        };
        total = total + w;
        i = i + 1;
        if total > limit {
            proof {
                lemma_size_prefix(s@, i as int);
            }
            return true;
        }
    }
    proof {
        assert(s@.take(n as int) =~= s@);
    }
    false
}

proof fn lemma_two_digits_small(d: Seq<char>)
    requires
        all_digits(d),
        d.len() <= 2,
    ensures
        decimal_value(d) <= 99,
{
    reveal_with_fuel(decimal_value, 3);
    if d.len() == 1 {
        assert(crate::numbers::is_digit(d[0]));
        assert(d.drop_last().len() == 0);
    } else if d.len() == 2 {
        assert(crate::numbers::is_digit(d[0]));
        assert(crate::numbers::is_digit(d[1]));
        let p = d.drop_last();
        assert(p[0] == d[0]);
        assert(p.drop_last().len() == 0);
        assert(decimal_value(p) == (d[0] as int) - ('0' as int));
    }
}

/// The index carried by one compliance test file name.
fn test_index(name: &str) -> (r: Option<u64>)
    requires
        index_slice_ok(name@),
    ensures
        match r {
            Some(v) => test_index_of(name@) == Some(v as int) && v <= 99,
            None => test_index_of(name@) is None,
        },
{
    let n = name.unicode_len();
    if n == 0 || name.get_char(0) != 't' {
        return None;
    }
    if !utf8_size_exceeds(name, 3) {
        return None;
    }
    proof {
        if n == 1 {
            assert(name@.drop_last().len() == 0);
            assert(utf8_size(name@.drop_last()) == 0);
            assert(name@.last() == 't');
            assert(utf8_size(name@) == 1);
        }
    }
    let c1 = name.get_char(1);
    let piece = if (c1 as u32) < 0x80 {
        substring(name, 1, 3)
    } else {
        substring(name, 1, 2)
    };
    let parts = split(piece.as_str(), '_');
    proof {
        crate::text::lemma_split_nonempty(piece@, '_');
        lemma_split_piece_short(piece@, '_');
    }
    let v = parse_unsigned(parts[0].as_str(), usize::MAX as u64);
    match v {
        Some(x) => {
            proof {
                let d = unsigned_digits(parts@[0]@);
                lemma_two_digits_small(d);
            }
            Some(x)
        },
        None => None,
    }
}

/// The first piece of a split is no longer than the text.
proof fn lemma_split_piece_short(s: Seq<char>, sep: char)
    ensures
        split_spec(s, sep)[0].len() <= s.len(),
    decreases s.len(),
{
    if s.len() > 0 {
        lemma_split_piece_short(s.drop_last(), sep);
        crate::text::lemma_split_nonempty(s.drop_last(), sep);
    }
}

/// The index of the next compliance test module: one above the highest index among the
/// existing test file names, and 17 at least.
pub fn next_test_index(names: &Vec<String>) -> (r: u64)
    requires
        forall|i: int| 0 <= i < names@.len() ==> #[trigger] index_slice_ok(names@[i]@),
    ensures
        r == max_test_index(texts(names@)) + 1,
{
    let mut max_idx: u64 = 16;
    let mut i: usize = 0;
    while i < names.len()
        invariant
            forall|k: int| 0 <= k < names@.len() ==> #[trigger] index_slice_ok(names@[k]@),
            i <= names@.len(),
            max_idx == max_test_index(texts(names@).take(i as int)),
            16 <= max_idx <= 99,
        decreases names@.len() - i,
    {
        proof {
            assert(texts(names@).take(i + 1).drop_last() =~= texts(names@).take(i as int));
            assert(texts(names@).take(i + 1).last() == names@[i as int]@);
        }
        match test_index(names[i].as_str()) {
            Some(idx) => {
                if idx > max_idx {
                    max_idx = idx;
                }
            },
            None => {},
        }
        i = i + 1;
    }
    proof {
        assert(texts(names@).take(names@.len() as int) =~= texts(names@));
    }
    max_idx + 1
}

/// The models index with a module line for a new entity added, unless it is there.
pub open spec fn register_model_spec(content: Seq<char>, slug: Seq<char>) -> Option<Seq<char>> {
    let line = "pub mod "@ + slug + ";\n"@;
    if contains_spec(content, line) {
        None
    } else {
        Some(content + line)
    }
}

/// Adds `pub mod <slug>;` to the models index; `None` when it is already there.
pub fn register_model(content: &str, slug: &str) -> (r: Option<String>)
    ensures
        match r {
            Some(t) => register_model_spec(content@, slug@) == Some(t@),
            None => register_model_spec(content@, slug@) is None,
        },
{
    let line = cat3("pub mod ", slug, ";\n");
    if contains(content, line.as_str()) {
        None
    } else {
        Some(cat2(content, line.as_str()))
    }
}

/// The test index with a module line for a new compliance test added, unless it is there.
pub fn register_test_module(content: &str, test_mod_name: &str) -> (r: Option<String>)
    ensures
        match r {
            Some(t) => register_model_spec(content@, test_mod_name@) == Some(t@),
            None => register_model_spec(content@, test_mod_name@) is None,
        },
{
    register_model(content, test_mod_name)
}

/// The modules index with a new entity declared first and its router merged after the
/// first line that builds the router, unless it is declared already.
pub open spec fn register_module_spec(content: Seq<char>, slug: Seq<char>) -> Option<Seq<char>> {
    let decl = "pub mod "@ + slug + ";"@;
    if contains_spec(content, decl) {
        None
    } else {
        let ls = lines_spec(content).insert(0, decl);
        let edited = match first_containing(ls, "Router::new()"@, 0) {
            Some(i) => ls.update(
                i,
                ls[i] + "\n        .merge("@ + slug + "::router(db.clone(), cache.clone(), config.clone()))"@,
            ),
            None => ls,
        };
        Some(join_with(edited, "\n"@))
    }
}

proof fn lemma_first_in_range(ls: Seq<Seq<char>>, pat: Seq<char>, start: int)
    ensures
        first_containing(ls, pat, start) matches Some(i) ==> start <= i < ls.len() && contains_spec(ls[i], pat),
    decreases ls.len() - start,
{
    if 0 <= start < ls.len() && !contains_spec(ls[start], pat) {
        lemma_first_in_range(ls, pat, start + 1);
    }
}

/// Declares a new entity module and merges its router; `None` when it is declared already.
pub fn register_module(content: &str, slug: &str) -> (r: Option<String>)
    ensures
        match r {
            Some(t) => register_module_spec(content@, slug@) == Some(t@),
            None => register_module_spec(content@, slug@) is None,
        },
{
    let decl = cat3("pub mod ", slug, ";");
    if contains(content, decl.as_str()) {
        return None;
    }
    let mut ls = lines(content);
    let ghost before = texts(ls@);
    ls.insert(0, decl);
    proof {
        assert(texts(ls@) =~= before.insert(0, decl@));
    }
    match find_containing(&ls, "Router::new()", 0) {
        Some(i) => {
            proof {
                lemma_first_in_range(texts(ls@), "Router::new()"@, 0);
            }
            let mut line = ls[i].clone();
            line.append("\n        .merge(");
            line.append(slug);
            line.append("::router(db.clone(), cache.clone(), config.clone()))");
            let ghost prev = texts(ls@);
            ls.set(i, line);
            proof {
                assert(texts(ls@) =~= prev.update(i as int, prev[i as int]
                    + "\n        .merge("@ + slug@ + "::router(db.clone(), cache.clone(), config.clone()))"@));
            }
        },
        None => {},
    }
    Some(join(&ls, "\n"))
}

/// The API documentation module with a new entity's API imported, merged and tagged,
/// unless it is there.
pub open spec fn register_observability_spec(
    content: Seq<char>,
    entity_name: Seq<char>,
    slug: Seq<char>,
    feature_name: Seq<char>,
    feature_desc: Seq<char>,
) -> Option<Seq<char>> {
    let api = slug + "::"@ + entity_name + "Api"@;
    if contains_spec(content, api) {
        None
    } else {
        let tag = "(name = \"Product\", description = \"Product Catalog & Pricing\"),"@;
        let step1 = replace_spec(content, "product::ProductApi,"@, "product::ProductApi, "@ + api + ","@);
        let step2 = replace_spec(
            step1,
            "ProductApi::openapi(),"@,
            "ProductApi::openapi(),\n        "@ + entity_name + "Api::openapi(),"@,
        );
        Some(
            replace_spec(
                step2,
                tag,
                tag + "\n        (name = \""@ + feature_name + "\", description = \""@ + feature_desc + "\"),"@,
            ),
        )
    }
}

/// Registers a new entity's API in the documentation; `None` when it is there already.
pub fn register_observability(
    content: &str,
    entity_name: &str,
    slug: &str,
    feature_name: &str,
    feature_desc: &str,
) -> (r: Option<String>)
    ensures
        match r {
            Some(t) => register_observability_spec(content@, entity_name@, slug@, feature_name@, feature_desc@)
                == Some(t@),
            None => register_observability_spec(content@, entity_name@, slug@, feature_name@, feature_desc@) is None,
        },
{
    let mut api = cat3(slug, "::", entity_name);
    api.append("Api");
    if contains(content, api.as_str()) {
        return None;
    }
    let tag = "(name = \"Product\", description = \"Product Catalog & Pricing\"),";
    let mut new_import = String::from_str("product::ProductApi, ");
    new_import.append(api.as_str());
    new_import.append(",");
    let mut new_merge = String::from_str("ProductApi::openapi(),\n        ");
    new_merge.append(entity_name);
    new_merge.append("Api::openapi(),");
    let mut new_tag = tag.to_string();
    new_tag.append("\n        (name = \"");
    new_tag.append(feature_name);
    new_tag.append("\", description = \"");
    new_tag.append(feature_desc);
    new_tag.append("\"),");
    proof {
        reveal_strlit("product::ProductApi,");
        reveal_strlit("ProductApi::openapi(),");
        reveal_strlit("(name = \"Product\", description = \"Product Catalog & Pricing\"),");
    }
    let step1 = replace(content, "product::ProductApi,", new_import.as_str());
    let step2 = replace(step1.as_str(), "ProductApi::openapi(),", new_merge.as_str());
    Some(replace(step2.as_str(), tag, new_tag.as_str()))
}

/// The last line that runs a compliance test module.
pub open spec fn last_run_line(ls: Seq<Seq<char>>) -> Option<int>
    decreases ls.len(),
{
    if ls.len() == 0 {
        None
    } else if contains_spec(ls.last(), "compliance::t"@) && contains_spec(ls.last(), "::run(&ctx).await;"@) {
        Some(ls.len() - 1)
    } else {
        last_run_line(ls.drop_last())
    }
}

proof fn lemma_last_run_in_range(ls: Seq<Seq<char>>)
    ensures
        last_run_line(ls) matches Some(i) ==> 0 <= i < ls.len(),
    decreases ls.len(),
{
    if ls.len() > 0 {
        lemma_last_run_in_range(ls.drop_last());
    }
}

/// The last line that runs a compliance test module.
fn find_last_run(ls: &Vec<String>) -> (r: Option<usize>)
    ensures
        match r {
            Some(i) => last_run_line(texts(ls@)) == Some(i as int),
            None => last_run_line(texts(ls@)) is None,
        },
{
    let ghost lv = texts(ls@);
    let mut k: usize = ls.len();
    proof {
        assert(lv.take(k as int) =~= lv);
    }
    while k > 0
        invariant
            lv == texts(ls@),
            k <= ls@.len(),
            last_run_line(lv) == last_run_line(lv.take(k as int)),
        decreases k,
    {
        proof {
            assert(lv.take(k as int).drop_last() =~= lv.take(k - 1));
            assert(lv.take(k as int).last() == ls@[k - 1]@);
        }
        if contains(ls[k - 1].as_str(), "compliance::t") && contains(ls[k - 1].as_str(), "::run(&ctx).await;") {
            return Some(k - 1);
        }
        k = k - 1;
    }
    proof {
        assert(lv.take(0) =~= Seq::<Seq<char>>::empty());
    }
    None
}

/// The integration test entry with a call of a new compliance module added after the
/// last such call, unless it is there or no call is found.
pub open spec fn register_test_execution_spec(content: Seq<char>, test_mod_name: Seq<char>) -> Option<Seq<char>> {
    let stmt = "compliance::"@ + test_mod_name + "::run(&ctx).await;"@;
    if contains_spec(content, stmt) {
        None
    } else {
        let ls = lines_spec(content);
        match last_run_line(ls) {
            Some(i) => Some(unlines(ls.insert(i + 1, "    "@ + stmt))),
            None => None,
        }
    }
}

/// Adds the call of a new compliance module to the integration test entry; `None` when
/// it is there already or no call is found to place it after.
pub fn register_test_execution(content: &str, test_mod_name: &str) -> (r: Option<String>)
    ensures
        match r {
            Some(t) => register_test_execution_spec(content@, test_mod_name@) == Some(t@),
            None => register_test_execution_spec(content@, test_mod_name@) is None,
        },
{
    let stmt = cat3("compliance::", test_mod_name, "::run(&ctx).await;");
    if contains(content, stmt.as_str()) {
        return None;
    }
    let mut ls = lines(content);
    let ghost lv = texts(ls@);
    proof {
        vstd::std_specs::vec::axiom_spec_len(&ls);
    }
    let found = find_last_run(&ls);
    proof {
        lemma_last_run_in_range(lv);
    }
    match found {
        Some(idx) => {
            let line = cat2("    ", stmt.as_str());
            ls.insert(idx + 1, line);
            proof {
                assert(texts(ls@) =~= lv.insert(idx + 1, "    "@ + stmt@));
            }
            Some(unlines_text(&ls))
        },
        None => None,
    }
}

/// The test database reset with a new entity's table truncated too, unless it is there.
pub open spec fn register_table_truncate_spec(content: Seq<char>, entity_name: Seq<char>) -> Option<Seq<char>> {
    let table = "public.\\\""@ + entity_name + "\\\""@;
    if contains_spec(content, table) {
        None
    } else {
        Some(replace_spec(content, "public.\\\"Product\\\""@, "public.\\\"Product\\\", "@ + table))
    }
}

/// Adds a new entity's table to the tables the tests truncate; `None` when it is there.
pub fn register_table_truncate(content: &str, entity_name: &str) -> (r: Option<String>)
    ensures
        match r {
            Some(t) => register_table_truncate_spec(content@, entity_name@) == Some(t@),
            None => register_table_truncate_spec(content@, entity_name@) is None,
        },
{
    let check = cat3("public.\\\"", entity_name, "\\\"");
    if contains(content, check.as_str()) {
        return None;
    }
    let new_pattern = cat2("public.\\\"Product\\\", ", check.as_str());
    proof {
        reveal_strlit("public.\\\"Product\\\"");
    }
    Some(replace(content, "public.\\\"Product\\\"", new_pattern.as_str()))
}

/// The migrator with a new migration declared as the third line and listed first in its
/// `vec![..]`, unless it is named there.
pub open spec fn register_migration_spec(content: Seq<char>, migration_mod: Seq<char>) -> Option<Seq<char>> {
    if contains_spec(content, migration_mod) {
        None
    } else {
        let ls = lines_spec(content).insert(2, "mod "@ + migration_mod + ";"@);
        let edited = match first_containing(ls, "vec!["@, 0) {
            Some(i) => ls.update(
                i,
                replace_spec(ls[i], "vec!["@, "vec![\n            Box::new("@ + migration_mod + "::Migration),"@),
            ),
            None => ls,
        };
        Some(unlines(edited))
    }
}

/// Registers a new migration in the migrator; `None` when it is named there already.
/// The migrator must have at least two lines.
pub fn register_migration_in_migrator(content: &str, migration_mod: &str) -> (r: Option<String>)
    requires
        contains_spec(content@, migration_mod@) || lines_spec(content@).len() >= 2,
    ensures
        match r {
            Some(t) => register_migration_spec(content@, migration_mod@) == Some(t@),
            None => register_migration_spec(content@, migration_mod@) is None,
        },
{
    if contains(content, migration_mod) {
        return None;
    }
    let mut ls = lines(content);
    let ghost before = texts(ls@);
    let decl = cat3("mod ", migration_mod, ";");
    ls.insert(2, decl);
    proof {
        assert(texts(ls@) =~= before.insert(2, decl@));
    }
    match find_containing(&ls, "vec![", 0) {
        Some(i) => {
            proof {
                lemma_first_in_range(texts(ls@), "vec!["@, 0);
                reveal_strlit("vec![");
            }
            let rep = cat3("vec![\n            Box::new(", migration_mod, "::Migration),");
            let line = replace(ls[i].as_str(), "vec![", rep.as_str());
            let ghost prev = texts(ls@);
            ls.set(i, line);
            proof {
                assert(texts(ls@) =~= prev.update(i as int, line@));
            }
        },
        None => {},
    }
    Some(unlines_text(&ls))
}

/// The first line after `start` whose trimmed text is `];`.
pub open spec fn first_closing(ls: Seq<Seq<char>>, start: int) -> Option<int>
    decreases ls.len() - start,
{
    if start < 0 || start >= ls.len() {
        None
    } else if trim_spec(ls[start]) == "];"@ {
        Some(start)
    } else {
        first_closing(ls, start + 1)
    }
}

proof fn lemma_closing_in_range(ls: Seq<Seq<char>>, start: int)
    ensures
        first_closing(ls, start) matches Some(i) ==> start <= i < ls.len(),
    decreases ls.len() - start,
{
    if 0 <= start < ls.len() && trim_spec(ls[start]) != "];"@ {
        lemma_closing_in_range(ls, start + 1);
    }
}

/// Where a new feature's seed row goes: before the `];` that closes the features data.
pub open spec fn seed_insert_index(ls: Seq<Seq<char>>) -> Option<int> {
    match first_containing(ls, "let features_data = vec!["@, 0) {
        Some(j) => first_closing(ls, j + 1),
        None => None,
    }
}

/// The line that lists the feature ids, with a new id added before its last `]`.
pub open spec fn with_feature_id(line: Seq<char>, feature_id: Seq<char>) -> Seq<char> {
    match last_index_spec(line, ']') {
        Some(pos) => line.take(pos) + ", \""@ + feature_id + "\""@ + line.skip(pos),
        None => line,
    }
}

/// The seed with a new feature's row and id added, unless its id is quoted there already.
pub open spec fn register_rbac_feature_spec(content: Seq<char>, feature_id: Seq<char>, feature_desc: Seq<char>) -> Option<
    Seq<char>,
> {
    if contains_spec(content, "\""@ + feature_id + "\""@) {
        None
    } else {
        let ls0 = lines_spec(content);
        let ls1 = match seed_insert_index(ls0) {
            Some(idx) => ls0.insert(idx, "        (\""@ + feature_id + "\", \""@ + feature_desc + "\"),"@),
            None => ls0,
        };
        let ls2 = match first_containing(ls1, "let features = vec!["@, 0) {
            Some(i) => ls1.update(i, with_feature_id(ls1[i], feature_id)),
            None => ls1,
        };
        Some(unlines(ls2))
    }
}

/// The first line at or after `start` whose trimmed text is `];`.
fn find_closing(ls: &Vec<String>, start: usize) -> (r: Option<usize>)
    ensures
        match r {
            Some(i) => first_closing(texts(ls@), start as int) == Some(i as int),
            None => first_closing(texts(ls@), start as int) is None,
        },
{
    let mut i = start;
    while i < ls.len()
        invariant
            start <= i,
            first_closing(texts(ls@), start as int) == first_closing(texts(ls@), i as int),
        decreases ls@.len() - i,
    {
        proof {
            assert(texts(ls@)[i as int] == ls@[i as int]@);
        }
        let t = trim(ls[i].as_str());
        if str_equal(t.as_str(), "];") {
            return Some(i);
        }
        i = i + 1;
    }
    None
}

/// Registers a new feature in the access-control seed: its row before the end of the
/// features data, its id in the features list; `None` when its id is quoted there.
pub fn register_rbac_feature(content: &str, feature_id: &str, feature_desc: &str) -> (r: Option<String>)
    ensures
        match r {
            Some(t) => register_rbac_feature_spec(content@, feature_id@, feature_desc@) == Some(t@),
            None => register_rbac_feature_spec(content@, feature_id@, feature_desc@) is None,
        },
{
    let quoted_id = cat3("\"", feature_id, "\"");
    if contains(content, quoted_id.as_str()) {
        return None;
    }
    let mut ls = lines(content);
    let ghost ls0 = texts(ls@);
    proof {
        vstd::std_specs::vec::axiom_spec_len(&ls);
    }
    let start = find_containing(&ls, "let features_data = vec![", 0);
    let idx = match start {
        Some(j) => {
            proof {
                lemma_first_in_range(ls0, "let features_data = vec!["@, 0);
            }
            find_closing(&ls, j + 1)
        },
        None => None,
    };
    match idx {
        Some(k) => {
            proof {
                lemma_closing_in_range(ls0, (start->0 + 1) as int);
            }
            let mut row = cat3("        (\"", feature_id, "\", \"");
            row.append(feature_desc);
            row.append("\"),");
            ls.insert(k, row);
            proof {
                assert(texts(ls@) =~= ls0.insert(k as int, row@));
            }
        },
        None => {},
    }
    let ghost ls1 = texts(ls@);
    match find_containing(&ls, "let features = vec![", 0) {
        Some(i) => {
            proof {
                lemma_first_in_range(ls1, "let features = vec!["@, 0);
            }
            let line = ls[i].as_str();
            match last_index_of(line, ']') {
                Some(pos) => {
                    proof {
                        lemma_last_index_in_range(line@, ']');
                    }
                    let n = line.unicode_len();
                    let mut edited = substring(line, 0, pos);
                    edited.append(", \"");
                    edited.append(feature_id);
                    edited.append("\"");
                    let after = substring(line, pos, n);
                    edited.append(after.as_str());
                    proof {
                        assert(line@.take(pos as int) =~= line@.subrange(0, pos as int));
                        assert(line@.skip(pos as int) =~= line@.subrange(pos as int, n as int));
                    }
                    ls.set(i, edited);
                    proof {
                        assert(texts(ls@) =~= ls1.update(i as int, with_feature_id(ls1[i as int], feature_id@)));
                    }
                },
                None => {
                    proof {
                        assert(with_feature_id(ls1[i as int], feature_id@) == ls1[i as int]);
                        assert(ls1.update(i as int, ls1[i as int]) =~= ls1);
                    }
                },
            }
        },
        None => {},
    }
    Some(unlines_text(&ls))
}

/// A template with each placeholder replaced by its value, the replacements applied in
/// order.
pub open spec fn apply_replacements(tpl: Seq<char>, reps: Seq<(Seq<char>, Seq<char>)>) -> Seq<char>
    decreases reps.len(),
{
    if reps.len() == 0 {
        tpl
    } else {
        replace_spec(apply_replacements(tpl, reps.drop_last()), reps.last().0, reps.last().1)
    }
}

/// The text of a template once every placeholder is replaced by its value, in order.
/// Every placeholder must be non-empty.
pub fn apply_template(tpl: &str, replacements: &[(&str, &str)]) -> (r: String)
    requires
        forall|i: int| 0 <= i < replacements@.len() ==> #[trigger] replacements@[i].0@.len() > 0,
    ensures
        r@ == apply_replacements(tpl@, replacements@.map_values(|p: (&str, &str)| (p.0@, p.1@))),
{
    let ghost rv = replacements@.map_values(|p: (&str, &str)| (p.0@, p.1@));
    let mut out = tpl.to_string();
    let mut i: usize = 0;
    while i < replacements.len()
        invariant
            forall|k: int| 0 <= k < replacements@.len() ==> #[trigger] replacements@[k].0@.len() > 0,
            rv == replacements@.map_values(|p: (&str, &str)| (p.0@, p.1@)),
            i <= replacements@.len(),
            out@ == apply_replacements(tpl@, rv.take(i as int)),
        decreases replacements@.len() - i,
    {
        proof {
            assert(rv.take(i + 1).drop_last() =~= rv.take(i as int));
            assert(rv.take(i + 1).last() == (replacements@[i as int].0@, replacements@[i as int].1@));
        }
        let (placeholder, value) = replacements[i];
        out = replace(out.as_str(), placeholder, value);
        i = i + 1;
    }
    proof {
        assert(rv.take(replacements@.len() as int) =~= rv);
    }
    out
}

/// The files the CRUD generator writes, as (template, destination) pairs: the model, the
/// module's schemas, service, controller, routes and index, the migration, and the
/// compliance test.
pub fn crud_file_targets(slug: &str, migration_mod: &str, test_mod_name: &str) -> (r: Vec<(String, String)>)
    ensures
        r@.len() == 8,
        r@[0].0@ == "templates/crud/model.rs.tpl"@ && r@[0].1@ == "src/models/"@ + slug@ + ".rs"@,
        r@[1].0@ == "templates/crud/schemas.rs.tpl"@ && r@[1].1@ == "src/modules/"@ + slug@ + "/schemas.rs"@,
        r@[2].0@ == "templates/crud/service.rs.tpl"@ && r@[2].1@ == "src/modules/"@ + slug@ + "/service.rs"@,
        r@[3].0@ == "templates/crud/controller.rs.tpl"@ && r@[3].1@ == "src/modules/"@ + slug@
            + "/controller.rs"@,
        r@[4].0@ == "templates/crud/routes.rs.tpl"@ && r@[4].1@ == "src/modules/"@ + slug@ + "/routes.rs"@,
        r@[5].0@ == "templates/crud/mod.rs.tpl"@ && r@[5].1@ == "src/modules/"@ + slug@ + "/mod.rs"@,
        r@[6].0@ == "templates/crud/migration.rs.tpl"@ && r@[6].1@ == "src/migration/"@ + migration_mod@ + ".rs"@,
        r@[7].0@ == "templates/crud/test.rs.tpl"@ && r@[7].1@ == "tests/compliance/"@ + test_mod_name@ + ".rs"@,
{
    let mut v: Vec<(String, String)> = Vec::new();
    v.push((String::from_str("templates/crud/model.rs.tpl"), cat3("src/models/", slug, ".rs")));
    v.push((String::from_str("templates/crud/schemas.rs.tpl"), cat3("src/modules/", slug, "/schemas.rs")));
    v.push((String::from_str("templates/crud/service.rs.tpl"), cat3("src/modules/", slug, "/service.rs")));
    v.push((String::from_str("templates/crud/controller.rs.tpl"), cat3("src/modules/", slug, "/controller.rs")));
    v.push((String::from_str("templates/crud/routes.rs.tpl"), cat3("src/modules/", slug, "/routes.rs")));
    v.push((String::from_str("templates/crud/mod.rs.tpl"), cat3("src/modules/", slug, "/mod.rs")));
    v.push((String::from_str("templates/crud/migration.rs.tpl"), cat3("src/migration/", migration_mod, ".rs")));
    v.push((String::from_str("templates/crud/test.rs.tpl"), cat3("tests/compliance/", test_mod_name, ".rs")));
    v
}

/// The directory of a generated module: `src/modules/<slug>`.
pub fn module_dir(slug: &str) -> (r: String)
    ensures
        r@ == "src/modules/"@ + slug@,
{
    cat2("src/modules/", slug)
}

/// Joined lines hold each line.
proof fn lemma_join_contains(xs: Seq<Seq<char>>, sep: Seq<char>, k: int)
    requires
        0 <= k < xs.len(),
    ensures
        contains_spec(join_with(xs, sep), xs[k]),
    decreases xs.len(),
{
    lemma_contains_self(xs[k]);
    if xs.len() > 1 {
        let pre = join_with(xs.drop_last(), sep);
        if k < xs.len() - 1 {
            lemma_join_contains(xs.drop_last(), sep, k);
            assert(xs.drop_last()[k] == xs[k]);
            lemma_contains_concat(pre, sep, xs[k]);
            lemma_contains_concat(pre + sep, xs.last(), xs[k]);
        } else {
            lemma_contains_concat(pre + sep, xs.last(), xs[k]);
        }
    }
}

/// Registering a model twice changes nothing the second time.
pub proof fn law_register_model_idempotent(content: Seq<char>, slug: Seq<char>)
    ensures
        register_model_spec(content, slug) matches Some(c2) ==> register_model_spec(c2, slug) is None,
{
    let line = "pub mod "@ + slug + ";\n"@;
    lemma_contains_self(line);
    lemma_contains_concat(content, line, line);
}

/// Registering a module twice changes nothing the second time.
pub proof fn law_register_module_idempotent(content: Seq<char>, slug: Seq<char>)
    ensures
        register_module_spec(content, slug) matches Some(c2) ==> register_module_spec(c2, slug) is None,
{
    let decl = "pub mod "@ + slug + ";"@;
    if !contains_spec(content, decl) {
        let ls = lines_spec(content).insert(0, decl);
        let edited = match first_containing(ls, "Router::new()"@, 0) {
            Some(i) => ls.update(
                i,
                ls[i] + "\n        .merge("@ + slug + "::router(db.clone(), cache.clone(), config.clone()))"@,
            ),
            None => ls,
        };
        lemma_contains_self(decl);
        lemma_contains_concat(decl, "\n        .merge("@, decl);
        lemma_contains_concat(decl + "\n        .merge("@, slug, decl);
        lemma_contains_concat(
            decl + "\n        .merge("@ + slug,
            "::router(db.clone(), cache.clone(), config.clone()))"@,
            decl,
        );
        lemma_first_in_range(ls, "Router::new()"@, 0);
        assert(ls[0] == decl);
        assert(edited.len() == ls.len());
        assert(contains_spec(edited[0], decl));
        lemma_join_contains(edited, "\n"@, 0);
        lemma_contains_trans(join_with(edited, "\n"@), edited[0], decl);
    }
}

/// Registering a compliance test run twice changes nothing the second time.
pub proof fn law_register_test_execution_idempotent(content: Seq<char>, test_mod_name: Seq<char>)
    ensures
        register_test_execution_spec(content, test_mod_name) matches Some(c2) ==> register_test_execution_spec(
            c2,
            test_mod_name,
        ) is None,
{
    let stmt = "compliance::"@ + test_mod_name + "::run(&ctx).await;"@;
    if !contains_spec(content, stmt) {
        let ls = lines_spec(content);
        lemma_last_run_in_range(ls);
        if let Some(i) = last_run_line(ls) {
            let edited = ls.insert(i + 1, "    "@ + stmt);
            lemma_contains_self(stmt);
            lemma_contains_concat("    "@, stmt, stmt);
            lemma_join_contains(edited, "\n"@, i + 1);
            lemma_contains_trans(join_with(edited, "\n"@), edited[i + 1], stmt);
            lemma_contains_concat(join_with(edited, "\n"@), "\n"@, stmt);
        }
    }
}

/// Every index found among the names is at most the highest one, which is 16 at least; so
/// the next index is above all of them.
pub proof fn law_next_index_above_existing(names: Seq<Seq<char>>, k: int)
    requires
        0 <= k < names.len(),
    ensures
        max_test_index(names) >= 16,
        test_index_of(names[k]) matches Some(x) ==> x < max_test_index(names) + 1,
    decreases names.len(),
{
    lemma_max_index_at_least(names);
    if k < names.len() - 1 {
        law_next_index_above_existing(names.drop_last(), k);
        assert(names.drop_last()[k] == names[k]);
    }
}

proof fn lemma_max_index_at_least(names: Seq<Seq<char>>)
    ensures
        max_test_index(names) >= 16,
        max_test_index(names) >= max_test_index(names.drop_last()) || names.len() == 0,
    decreases names.len(),
{
    if names.len() > 0 {
        lemma_max_index_at_least(names.drop_last());
    }
}

/// Registering a table for truncation twice leaves the text as registering it once.
pub proof fn law_register_table_truncate_idempotent(content: Seq<char>, entity_name: Seq<char>)
    ensures
        register_table_truncate_spec(content, entity_name) matches Some(c2) ==> (register_table_truncate_spec(
            c2,
            entity_name,
        ) is None || register_table_truncate_spec(c2, entity_name) == Some(c2)),
{
    let table = "public.\\\""@ + entity_name + "\\\""@;
    let target = "public.\\\"Product\\\""@;
    let rep = "public.\\\"Product\\\", "@ + table;
    if !contains_spec(content, table) {
        reveal_strlit("public.\\\"Product\\\"");
        let c2 = replace_spec(content, target, rep);
        if contains_spec(content, target) {
            lemma_replace_present(content, target, rep);
            lemma_contains_self(table);
            lemma_contains_concat("public.\\\"Product\\\", "@, table, table);
            lemma_contains_trans(c2, rep, table);
        } else {
            lemma_replace_absent(content, target, rep);
            lemma_replace_absent(c2, target, rep);
        }
    }
}

/// Registering a migration twice changes nothing the second time.
pub proof fn law_register_migration_idempotent(content: Seq<char>, migration_mod: Seq<char>)
    requires
        lines_spec(content).len() >= 2,
    ensures
        register_migration_spec(content, migration_mod) matches Some(c2) ==> register_migration_spec(
            c2,
            migration_mod,
        ) is None,
{
    if !contains_spec(content, migration_mod) {
        let decl = "mod "@ + migration_mod + ";"@;
        let rep = "vec![\n            Box::new("@ + migration_mod + "::Migration),"@;
        let ls = lines_spec(content).insert(2, decl);
        lemma_contains_self(migration_mod);
        lemma_contains_concat("mod "@, migration_mod, migration_mod);
        lemma_contains_concat("mod "@ + migration_mod, ";"@, migration_mod);
        lemma_first_in_range(ls, "vec!["@, 0);
        let edited = match first_containing(ls, "vec!["@, 0) {
            Some(i) => ls.update(i, replace_spec(ls[i], "vec!["@, rep)),
            None => ls,
        };
        assert(contains_spec(edited[2], migration_mod)) by {
            if let Some(i) = first_containing(ls, "vec!["@, 0) {
                if i == 2 {
                    reveal_strlit("vec![");
                    lemma_replace_present(ls[2], "vec!["@, rep);
                    lemma_contains_concat("vec![\n            Box::new("@, migration_mod, migration_mod);
                    lemma_contains_concat(
                        "vec![\n            Box::new("@ + migration_mod,
                        "::Migration),"@,
                        migration_mod,
                    );
                    lemma_contains_trans(replace_spec(ls[2], "vec!["@, rep), rep, migration_mod);
                }
            }
        }
        lemma_join_contains(edited, "\n"@, 2);
        lemma_contains_trans(join_with(edited, "\n"@), edited[2], migration_mod);
        lemma_contains_concat(join_with(edited, "\n"@), "\n"@, migration_mod);
    }
}

/// A seed row holds its feature id in quotes.
proof fn lemma_row_quotes_id(feature_id: Seq<char>, feature_desc: Seq<char>)
    ensures
        contains_spec(
            "        (\""@ + feature_id + "\", \""@ + feature_desc + "\"),"@,
            "\""@ + feature_id + "\""@,
        ),
{
    reveal_strlit("        (\"");
    reveal_strlit("\", \"");
    reveal_strlit("\"");
    let row = "        (\""@ + feature_id + "\", \""@ + feature_desc + "\"),"@;
    let q = "\""@ + feature_id + "\""@;
    assert(row.subrange(9int, 9int + q.len()) =~= q);
}

/// A features list with an id added holds that id in quotes.
proof fn lemma_with_feature_id_quotes(line: Seq<char>, feature_id: Seq<char>)
    requires
        last_index_spec(line, ']') is Some,
    ensures
        contains_spec(with_feature_id(line, feature_id), "\""@ + feature_id + "\""@),
{
    reveal_strlit(", \"");
    reveal_strlit("\"");
    lemma_last_index_in_range(line, ']');
    let pos = last_index_spec(line, ']')->0;
    let q = "\""@ + feature_id + "\""@;
    let t = with_feature_id(line, feature_id);
    assert(t.subrange(pos + 2, pos + 2 + q.len()) =~= q);
}

/// Registering a feature twice changes nothing the second time, in a seed that has its
/// features data block.
pub proof fn law_register_rbac_feature_idempotent(content: Seq<char>, feature_id: Seq<char>, feature_desc: Seq<char>)
    requires
        seed_insert_index(lines_spec(content)) is Some,
    ensures
        register_rbac_feature_spec(content, feature_id, feature_desc) matches Some(c2) ==> register_rbac_feature_spec(
            c2,
            feature_id,
            feature_desc,
        ) is None,
{
    let q = "\""@ + feature_id + "\""@;
    if !contains_spec(content, q) {
        let ls0 = lines_spec(content);
        let j = first_containing(ls0, "let features_data = vec!["@, 0)->0;
        lemma_first_in_range(ls0, "let features_data = vec!["@, 0);
        lemma_closing_in_range(ls0, j + 1);
        let idx = seed_insert_index(ls0)->0;
        let row = "        (\""@ + feature_id + "\", \""@ + feature_desc + "\"),"@;
        let ls1 = ls0.insert(idx, row);
        lemma_row_quotes_id(feature_id, feature_desc);
        lemma_first_in_range(ls1, "let features = vec!["@, 0);
        let ls2 = match first_containing(ls1, "let features = vec!["@, 0) {
            Some(i) => ls1.update(i, with_feature_id(ls1[i], feature_id)),
            None => ls1,
        };
        assert(contains_spec(ls2[idx], q)) by {
            if let Some(i) = first_containing(ls1, "let features = vec!["@, 0) {
                if i == idx && last_index_spec(row, ']') is Some {
                    lemma_with_feature_id_quotes(row, feature_id);
                }
            }
        }
        lemma_join_contains(ls2, "\n"@, idx);
        lemma_contains_trans(join_with(ls2, "\n"@), ls2[idx], q);
        lemma_contains_concat(join_with(ls2, "\n"@), "\n"@, q);
    }
}

/// The merge replacement keeps a registered import: the merge pattern cannot overlap it.
proof fn lemma_merge_keeps_import(t: Seq<char>, api: Seq<char>, rep: Seq<char>)
    requires
        contains_spec(t, "product::ProductApi, "@ + api + ","@),
        !contains_spec(api + ","@, "ProductApi::openapi(),"@),
    ensures
        contains_spec(replace_spec(t, "ProductApi::openapi(),"@, rep), "product::ProductApi, "@ + api + ","@),
{
    reveal_strlit("product::ProductApi, ");
    reveal_strlit("ProductApi::openapi(),");
    reveal_strlit(",");
    let p = "product::ProductApi, "@;
    let m = "ProductApi::openapi(),"@;
    let y = api + ","@;
    let x = p + api + ","@;
    assert(x =~= p + y);
    assert(x[0] == 'p' && x[1] == 'r');
    assert(x[x.len() - 1] == ',');
    assert(!contains_spec(x, m)) by {
        if contains_spec(x, m) {
            let j = choose|j: int| 0 <= j <= x.len() - m.len() && #[trigger] x.subrange(j, j + m.len()) == m;
            if j >= 21 {
                assert(y.subrange(j - 21, j - 21 + m.len()) =~= x.subrange(j, j + m.len()));
            } else {
                assert(x.subrange(j, j + m.len())[0] == x[j]);
                if j == 9 {
                    assert(x.subrange(j, j + m.len())[10] == x[19]);
                }
            }
        }
    }
    assert forall|k: int| 0 < k < m.len() implies !#[trigger] agree_at_start(m.skip(k), x) by {
        if agree_at_start(m.skip(k), x) {
            let mm = m.len() - k;
            assert(m.skip(k).take(mm)[0] == x.take(mm)[0]);
            if k < 21 {
                assert(m.skip(k).take(mm)[1] == x.take(mm)[1]);
            }
        }
    }
    assert forall|k: int| 0 < k < m.len() && k <= x.len() implies #[trigger] m.take(k) != x.skip(x.len() - k) by {
        if m.take(k) == x.skip(x.len() - k) {
            assert(m.take(k)[k - 1] == x.skip(x.len() - k)[k - 1]);
        }
    }
    lemma_replace_keeps(t, x, m, rep);
}

/// The tag replacement keeps a registered import: the tag pattern cannot overlap it.
proof fn lemma_tag_keeps_import(t: Seq<char>, api: Seq<char>, rep: Seq<char>)
    requires
        contains_spec(t, "product::ProductApi, "@ + api + ","@),
        !contains_spec(api + ","@, "(name = \"Product\", description = \"Product Catalog & Pricing\"),"@),
        api.len() > 0,
        api.last() == 'i',
    ensures
        contains_spec(
            replace_spec(t, "(name = \"Product\", description = \"Product Catalog & Pricing\"),"@, rep),
            "product::ProductApi, "@ + api + ","@,
        ),
{
    reveal_strlit("product::ProductApi, ");
    reveal_strlit("(name = \"Product\", description = \"Product Catalog & Pricing\"),");
    reveal_strlit(",");
    let p = "product::ProductApi, "@;
    let g = "(name = \"Product\", description = \"Product Catalog & Pricing\"),"@;
    let y = api + ","@;
    let x = p + api + ","@;
    assert(x =~= p + y);
    assert(x[0] == 'p' && x[1] == 'r');
    assert(x[x.len() - 1] == ',');
    assert(x[x.len() - 2] == 'i');
    assert(!contains_spec(x, g)) by {
        if contains_spec(x, g) {
            let j = choose|j: int| 0 <= j <= x.len() - g.len() && #[trigger] x.subrange(j, j + g.len()) == g;
            if j >= 21 {
                assert(y.subrange(j - 21, j - 21 + g.len()) =~= x.subrange(j, j + g.len()));
            } else {
                assert(x.subrange(j, j + g.len())[0] == x[j]);
            }
        }
    }
    assert forall|k: int| 0 < k < g.len() implies !#[trigger] agree_at_start(g.skip(k), x) by {
        if agree_at_start(g.skip(k), x) {
            let mm = if g.len() - k < x.len() {
                g.len() - k
            } else {
                x.len() as int
            };
            assert(g.skip(k).take(mm)[0] == x.take(mm)[0]);
            if k < 61 {
                assert(g.skip(k).take(mm)[1] == x.take(mm)[1]);
            }
        }
    }
    assert forall|k: int| 0 < k < g.len() && k <= x.len() implies #[trigger] g.take(k) != x.skip(x.len() - k) by {
        if g.take(k) == x.skip(x.len() - k) {
            assert(g.take(k)[k - 1] == x.skip(x.len() - k)[k - 1]);
            if k >= 2 {
                assert(g.take(k)[k - 2] == x.skip(x.len() - k)[k - 2]);
            }
        }
    }
    lemma_replace_keeps(t, x, g, rep);
}

/// Registering an entity's API documentation twice changes nothing the second time, where
/// the module imports the product API and the new import does not itself hold the merge or
/// tag pattern.
pub proof fn law_register_observability_idempotent(
    content: Seq<char>,
    entity_name: Seq<char>,
    slug: Seq<char>,
    feature_name: Seq<char>,
    feature_desc: Seq<char>,
)
    requires
        contains_spec(content, "product::ProductApi,"@),
        !contains_spec(slug + "::"@ + entity_name + "Api"@ + ","@, "ProductApi::openapi(),"@),
        !contains_spec(
            slug + "::"@ + entity_name + "Api"@ + ","@,
            "(name = \"Product\", description = \"Product Catalog & Pricing\"),"@,
        ),
    ensures
        register_observability_spec(content, entity_name, slug, feature_name, feature_desc) matches Some(c2)
            ==> register_observability_spec(c2, entity_name, slug, feature_name, feature_desc) is None,
{
    let api = slug + "::"@ + entity_name + "Api"@;
    if !contains_spec(content, api) {
        reveal_strlit("product::ProductApi,");
        reveal_strlit("Api");
        let tag = "(name = \"Product\", description = \"Product Catalog & Pricing\"),"@;
        let x = "product::ProductApi, "@ + api + ","@;
        let step1 = replace_spec(content, "product::ProductApi,"@, x);
        lemma_replace_present(content, "product::ProductApi,"@, x);
        let new_merge = "ProductApi::openapi(),\n        "@ + entity_name + "Api::openapi(),"@;
        lemma_merge_keeps_import(step1, api, new_merge);
        let step2 = replace_spec(step1, "ProductApi::openapi(),"@, new_merge);
        let new_tag = tag + "\n        (name = \""@ + feature_name + "\", description = \""@ + feature_desc + "\"),"@;
        lemma_tag_keeps_import(step2, api, new_tag);
        let step3 = replace_spec(step2, tag, new_tag);
        lemma_contains_self(api);
        lemma_contains_concat("product::ProductApi, "@, api, api);
        lemma_contains_concat("product::ProductApi, "@ + api, ","@, api);
        lemma_contains_trans(step3, x, api);
    }
}

} // verus!

use vstd::prelude::*;
use crate::numbers::str_equal;
use crate::text::{
    char_to_lowercase, char_to_uppercase, lemma_split_nonempty, split, split_spec, starts_with,
    starts_with_spec, substring, to_lowercase, unicode_char_lowercase, unicode_char_uppercase,
    unicode_lowercase,
};

verus! {

/// A column of a generated entity: its name, its Rust type (`Option<..>` when it may be
/// null), whether it holds long text, and whether it may be null.
#[derive(Debug, Clone)]
pub struct Field {
    pub name: String,
    pub rust_type: String,
    pub is_text: bool,
    pub is_nullable: bool,
}

/// The mathematical form of a column.
pub ghost struct FieldSpec {
    pub name: Seq<char>,
    pub rust_type: Seq<char>,
    pub is_text: bool,
    pub is_nullable: bool,
}

impl View for Field {
    type V = FieldSpec;

    open spec fn view(&self) -> FieldSpec {
        FieldSpec {
            name: self.name@,
            rust_type: self.rust_type@,
            is_text: self.is_text,
            is_nullable: self.is_nullable,
        }
    }
}

/// The views of a list of columns.
pub open spec fn fields_view(fields: Seq<Field>) -> Seq<FieldSpec> {
    fields.map_values(|f: Field| f@)
}

/// The type inside `Option<..>`, or the type itself when it is not optional.
pub open spec fn base_type_of(t: Seq<char>) -> Seq<char> {
    if starts_with_spec(t, "Option<"@) {
        t.subrange(7, t.len() - 1)
    } else {
        t
    }
}

/// An optional type whose inner type can be cut out: it has something after `Option<`
/// and ends in a one-byte character.
pub open spec fn type_well_formed(t: Seq<char>) -> bool {
    starts_with_spec(t, "Option<"@) ==> t.len() >= 8 && (t.last() as int) < 128
}

/// Every column's type can be cut out.
pub open spec fn fields_well_formed(fs: Seq<FieldSpec>) -> bool {
    forall|i: int| 0 <= i < fs.len() ==> #[trigger] type_well_formed(fs[i].rust_type)
}

impl Field {
    /// The column's type without its `Option<..>`.
    pub fn base_type(&self) -> (r: &str)
        requires
            type_well_formed(self.rust_type@),
        ensures
            r@ == base_type_of(self.rust_type@),
    {
        proof {
            reveal_strlit("Option<");
        }
        if starts_with(self.rust_type.as_str(), "Option<") {
            let n = self.rust_type.as_str().unicode_len();
            self.rust_type.as_str().substring_char(7, n - 1)
        } else {
            self.rust_type.as_str()
        }
    }
}

/// The columns that every entity has and that the generator adds by itself.
pub open spec fn is_core_field(lower: Seq<char>) -> bool {
    lower == "id"@ || lower == "active"@ || lower == "created_at"@ || lower == "updated_at"@ || lower
        == "is_deleted"@ || lower == "deleted_at"@
}

/// The Rust type that a field type named on the command line stands for.
pub open spec fn rust_base_type(raw: Seq<char>) -> Seq<char> {
    if raw == "int"@ {
        "i32"@
    } else if raw == "bool"@ {
        "bool"@
    } else if raw == "decimal"@ {
        "Decimal"@
    } else if raw == "float"@ {
        "f64"@
    } else if raw == "date"@ {
        "DateTimeWithTimeZone"@
    } else {
        "String"@
    }
}

/// The Rust type of a column: its base type, inside `Option<..>` when it may be null.
pub open spec fn column_type(base: Seq<char>, nullable: bool) -> Seq<char> {
    if nullable {
        "Option<"@ + base + ">"@
    } else {
        base
    }
}

/// The column that one `name:type[:nullability]` argument describes, if any: arguments
/// without a type, and the core columns, give none. A column may be null unless its third
/// part is `notnull` or `required` (in any case).
pub open spec fn parse_field_spec(arg: Seq<char>) -> Option<FieldSpec> {
    let parts = split_spec(arg, ':');
    if parts.len() < 2 || is_core_field(unicode_lowercase(parts[0])) {
        None
    } else {
        let raw = unicode_lowercase(parts[1]);
        let nullable = if parts.len() >= 3 {
            let n = unicode_lowercase(parts[2]);
            n != "notnull"@ && n != "required"@
        } else {
            true
        };
        Some(
            FieldSpec {
                name: parts[0],
                rust_type: column_type(rust_base_type(raw), nullable),
                is_text: raw == "text"@,
                is_nullable: nullable,
            },
        )
    }
}

/// The columns that a list of arguments describes, in order.
pub open spec fn parsed_fields(args: Seq<Seq<char>>) -> Seq<FieldSpec>
    decreases args.len(),
{
    if args.len() == 0 {
        Seq::empty()
    } else {
        let rest = parsed_fields(args.drop_last());
        match parse_field_spec(args.last()) {
            Some(f) => rest.push(f),
            None => rest,
        }
    }
}

/// Parsing never yields a core column: every column it gives has a name that, in lower
/// case, is none of `id`, `active`, `created_at`, `updated_at`, `is_deleted`, `deleted_at`.
pub proof fn law_parsed_fields_skip_core(args: Seq<Seq<char>>, i: int)
    requires
        0 <= i < parsed_fields(args).len(),
    ensures
        !is_core_field(unicode_lowercase(parsed_fields(args)[i].name)),
    decreases args.len(),
{
    if args.len() > 0 {
        let rest = parsed_fields(args.drop_last());
        if i < rest.len() {
            law_parsed_fields_skip_core(args.drop_last(), i);
            match parse_field_spec(args.last()) {
                Some(f) => assert(parsed_fields(args)[i] == rest[i]),
                None => {},
            }
        }
    }
}

/// The Rust type for a field type name.
fn base_rust_type(raw: &str) -> (r: &'static str)
    ensures
        r@ == rust_base_type(raw@),
{
    if str_equal(raw, "int") {
        "i32"
    } else if str_equal(raw, "bool") {
        "bool"
    } else if str_equal(raw, "decimal") {
        "Decimal"
    } else if str_equal(raw, "float") {
        "f64"
    } else if str_equal(raw, "date") {
        "DateTimeWithTimeZone"
    } else {
        "String"
    }
}

/// Whether a lowercased name is one of the core columns.
fn core_field(lower: &str) -> (r: bool)
    ensures
        r == is_core_field(lower@),
{
    str_equal(lower, "id") || str_equal(lower, "active") || str_equal(lower, "created_at") || str_equal(
        lower,
        "updated_at",
    ) || str_equal(lower, "is_deleted") || str_equal(lower, "deleted_at")
}

/// Whether a field name, in lowercase, is one of the core columns that every entity has.
pub fn is_reserved_field_name(name: &str) -> (r: bool)
    ensures
        r == is_core_field(unicode_lowercase(name@)),
{
    let lower = to_lowercase(name);
    core_field(lower.as_str())
}

/// The Rust type of a column, as text.
fn make_column_type(base: &str, nullable: bool) -> (r: String)
    ensures
        r@ == column_type(base@, nullable),
{
    if nullable {
        let mut s = String::from_str("Option<");
        s.append(base);
        s.append(">");
        s
    } else {
        base.to_string()
    }
}

/// Every type that the generator writes can be cut out.
proof fn lemma_column_type_well_formed(raw: Seq<char>, nullable: bool)
    ensures
        type_well_formed(column_type(rust_base_type(raw), nullable)),
{
    reveal_strlit("Option<");
    reveal_strlit(">");
    reveal_strlit("i32");
    reveal_strlit("bool");
    reveal_strlit("Decimal");
    reveal_strlit("f64");
    reveal_strlit("DateTimeWithTimeZone");
    reveal_strlit("String");
    let t = column_type(rust_base_type(raw), nullable);
    if !nullable {
        let b = rust_base_type(raw);
        assert(b.len() >= 3 && b[0] != 'O');
        if starts_with_spec(t, "Option<"@) {
            assert(t.take(7)[0] == "Option<"@[0]);
        }
    }
}

/// The column one argument describes.
fn parse_field(arg: &str) -> (r: Option<Field>)
    ensures
        match r {
            Some(f) => parse_field_spec(arg@) == Some(f@),
            None => parse_field_spec(arg@) is None,
        },
{
    let parts = split(arg, ':');
    if parts.len() < 2 {
        return None;
    }
    let name_lower = to_lowercase(parts[0].as_str());
    if core_field(name_lower.as_str()) {
        return None;
    }
    let raw_type = to_lowercase(parts[1].as_str());
    let is_nullable = if parts.len() >= 3 {
        let n_part = to_lowercase(parts[2].as_str());
        !str_equal(n_part.as_str(), "notnull") && !str_equal(n_part.as_str(), "required")
    } else {
        true
    };
    let is_text = str_equal(raw_type.as_str(), "text");
    let base = base_rust_type(raw_type.as_str());
    let rust_type = make_column_type(base, is_nullable);
    Some(Field { name: parts[0].clone(), rust_type, is_text, is_nullable })
}

/// The columns described by command-line arguments of the form `name:type[:nullability]`,
/// in order; arguments without a type and the core columns are skipped.
pub fn parse_fields(args: &[String]) -> (r: Vec<Field>)
    ensures
        fields_view(r@) == parsed_fields(args@.map_values(|s: String| s@)),
        fields_well_formed(fields_view(r@)),
{
    let ghost av = args@.map_values(|s: String| s@);
    let mut fields: Vec<Field> = Vec::new();
    let mut i: usize = 0;
    while i < args.len()
        invariant
            av == args@.map_values(|s: String| s@),
            i <= args@.len(),
            fields_view(fields@) == parsed_fields(av.take(i as int)),
            fields_well_formed(fields_view(fields@)),
        decreases args@.len() - i,
    {
        let f = parse_field(args[i].as_str());
        proof {
            assert(av.take(i + 1).drop_last() =~= av.take(i as int));
            assert(av.take(i + 1).last() == args@[i as int]@);
        }
        match f {
            Some(field) => {
                proof {
                    let parts = split_spec(args@[i as int]@, ':');
                    let raw = unicode_lowercase(parts[1]);
                    let nullable = if parts.len() >= 3 {
                        let n = unicode_lowercase(parts[2]);
                        n != "notnull"@ && n != "required"@
                    } else {
                        true
                    };
                    lemma_column_type_well_formed(raw, nullable);
                }
                fields.push(field);
                proof {
                    assert(fields_view(fields@) =~= parsed_fields(av.take(i as int)).push(field@));
                }
            },
            None => {},
        }
        i = i + 1;
    }
    proof {
        assert(av.take(args@.len() as int) =~= av);
    }
    fields
}

/// The field types offered when columns are entered one by one, in menu order.
pub open spec fn field_type_menu() -> Seq<Seq<char>> {
    seq!["string"@, "text"@, "int"@, "bool"@, "decimal"@, "float"@, "date"@]
}

/// The column chosen in the interactive menus: the type at `type_index` of the type menu,
/// nullable when the first nullability entry was chosen. A core column gives none.
pub fn field_from_choice(name: String, type_index: usize, nullability_index: usize) -> (r: Option<Field>)
    requires
        type_index < 7,
    ensures
        is_core_field(unicode_lowercase(name@)) ==> r is None,
        !is_core_field(unicode_lowercase(name@)) ==> (r matches Some(f) && f@ == (FieldSpec {
            name: name@,
            rust_type: column_type(rust_base_type(field_type_menu()[type_index as int]), nullability_index == 0),
            is_text: field_type_menu()[type_index as int] == "text"@,
            is_nullable: nullability_index == 0,
        })),
{
    let lower = to_lowercase(name.as_str());
    if core_field(lower.as_str()) {
        return None;
    }
    let raw_type = if type_index == 0 {
        "string"
    } else if type_index == 1 {
        "text"
    } else if type_index == 2 {
        "int"
    } else if type_index == 3 {
        "bool"
    } else if type_index == 4 {
        "decimal"
    } else if type_index == 5 {
        "float"
    } else {
        "date"
    };
    let is_nullable = nullability_index == 0;
    let is_text = str_equal(raw_type, "text");
    let rust_type = make_column_type(base_rust_type(raw_type), is_nullable);
    Some(Field { name, rust_type, is_text, is_nullable })
}

/// The pieces of a list joined end to end.
pub open spec fn concat_all(xs: Seq<Seq<char>>) -> Seq<char>
    decreases xs.len(),
{
    if xs.len() == 0 {
        Seq::empty()
    } else {
        concat_all(xs.drop_last()) + xs.last()
    }
}

/// Joining one more piece appends it.
pub proof fn lemma_concat_all_step(xs: Seq<Seq<char>>, i: int)
    requires
        0 <= i < xs.len(),
    ensures
        concat_all(xs.take(i + 1)) == concat_all(xs.take(i)) + xs[i],
{
    assert(xs.take(i + 1).drop_last() =~= xs.take(i));
}

/// A word with its first character in upper case.
pub open spec fn capitalized(w: Seq<char>) -> Seq<char> {
    if w.len() == 0 {
        w
    } else {
        unicode_char_uppercase(w[0]) + w.skip(1)
    }
}

/// `snake_case` to `PascalCase`: the words between underscores, each capitalized, joined.
pub open spec fn pascal_case(s: Seq<char>) -> Seq<char> {
    concat_all(split_spec(s, '_').map_values(|w: Seq<char>| capitalized(w)))
}

/// `snake_case` to `camelCase`: the Pascal form with its first character in lower case.
pub open spec fn camel_case(s: Seq<char>) -> Seq<char> {
    let p = pascal_case(s);
    if p.len() == 0 {
        p
    } else {
        unicode_char_lowercase(p[0]) + p.skip(1)
    }
}

/// `snake_case` to `PascalCase`.
pub fn to_pascal_case(s: &str) -> (r: String)
    ensures
        r@ == pascal_case(s@),
{
    let words = split(s, '_');
    let ghost ws = split_spec(s@, '_').map_values(|w: Seq<char>| capitalized(w));
    let mut out = String::new();
    let mut i: usize = 0;
    while i < words.len()
        invariant
            words@.len() == split_spec(s@, '_').len(),
            forall|k: int| 0 <= k < words@.len() ==> #[trigger] words@[k]@ == split_spec(s@, '_')[k],
            ws == split_spec(s@, '_').map_values(|w: Seq<char>| capitalized(w)),
            i <= words@.len(),
            out@ == concat_all(ws.take(i as int)),
        decreases words@.len() - i,
    {
        let w = words[i].as_str();
        let n = w.unicode_len();
        proof {
            lemma_concat_all_step(ws, i as int);
            assert(ws[i as int] == capitalized(w@));
        }
        if n > 0 {
            let first = char_to_uppercase(w.get_char(0));
            let rest = substring(w, 1, n);
            out.append(first.as_str());
            out.append(rest.as_str());
            proof {
                assert(w@.skip(1) =~= w@.subrange(1, n as int));
            }
        } else {
            proof {
                assert(capitalized(w@) =~= Seq::<char>::empty());
            }
        }
        i = i + 1;
    }
    proof {
        assert(ws.take(words@.len() as int) =~= ws);
    }
    out
}

/// `snake_case` to `camelCase`.
pub fn to_camel_case(s: &str) -> (r: String)
    ensures
        r@ == camel_case(s@),
{
    let pascal = to_pascal_case(s);
    let n = pascal.as_str().unicode_len();
    if n == 0 {
        return pascal;
    }
    let first = char_to_lowercase(pascal.as_str().get_char(0));
    let rest = substring(pascal.as_str(), 1, n);
    let mut out = first;
    out.append(rest.as_str());
    proof {
        assert(pascal@.skip(1) =~= pascal@.subrange(1, n as int));
    }
    out
}


/// The kinds of line that the generator writes once per column.
#[derive(Debug, Clone, Copy, PartialEq, Eq, Structural)]
pub enum LineKind {
    /// `pub name: Type,` in a struct.
    Declaration,
    /// `name: p.name,` in the conversion from the model to the response.
    ModelMapping,
    /// `name: Set(payload.name),` in the creation of a record.
    CreateMapping,
    /// `active_item.name = Set(payload.name);` in the update of a record.
    UpdateMapping,
    /// A filter on the column, for every type but dates.
    Filter,
    /// The pair of date-range filters, for date columns only.
    DateRangeFilter,
    /// A text search on the column, for text columns only.
    Search,
    /// An ordering by the column.
    Order,
    /// The column's definition in the table migration.
    MigrationColumn,
}

/// The SQL type of a column in the migration.
pub open spec fn sql_type(f: FieldSpec) -> Seq<char> {
    let b = base_type_of(f.rust_type);
    if b == "String"@ {
        if f.is_text || f.name == "description"@ {
            "TEXT"@
        } else {
            "VARCHAR(255)"@
        }
    } else if b == "i32"@ {
        "INTEGER DEFAULT 0"@
    } else if b == "bool"@ {
        "BOOLEAN DEFAULT TRUE"@
    } else if b == "Decimal"@ {
        "NUMERIC(10, 2)"@
    } else if b == "f64"@ {
        "DOUBLE PRECISION"@
    } else if b == "DateTimeWithTimeZone"@ {
        "TIMESTAMP WITH TIME ZONE"@
    } else {
        "VARCHAR(255)"@
    }
}

/// `"camel", (Entity, Column::Pascal)` for a column.
pub open spec fn column_ref(f: FieldSpec) -> Seq<char> {
    "\""@ + camel_case(f.name) + "\", (Entity, Column::"@ + pascal_case(f.name) + ")"@
}

/// The line of a given kind that the generator writes for a column (empty where that
/// kind does not apply to the column's type).
pub open spec fn line_of(kind: LineKind, f: FieldSpec) -> Seq<char> {
    let b = base_type_of(f.rust_type);
    match kind {
        LineKind::Declaration => "    pub "@ + f.name + ": "@ + f.rust_type + ",\n"@,
        LineKind::ModelMapping => "            "@ + f.name + ": p."@ + f.name + ",\n"@,
        LineKind::CreateMapping => "            "@ + f.name + ": Set(payload."@ + f.name + "),\n"@,
        LineKind::UpdateMapping => "        active_item."@ + f.name + " = Set(payload."@ + f.name + ");\n"@,
        LineKind::Filter => if b == "DateTimeWithTimeZone"@ {
            Seq::empty()
        } else if b == "String"@ {
            "            FilterDefinition::contains("@ + column_ref(f) + "),\n"@
        } else if b == "bool"@ {
            "            FilterDefinition::boolean("@ + column_ref(f) + "),\n"@
        } else {
            "            FilterDefinition::equals("@ + column_ref(f) + "),\n"@
        },
        LineKind::DateRangeFilter => if b == "DateTimeWithTimeZone"@ {
            "        filter_defs.extend(FilterDefinition::date_range("@ + column_ref(f) + "));\n"@
        } else {
            Seq::empty()
        },
        LineKind::Search => if b == "String"@ {
            "        SearchDefinition::contains("@ + column_ref(f) + "),\n"@
        } else {
            Seq::empty()
        },
        LineKind::Order => if b == "String"@ {
            "        OrderDefinition::case_insensitive("@ + column_ref(f) + "),\n"@
        } else {
            "        OrderDefinition::column("@ + column_ref(f) + "),\n"@
        },
        LineKind::MigrationColumn => "                "@ + f.name + " "@ + sql_type(f) + (if f.is_nullable {
            ""@
        } else {
            " NOT NULL"@
        }) + ",\n"@,
    }
}

/// The lines of a given kind for all the columns, in order.
pub open spec fn lines_of(kind: LineKind, fs: Seq<FieldSpec>) -> Seq<char> {
    concat_all(fs.map_values(|f: FieldSpec| line_of(kind, f)))
}

fn sql_type_text(f: &Field) -> (r: &'static str)
    requires
        type_well_formed(f.rust_type@),
    ensures
        r@ == sql_type(f@),
{
    let b = f.base_type();
    if str_equal(b, "String") {
        if f.is_text || str_equal(f.name.as_str(), "description") {
            "TEXT"
        } else {
            "VARCHAR(255)"
        }
    } else if str_equal(b, "i32") {
        "INTEGER DEFAULT 0"
    } else if str_equal(b, "bool") {
        "BOOLEAN DEFAULT TRUE"
    } else if str_equal(b, "Decimal") {
        "NUMERIC(10, 2)"
    } else if str_equal(b, "f64") {
        "DOUBLE PRECISION"
    } else if str_equal(b, "DateTimeWithTimeZone") {
        "TIMESTAMP WITH TIME ZONE"
    } else {
        "VARCHAR(255)"
    }
}

fn push_column_ref(out: &mut String, f: &Field)
    ensures
        final(out)@ == old(out)@ + column_ref(f@),
{
    let camel = to_camel_case(f.name.as_str());
    let pascal = to_pascal_case(f.name.as_str());
    out.append("\"");
    out.append(camel.as_str());
    out.append("\", (Entity, Column::");
    out.append(pascal.as_str());
    out.append(")");
}

/// The line of a given kind for one column.
fn make_line(kind: LineKind, f: &Field) -> (r: String)
    requires
        type_well_formed(f.rust_type@),
    ensures
        r@ == line_of(kind, f@),
{
    let b = f.base_type();
    let mut s = String::new();
    match kind {
        LineKind::Declaration => {
            s.append("    pub ");
            s.append(f.name.as_str());
            s.append(": ");
            s.append(f.rust_type.as_str());
            s.append(",\n");
        },
        LineKind::ModelMapping => {
            s.append("            ");
            s.append(f.name.as_str());
            s.append(": p.");
            s.append(f.name.as_str());
            s.append(",\n");
        },
        LineKind::CreateMapping => {
            s.append("            ");
            s.append(f.name.as_str());
            s.append(": Set(payload.");
            s.append(f.name.as_str());
            s.append("),\n");
        },
        LineKind::UpdateMapping => {
            s.append("        active_item.");
            s.append(f.name.as_str());
            s.append(" = Set(payload.");
            s.append(f.name.as_str());
            s.append(");\n");
        },
        LineKind::Filter => {
            if str_equal(b, "DateTimeWithTimeZone") {
            } else {
                if str_equal(b, "String") {
                    s.append("            FilterDefinition::contains(");
                } else if str_equal(b, "bool") {
                    s.append("            FilterDefinition::boolean(");
                } else {
                    s.append("            FilterDefinition::equals(");
                }
                push_column_ref(&mut s, f);
                s.append("),\n");
            }
        },
        LineKind::DateRangeFilter => {
            if str_equal(b, "DateTimeWithTimeZone") {
                s.append("        filter_defs.extend(FilterDefinition::date_range(");
                push_column_ref(&mut s, f);
                s.append("));\n");
            }
        },
        LineKind::Search => {
            if str_equal(b, "String") {
                s.append("        SearchDefinition::contains(");
                push_column_ref(&mut s, f);
                s.append("),\n");
            }
        },
        LineKind::Order => {
            if str_equal(b, "String") {
                s.append("        OrderDefinition::case_insensitive(");
            } else {
                s.append("        OrderDefinition::column(");
            }
            push_column_ref(&mut s, f);
            s.append("),\n");
        },
        LineKind::MigrationColumn => {
            s.append("                ");
            s.append(f.name.as_str());
            s.append(" ");
            s.append(sql_type_text(f));
            if f.is_nullable {
                s.append("");
            } else {
                s.append(" NOT NULL");
            }
            s.append(",\n");
        },
    }
    s
}

/// The lines of a given kind for all the columns, appended to `out`.
fn push_lines(out: &mut String, kind: LineKind, fields: &[Field])
    requires
        fields_well_formed(fields_view(fields@)),
    ensures
        final(out)@ == old(out)@ + lines_of(kind, fields_view(fields@)),
{
    let ghost ls = fields_view(fields@).map_values(|f: FieldSpec| line_of(kind, f));
    let ghost start = out@;
    let mut i: usize = 0;
    while i < fields.len()
        invariant
            fields_well_formed(fields_view(fields@)),
            ls == fields_view(fields@).map_values(|f: FieldSpec| line_of(kind, f)),
            i <= fields@.len(),
            out@ == start + concat_all(ls.take(i as int)),
        decreases fields@.len() - i,
    {
        proof {
            assert(fields_view(fields@)[i as int] == fields@[i as int]@);
            assert(type_well_formed(fields_view(fields@)[i as int].rust_type));
            lemma_concat_all_step(ls, i as int);
        }
        let line = make_line(kind, &fields[i]);
        out.append(line.as_str());
        i = i + 1;
    }
    proof {
        assert(ls.take(fields@.len() as int) =~= ls);
    }
}

/// The pieces of a list with `sep` between each two.
pub open spec fn join_with(xs: Seq<Seq<char>>, sep: Seq<char>) -> Seq<char>
    decreases xs.len(),
{
    if xs.len() == 0 {
        Seq::empty()
    } else if xs.len() == 1 {
        xs[0]
    } else {
        join_with(xs.drop_last(), sep) + sep + xs.last()
    }
}

/// The strings of a list with `sep` between each two, as std's `join` gives them.
pub fn join(items: &Vec<String>, sep: &str) -> (r: String)
    ensures
        r@ == join_with(items@.map_values(|s: String| s@), sep@),
{
    let ghost xs = items@.map_values(|s: String| s@);
    let mut out = String::new();
    let mut i: usize = 0;
    while i < items.len()
        invariant
            xs == items@.map_values(|s: String| s@),
            i <= items@.len(),
            out@ == join_with(xs.take(i as int), sep@),
        decreases items@.len() - i,
    {
        proof {
            assert(xs.take(i + 1).drop_last() =~= xs.take(i as int));
            assert(xs.take(i + 1).last() == items@[i as int]@);
        }
        if i > 0 {
            out.append(sep);
        }
        out.append(items[i].as_str());
        proof {
            if i == 0 {
                assert(out@ =~= xs.take(1)[0]);
            }
        }
        i = i + 1;
    }
    proof {
        assert(xs.take(items@.len() as int) =~= xs);
    }
    out
}

/// The fields of the entity model: the key, the columns, then the bookkeeping columns.
pub fn generate_fields_model(fields: &[Field]) -> (r: String)
    requires
        fields_well_formed(fields_view(fields@)),
    ensures
        r@ == "    #[sea_orm(primary_key, auto_increment = false)]\n"@ + "    pub id: String,\n"@ + lines_of(
            LineKind::Declaration,
            fields_view(fields@),
        ) + "    pub active: bool,\n"@ + "    pub created_at: DateTimeWithTimeZone,\n"@
            + "    pub updated_at: DateTimeWithTimeZone,\n"@ + "    pub is_deleted: Option<bool>,\n"@
            + "    pub deleted_at: Option<DateTimeWithTimeZone>,\n"@,
{
    let mut s = String::new();
    s.append("    #[sea_orm(primary_key, auto_increment = false)]\n");
    s.append("    pub id: String,\n");
    push_lines(&mut s, LineKind::Declaration, fields);
    s.append("    pub active: bool,\n");
    s.append("    pub created_at: DateTimeWithTimeZone,\n");
    s.append("    pub updated_at: DateTimeWithTimeZone,\n");
    s.append("    pub is_deleted: Option<bool>,\n");
    s.append("    pub deleted_at: Option<DateTimeWithTimeZone>,\n");
    s
}

/// The fields of the creation payload: the columns.
pub fn generate_fields_create(fields: &[Field]) -> (r: String)
    requires
        fields_well_formed(fields_view(fields@)),
    ensures
        r@ == lines_of(LineKind::Declaration, fields_view(fields@)),
{
    let mut s = String::new();
    push_lines(&mut s, LineKind::Declaration, fields);
    s
}

/// The fields of the update payload: the columns, then the active switch.
pub fn generate_fields_update(fields: &[Field]) -> (r: String)
    requires
        fields_well_formed(fields_view(fields@)),
    ensures
        r@ == lines_of(LineKind::Declaration, fields_view(fields@)) + "    pub active: Option<bool>,\n"@,
{
    let mut s = String::new();
    push_lines(&mut s, LineKind::Declaration, fields);
    s.append("    pub active: Option<bool>,\n");
    s
}

/// The fields of the response: the key, the columns, the active switch and the dates.
pub fn generate_fields_response(fields: &[Field]) -> (r: String)
    requires
        fields_well_formed(fields_view(fields@)),
    ensures
        r@ == "    pub id: String,\n"@ + lines_of(LineKind::Declaration, fields_view(fields@))
            + "    pub active: bool,\n"@ + "    pub created_at: String,\n"@ + "    pub updated_at: String,\n"@,
{
    let mut s = String::new();
    s.append("    pub id: String,\n");
    push_lines(&mut s, LineKind::Declaration, fields);
    s.append("    pub active: bool,\n");
    s.append("    pub created_at: String,\n");
    s.append("    pub updated_at: String,\n");
    s
}

/// The conversion from a stored record to its response.
pub fn generate_response_from_model_mappings(fields: &[Field]) -> (r: String)
    requires
        fields_well_formed(fields_view(fields@)),
    ensures
        r@ == "            id: p.id,\n"@ + lines_of(LineKind::ModelMapping, fields_view(fields@))
            + "            active: p.active,\n"@ + "            created_at: p.created_at.to_rfc3339(),\n"@
            + "            updated_at: p.updated_at.to_rfc3339(),\n"@,
{
    let mut s = String::new();
    s.append("            id: p.id,\n");
    push_lines(&mut s, LineKind::ModelMapping, fields);
    s.append("            active: p.active,\n");
    s.append("            created_at: p.created_at.to_rfc3339(),\n");
    s.append("            updated_at: p.updated_at.to_rfc3339(),\n");
    s
}

/// The filters of the list service: one per non-date column, then the date ranges.
pub fn generate_service_list_filter_definitions(fields: &[Field], _slug: &str) -> (r: String)
    requires
        fields_well_formed(fields_view(fields@)),
    ensures
        r@ == lines_of(LineKind::Filter, fields_view(fields@)) + lines_of(
            LineKind::DateRangeFilter,
            fields_view(fields@),
        ),
{
    let mut s = String::new();
    push_lines(&mut s, LineKind::Filter, fields);
    push_lines(&mut s, LineKind::DateRangeFilter, fields);
    s
}

/// The text searches of the list service, one per text column.
pub fn generate_service_list_search_definitions(fields: &[Field], _slug: &str) -> (r: String)
    requires
        fields_well_formed(fields_view(fields@)),
    ensures
        r@ == lines_of(LineKind::Search, fields_view(fields@)),
{
    let mut s = String::new();
    push_lines(&mut s, LineKind::Search, fields);
    s
}

/// The orderings of the list service, one per column.
pub fn generate_service_list_order_definitions(fields: &[Field], _slug: &str) -> (r: String)
    requires
        fields_well_formed(fields_view(fields@)),
    ensures
        r@ == lines_of(LineKind::Order, fields_view(fields@)),
{
    let mut s = String::new();
    push_lines(&mut s, LineKind::Order, fields);
    s
}

/// The assignments of the creation service, one per column.
pub fn generate_service_create_fields_mappings(fields: &[Field]) -> (r: String)
    requires
        fields_well_formed(fields_view(fields@)),
    ensures
        r@ == lines_of(LineKind::CreateMapping, fields_view(fields@)),
{
    let mut s = String::new();
    push_lines(&mut s, LineKind::CreateMapping, fields);
    s
}

/// The assignments of the update service, one per column.
pub fn generate_service_update_fields_mappings(fields: &[Field]) -> (r: String)
    requires
        fields_well_formed(fields_view(fields@)),
    ensures
        r@ == lines_of(LineKind::UpdateMapping, fields_view(fields@)),
{
    let mut s = String::new();
    push_lines(&mut s, LineKind::UpdateMapping, fields);
    s
}

/// The column definitions of the table migration.
pub fn generate_migration_fields_sql(fields: &[Field]) -> (r: String)
    requires
        fields_well_formed(fields_view(fields@)),
    ensures
        r@ == lines_of(LineKind::MigrationColumn, fields_view(fields@)),
{
    let mut s = String::new();
    push_lines(&mut s, LineKind::MigrationColumn, fields);
    s
}

/// Mapping a prefix one longer maps one more element.
pub proof fn lemma_map_take_step<A, B>(s: Seq<A>, i: int, f: spec_fn(A) -> B)
    requires
        0 <= i < s.len(),
    ensures
        s.take(i + 1).map_values(f) == s.take(i).map_values(f).push(f(s[i])),
{
    assert(s.take(i + 1).map_values(f) =~= s.take(i).map_values(f).push(f(s[i])));
}

/// Mapping a sequence with one more element at its end maps that element too.
pub proof fn lemma_map_push<A, B>(s: Seq<A>, x: A, f: spec_fn(A) -> B)
    ensures
        s.push(x).map_values(f) == s.map_values(f).push(f(x)),
{
    assert(s.push(x).map_values(f) =~= s.map_values(f).push(f(x)));
}

/// A text between double quotes.
pub open spec fn quoted(s: Seq<char>) -> Seq<char> {
    "\""@ + s + "\""@
}

/// The quoted camel-case names of the text columns, searchable from the controller.
pub open spec fn search_field_names(fs: Seq<FieldSpec>) -> Seq<Seq<char>> {
    fs.filter(|f: FieldSpec| base_type_of(f.rust_type) == "String"@).map_values(
        |f: FieldSpec| quoted(camel_case(f.name)),
    )
}

/// The quoted camel-case names of all columns, then the bookkeeping ones, filterable from
/// the controller.
pub open spec fn filter_field_names(fs: Seq<FieldSpec>) -> Seq<Seq<char>> {
    fs.map_values(|f: FieldSpec| quoted(camel_case(f.name))) + seq!["\"active\""@, "\"createdAt\""@, "\"updatedAt\""@]
}

/// The value a test payload gives a column, at creation or at update.
pub open spec fn payload_value(f: FieldSpec, updated: bool) -> Seq<char> {
    let b = base_type_of(f.rust_type);
    if b == "String"@ {
        "\""@ + f.name + (if updated {
            " Updated\""@
        } else {
            " Test\""@
        })
    } else if b == "i32"@ {
        if updated {
            "2"@
        } else {
            "1"@
        }
    } else if b == "f64"@ || b == "Decimal"@ {
        if updated {
            "20.5"@
        } else {
            "10.5"@
        }
    } else if b == "bool"@ {
        if updated {
            "false"@
        } else {
            "true"@
        }
    } else if b == "DateTimeWithTimeZone"@ {
        if updated {
            "\"2026-05-22T01:00:00Z\""@
        } else {
            "\"2026-05-22T00:00:00Z\""@
        }
    } else {
        "\"\""@
    }
}

/// The member of a test payload for a column.
pub open spec fn payload_part(f: FieldSpec, updated: bool) -> Seq<char> {
    "        \""@ + camel_case(f.name) + "\": "@ + payload_value(f, updated)
}

/// The check of a column in a test of the creation (`updated` false) or of the update;
/// empty for a type the generator does not know.
pub open spec fn assert_line(f: FieldSpec, updated: bool) -> Seq<char> {
    let b = base_type_of(f.rust_type);
    let key = "    assert_eq!(body[\""@ + camel_case(f.name);
    let approx = "    assert!((body[\""@ + camel_case(f.name);
    if b == "String"@ {
        key + "\"].as_str().unwrap(), \""@ + f.name + (if updated {
            " Updated\");"@
        } else {
            " Test\");"@
        })
    } else if b == "i32"@ {
        key + (if updated {
            "\"].as_i64().unwrap(), 2);"@
        } else {
            "\"].as_i64().unwrap(), 1);"@
        })
    } else if b == "Decimal"@ {
        approx + (if updated {
            "\"].as_str().unwrap().parse::<f64>().unwrap() - 20.5).abs() < 0.001);"@
        } else {
            "\"].as_str().unwrap().parse::<f64>().unwrap() - 10.5).abs() < 0.001);"@
        })
    } else if b == "f64"@ {
        approx + (if updated {
            "\"].as_f64().unwrap() - 20.5).abs() < 0.001);"@
        } else {
            "\"].as_f64().unwrap() - 10.5).abs() < 0.001);"@
        })
    } else if b == "bool"@ {
        key + (if updated {
            "\"].as_bool().unwrap(), false);"@
        } else {
            "\"].as_bool().unwrap(), true);"@
        })
    } else if b == "DateTimeWithTimeZone"@ {
        "    assert!(body[\""@ + camel_case(f.name) + "\"].as_str().is_some());"@
    } else {
        Seq::empty()
    }
}

/// The checks of all the columns that have one, in order.
pub open spec fn assert_lines(fs: Seq<FieldSpec>, updated: bool) -> Seq<Seq<char>> {
    fs.map_values(|f: FieldSpec| assert_line(f, updated)).filter(|l: Seq<char>| l.len() > 0)
}

fn quoted_camel(f: &Field) -> (r: String)
    ensures
        r@ == quoted(camel_case(f.name@)),
{
    let camel = to_camel_case(f.name.as_str());
    let mut s = String::from_str("\"");
    s.append(camel.as_str());
    s.append("\"");
    s
}

/// The names the controller allows to search by.
pub fn generate_controller_search_fields(fields: &[Field]) -> (r: String)
    requires
        fields_well_formed(fields_view(fields@)),
    ensures
        r@ == join_with(search_field_names(fields_view(fields@)), ", "@),
{
    let ghost fs = fields_view(fields@);
    let ghost keep = |f: FieldSpec| base_type_of(f.rust_type) == "String"@;
    let ghost name_of = |f: FieldSpec| quoted(camel_case(f.name));
    let mut names: Vec<String> = Vec::new();
    let mut i: usize = 0;
    while i < fields.len()
        invariant
            fs == fields_view(fields@),
            fields_well_formed(fs),
            keep == (|f: FieldSpec| base_type_of(f.rust_type) == "String"@),
            name_of == (|f: FieldSpec| quoted(camel_case(f.name))),
            i <= fields@.len(),
            names@.map_values(|s: String| s@) == fs.take(i as int).filter(keep).map_values(name_of),
        decreases fields@.len() - i,
    {
        proof {
            assert(fs[i as int] == fields@[i as int]@);
            assert(type_well_formed(fs[i as int].rust_type));
            assert(fs.take(i + 1) =~= fs.take(i as int).push(fs[i as int]));
            fs.take(i as int).lemma_filter_push(fs[i as int], keep);
        }
        let b = fields[i].base_type();
        if str_equal(b, "String") {
            let q = quoted_camel(&fields[i]);
            proof {
                lemma_map_push(names@, q, |s: String| s@);
                lemma_map_push(fs.take(i as int).filter(keep), fs[i as int], name_of);
            }
            names.push(q);
        }
        i = i + 1;
    }
    proof {
        assert(fs.take(fields@.len() as int) =~= fs);
    }
    join(&names, ", ")
}

/// The names the controller allows to filter by: every column, then `active`,
/// `createdAt` and `updatedAt`.
pub fn generate_controller_filter_fields(fields: &[Field]) -> (r: String)
    ensures
        r@ == join_with(filter_field_names(fields_view(fields@)), ", "@),
{
    let ghost fs = fields_view(fields@);
    let ghost name_of = |f: FieldSpec| quoted(camel_case(f.name));
    let mut names: Vec<String> = Vec::new();
    let mut i: usize = 0;
    while i < fields.len()
        invariant
            fs == fields_view(fields@),
            name_of == (|f: FieldSpec| quoted(camel_case(f.name))),
            i <= fields@.len(),
            names@.map_values(|s: String| s@) == fs.take(i as int).map_values(name_of),
        decreases fields@.len() - i,
    {
        proof {
            assert(fs[i as int] == fields@[i as int]@);
        }
        let q = quoted_camel(&fields[i]);
        proof {
            lemma_map_push(names@, q, |s: String| s@);
            lemma_map_take_step(fs, i as int, name_of);
        }
        names.push(q);
        i = i + 1;
    }
    names.push(String::from_str("\"active\""));
    names.push(String::from_str("\"createdAt\""));
    names.push(String::from_str("\"updatedAt\""));
    proof {
        assert(fs.take(fields@.len() as int) =~= fs);
        assert(names@.map_values(|s: String| s@) =~= filter_field_names(fs));
    }
    join(&names, ", ")
}

fn payload_value_text(f: &Field, updated: bool) -> (r: String)
    requires
        type_well_formed(f.rust_type@),
    ensures
        r@ == payload_value(f@, updated),
{
    let b = f.base_type();
    if str_equal(b, "String") {
        let mut s = String::from_str("\"");
        s.append(f.name.as_str());
        if updated {
            s.append(" Updated\"");
        } else {
            s.append(" Test\"");
        }
        s
    } else if str_equal(b, "i32") {
        if updated {
            String::from_str("2")
        } else {
            String::from_str("1")
        }
    } else if str_equal(b, "f64") || str_equal(b, "Decimal") {
        if updated {
            String::from_str("20.5")
        } else {
            String::from_str("10.5")
        }
    } else if str_equal(b, "bool") {
        if updated {
            String::from_str("false")
        } else {
            String::from_str("true")
        }
    } else if str_equal(b, "DateTimeWithTimeZone") {
        if updated {
            String::from_str("\"2026-05-22T01:00:00Z\"")
        } else {
            String::from_str("\"2026-05-22T00:00:00Z\"")
        }
    } else {
        String::from_str("\"\"")
    }
}

fn payload_part_text(f: &Field, updated: bool) -> (r: String)
    requires
        type_well_formed(f.rust_type@),
    ensures
        r@ == payload_part(f@, updated),
{
    let camel = to_camel_case(f.name.as_str());
    let value = payload_value_text(f, updated);
    let mut s = String::from_str("        \"");
    s.append(camel.as_str());
    s.append("\": ");
    s.append(value.as_str());
    s
}

/// The members of a test payload, one per column.
fn payload_parts(fields: &[Field], updated: bool) -> (r: Vec<String>)
    requires
        fields_well_formed(fields_view(fields@)),
    ensures
        r@.map_values(|s: String| s@) == fields_view(fields@).map_values(|f: FieldSpec| payload_part(f, updated)),
{
    let ghost fs = fields_view(fields@);
    let mut parts: Vec<String> = Vec::new();
    let mut i: usize = 0;
    while i < fields.len()
        invariant
            fs == fields_view(fields@),
            fields_well_formed(fs),
            i <= fields@.len(),
            parts@.map_values(|s: String| s@) == fs.take(i as int).map_values(|f: FieldSpec| payload_part(f, updated)),
        decreases fields@.len() - i,
    {
        proof {
            assert(fs[i as int] == fields@[i as int]@);
            assert(type_well_formed(fs[i as int].rust_type));
        }
        let part = payload_part_text(&fields[i], updated);
        proof {
            lemma_map_push(parts@, part, |s: String| s@);
            lemma_map_take_step(fs, i as int, |f: FieldSpec| payload_part(f, updated));
        }
        parts.push(part);
        i = i + 1;
    }
    proof {
        assert(fs.take(fields@.len() as int) =~= fs);
    }
    parts
}

/// The JSON body of the creation test: one member per column.
pub fn generate_create_payload_json(fields: &[Field]) -> (r: String)
    requires
        fields_well_formed(fields_view(fields@)),
    ensures
        r@ == "{\n"@ + join_with(fields_view(fields@).map_values(|f: FieldSpec| payload_part(f, false)), ",\n"@)
            + "\n    }"@,
{
    let parts = payload_parts(fields, false);
    let body = join(&parts, ",\n");
    let mut s = String::from_str("{\n");
    s.append(body.as_str());
    s.append("\n    }");
    s
}

/// The JSON body of the update test: one member per column, then `active` set to false.
pub fn generate_update_payload_json(fields: &[Field]) -> (r: String)
    requires
        fields_well_formed(fields_view(fields@)),
    ensures
        r@ == "{\n"@ + join_with(
            fields_view(fields@).map_values(|f: FieldSpec| payload_part(f, true)).push("        \"active\": false"@),
            ",\n"@,
        ) + "\n    }"@,
{
    let mut parts = payload_parts(fields, true);
    parts.push(String::from_str("        \"active\": false"));
    proof {
        assert(parts@.map_values(|s: String| s@) =~= fields_view(fields@).map_values(
            |f: FieldSpec| payload_part(f, true),
        ).push("        \"active\": false"@));
    }
    let body = join(&parts, ",\n");
    let mut s = String::from_str("{\n");
    s.append(body.as_str());
    s.append("\n    }");
    s
}

fn assert_line_text(f: &Field, updated: bool) -> (r: String)
    requires
        type_well_formed(f.rust_type@),
    ensures
        r@ == assert_line(f@, updated),
{
    let b = f.base_type();
    let camel = to_camel_case(f.name.as_str());
    let mut s = String::new();
    if str_equal(b, "String") {
        s.append("    assert_eq!(body[\"");
        s.append(camel.as_str());
        s.append("\"].as_str().unwrap(), \"");
        s.append(f.name.as_str());
        if updated {
            s.append(" Updated\");");
        } else {
            s.append(" Test\");");
        }
    } else if str_equal(b, "i32") {
        s.append("    assert_eq!(body[\"");
        s.append(camel.as_str());
        if updated {
            s.append("\"].as_i64().unwrap(), 2);");
        } else {
            s.append("\"].as_i64().unwrap(), 1);");
        }
    } else if str_equal(b, "Decimal") {
        s.append("    assert!((body[\"");
        s.append(camel.as_str());
        if updated {
            s.append("\"].as_str().unwrap().parse::<f64>().unwrap() - 20.5).abs() < 0.001);");
        } else {
            s.append("\"].as_str().unwrap().parse::<f64>().unwrap() - 10.5).abs() < 0.001);");
        }
    } else if str_equal(b, "f64") {
        s.append("    assert!((body[\"");
        s.append(camel.as_str());
        if updated {
            s.append("\"].as_f64().unwrap() - 20.5).abs() < 0.001);");
        } else {
            s.append("\"].as_f64().unwrap() - 10.5).abs() < 0.001);");
        }
    } else if str_equal(b, "bool") {
        s.append("    assert_eq!(body[\"");
        s.append(camel.as_str());
        if updated {
            s.append("\"].as_bool().unwrap(), false);");
        } else {
            s.append("\"].as_bool().unwrap(), true);");
        }
    } else if str_equal(b, "DateTimeWithTimeZone") {
        s.append("    assert!(body[\"");
        s.append(camel.as_str());
        s.append("\"].as_str().is_some());");
    }
    s
}

/// The checks of a test, one line per column that has one.
fn assert_lines_text(fields: &[Field], updated: bool) -> (r: String)
    requires
        fields_well_formed(fields_view(fields@)),
    ensures
        r@ == join_with(assert_lines(fields_view(fields@), updated), "\n"@),
{
    let ghost fs = fields_view(fields@);
    let ghost ls = fs.map_values(|f: FieldSpec| assert_line(f, updated));
    let ghost nonempty = |l: Seq<char>| l.len() > 0;
    let mut parts: Vec<String> = Vec::new();
    let mut i: usize = 0;
    while i < fields.len()
        invariant
            fs == fields_view(fields@),
            fields_well_formed(fs),
            ls == fs.map_values(|f: FieldSpec| assert_line(f, updated)),
            nonempty == (|l: Seq<char>| l.len() > 0),
            i <= fields@.len(),
            parts@.map_values(|s: String| s@) == ls.take(i as int).filter(nonempty),
        decreases fields@.len() - i,
    {
        proof {
            assert(fs[i as int] == fields@[i as int]@);
            assert(type_well_formed(fs[i as int].rust_type));
            assert(ls.take(i + 1) =~= ls.take(i as int).push(ls[i as int]));
            ls.take(i as int).lemma_filter_push(ls[i as int], nonempty);
        }
        let line = assert_line_text(&fields[i], updated);
        if line.as_str().unicode_len() > 0 {
            parts.push(line);
        }
        proof {
            assert(parts@.map_values(|s: String| s@) =~= ls.take(i + 1).filter(nonempty));
        }
        i = i + 1;
    }
    proof {
        assert(ls.take(fields@.len() as int) =~= ls);
    }
    join(&parts, "\n")
}

/// The checks of the creation test.
pub fn generate_assert_create_fields_json(fields: &[Field]) -> (r: String)
    requires
        fields_well_formed(fields_view(fields@)),
    ensures
        r@ == join_with(assert_lines(fields_view(fields@), false), "\n"@),
{
    assert_lines_text(fields, false)
}

/// The checks of the update test.
pub fn generate_assert_update_fields_json(fields: &[Field]) -> (r: String)
    requires
        fields_well_formed(fields_view(fields@)),
    ensures
        r@ == join_with(assert_lines(fields_view(fields@), true), "\n"@),
{
    assert_lines_text(fields, true)
}

/// The type that a column's base type is read back as: the base type given to
/// `column_type`, nullable or not.
proof fn lemma_base_of_column_type(raw: Seq<char>, nullable: bool)
    ensures
        base_type_of(column_type(rust_base_type(raw), nullable)) == rust_base_type(raw),
{
    reveal_strlit("Option<");
    reveal_strlit(">");
    reveal_strlit("i32");
    reveal_strlit("bool");
    reveal_strlit("Decimal");
    reveal_strlit("f64");
    reveal_strlit("DateTimeWithTimeZone");
    reveal_strlit("String");
    let b = rust_base_type(raw);
    let t = column_type(b, nullable);
    if nullable {
        assert(t.take(7) =~= "Option<"@);
        assert(t.subrange(7, t.len() - 1) =~= b);
    } else {
        assert(b.len() >= 3 && b[0] != 'O');
        if starts_with_spec(t, "Option<"@) {
            assert(t.take(7)[0] == "Option<"@[0]);
        }
    }
}

/// The migration column matches the model field: whatever the column's name, text flag
/// and nullability, an `f64` field is a `DOUBLE PRECISION` column, an `i32` field an
/// integer, a `bool` field a boolean, a `Decimal` field a numeric and a date field a
/// timestamp with time zone; and the argument types `float`, `int`, `bool`, `decimal` and
/// `date` give those model types, nullable or not.
pub proof fn law_column_type_matches_model(f: FieldSpec, raw: Seq<char>, nullable: bool)
    ensures
        base_type_of(f.rust_type) == "f64"@ ==> sql_type(f) == "DOUBLE PRECISION"@,
        base_type_of(f.rust_type) == "i32"@ ==> sql_type(f) == "INTEGER DEFAULT 0"@,
        base_type_of(f.rust_type) == "bool"@ ==> sql_type(f) == "BOOLEAN DEFAULT TRUE"@,
        base_type_of(f.rust_type) == "Decimal"@ ==> sql_type(f) == "NUMERIC(10, 2)"@,
        base_type_of(f.rust_type) == "DateTimeWithTimeZone"@ ==> sql_type(f) == "TIMESTAMP WITH TIME ZONE"@,
        raw == "float"@ ==> base_type_of(column_type(rust_base_type(raw), nullable)) == "f64"@,
        raw == "int"@ ==> base_type_of(column_type(rust_base_type(raw), nullable)) == "i32"@,
        raw == "bool"@ ==> base_type_of(column_type(rust_base_type(raw), nullable)) == "bool"@,
        raw == "decimal"@ ==> base_type_of(column_type(rust_base_type(raw), nullable)) == "Decimal"@,
        raw == "date"@ ==> base_type_of(column_type(rust_base_type(raw), nullable)) == "DateTimeWithTimeZone"@,
{
    reveal_strlit("String");
    reveal_strlit("i32");
    reveal_strlit("bool");
    reveal_strlit("Decimal");
    reveal_strlit("f64");
    reveal_strlit("DateTimeWithTimeZone");
    reveal_strlit("int");
    reveal_strlit("decimal");
    reveal_strlit("float");
    reveal_strlit("date");
    assert("String"@.len() == 6 && "i32"@.len() == 3 && "bool"@.len() == 4 && "Decimal"@.len() == 7
        && "f64"@.len() == 3 && "DateTimeWithTimeZone"@.len() == 20);
    assert("f64"@[0] != "i32"@[0]);
    assert("float"@.len() == 5 && "int"@.len() == 3 && "decimal"@.len() == 7 && "date"@.len() == 4);
    assert("date"@[0] != "bool"@[0]);
    lemma_base_of_column_type(raw, nullable);
}

} // verus!

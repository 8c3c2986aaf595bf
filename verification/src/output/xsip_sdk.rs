use vstd::prelude::*;

use crate::analysis::schemas::{Class, ClassField, Enum, EnumMember, SchemaMap};
use crate::strmap::{
    StrMap, lookup, sorted_insert, keys_sorted, lemma_lookup_value, lemma_sorted_insert_sorted,
    lemma_sorted_insert_values, lemma_sorted_insert_existing, lemma_sorted_insert_lookup,
};
use crate::text::{
    starts_with, starts_with_text, trim, trim_text, ends_with_char, ends_with_char_text,
    text_eq, lemma_trim_len, replace_char, replace_char_text, before_char, before_char_text,
    hex_text, hex_i32, append_hex_i32, i64_bits, append_hex_i64,
};

verus! {

// ---------------------------------------------------------------------------
// Mapping schema type names to C++ type names
// ---------------------------------------------------------------------------

/// The text between a wrapper's opening `prefix` and its closing character,
/// trimmed.
pub open spec fn wrapped_inner(raw: Seq<char>, prefix: Seq<char>) -> Seq<char> {
    trim(raw.subrange(prefix.len() as int, raw.len() - 1))
}

/// Built-in schema type names that keep their name in C++.
pub open spec fn is_plain_builtin(raw: Seq<char>) -> bool {
    ||| raw == "int32"@
    ||| raw == "uint32"@
    ||| raw == "int16"@
    ||| raw == "uint16"@
    ||| raw == "int8"@
    ||| raw == "uint8"@
    ||| raw == "int64"@
    ||| raw == "uint64"@
    ||| raw == "bool"@
    ||| raw == "char"@
}

/// Engine value types that the generated `GlobalTypes` header declares.
pub open spec fn is_global_type(raw: Seq<char>) -> bool {
    ||| raw == "Vector"@
    ||| raw == "Vector2D"@
    ||| raw == "Vector4D"@
    ||| raw == "QAngle"@
    ||| raw == "Quaternion"@
    ||| raw == "Color"@
    ||| raw == "CUtlString"@
    ||| raw == "CUtlSymbolLarge"@
    ||| raw == "CUtlStringToken"@
    ||| raw == "CSplitScreenSlot"@
}

/// The C++ name of a type that is not one of the handle or vector wrappers,
/// before a pointer category adds its `*`.
pub open spec fn plain_type_name(raw: Seq<char>, type_to_module: Seq<(Seq<char>, Seq<char>)>) -> Seq<
    char,
> {
    if raw == "float32"@ {
        "float"@
    } else if raw == "float64"@ {
        "double"@
    } else if is_plain_builtin(raw) {
        raw
    } else if is_global_type(raw) {
        "GlobalTypes::"@ + raw
    } else {
        match lookup(type_to_module, raw) {
            Some(module) => "CS2::"@ + module + "::"@ + raw,
            None => raw,
        }
    }
}

/// The C++ type written for a schema type name `raw` of the given category.
/// `CHandle<..>`, `CStrongHandle<..>` and `CUtlVector<..>` map their argument
/// (as a built-in) and wrap it in the `GlobalTypes` template; other names map
/// by `plain_type_name`, and a `Schema_Ptr` gets a trailing `*` unless it has
/// one.
pub open spec fn map_type_spec(
    raw: Seq<char>,
    category: Seq<char>,
    type_to_module: Seq<(Seq<char>, Seq<char>)>,
) -> Seq<char>
    decreases raw.len(),
{
    if starts_with(raw, "CHandle<"@) && raw.len() > "CHandle<"@.len() {
        proof {
            lemma_trim_len(raw.subrange("CHandle<"@.len() as int, raw.len() - 1));
        }
        "GlobalTypes::CHandle<"@ + map_type_spec(
            wrapped_inner(raw, "CHandle<"@),
            "Schema_Builtin"@,
            type_to_module,
        ) + ">"@
    } else if starts_with(raw, "CStrongHandle<"@) && raw.len() > "CStrongHandle<"@.len() {
        proof {
            lemma_trim_len(raw.subrange("CStrongHandle<"@.len() as int, raw.len() - 1));
        }
        "GlobalTypes::CStrongHandle<"@ + map_type_spec(
            wrapped_inner(raw, "CStrongHandle<"@),
            "Schema_Builtin"@,
            type_to_module,
        ) + ">"@
    } else if starts_with(raw, "CUtlVector<"@) && raw.len() > "CUtlVector<"@.len() {
        proof {
            lemma_trim_len(raw.subrange("CUtlVector<"@.len() as int, raw.len() - 1));
        }
        "GlobalTypes::CUtlVector<"@ + map_type_spec(
            wrapped_inner(raw, "CUtlVector<"@),
            "Schema_Builtin"@,
            type_to_module,
        ) + ">"@
    } else {
        let result = plain_type_name(raw, type_to_module);
        if category == "Schema_Ptr"@ && !ends_with_char(result, '*') {
            result.push('*')
        } else {
            result
        }
    }
}

proof fn lemma_short_name_is_not_wrapped(raw: Seq<char>)
    requires
        raw.len() <= 7,
    ensures
        !(starts_with(raw, "CHandle<"@) && raw.len() > "CHandle<"@.len()),
        !(starts_with(raw, "CStrongHandle<"@) && raw.len() > "CStrongHandle<"@.len()),
        !(starts_with(raw, "CUtlVector<"@) && raw.len() > "CUtlVector<"@.len()),
{
    reveal_strlit("CHandle<");
    reveal_strlit("CStrongHandle<");
    reveal_strlit("CUtlVector<");
}

/// A built-in integer, `bool` or `char` field keeps its schema name as its
/// C++ type, whatever the type map holds, with a trailing `*` exactly when
/// the field is a pointer.
pub proof fn law_builtin_types_keep_their_name(
    raw: Seq<char>,
    category: Seq<char>,
    type_to_module: Seq<(Seq<char>, Seq<char>)>,
)
    requires
        raw == "int8"@ || raw == "uint8"@ || raw == "int16"@ || raw == "uint16"@ || raw == "int32"@ || raw == "uint32"@ || raw == "int64"@ || raw == "uint64"@ || raw == "bool"@ || raw == "char"@,
    ensures
        map_type_spec(raw, category, type_to_module) == if category == "Schema_Ptr"@ {
            raw.push('*')
        } else {
            raw
        },
{
    reveal_strlit("int8");
    reveal_strlit("uint8");
    reveal_strlit("int16");
    reveal_strlit("uint16");
    reveal_strlit("int32");
    reveal_strlit("uint32");
    reveal_strlit("int64");
    reveal_strlit("uint64");
    reveal_strlit("bool");
    reveal_strlit("char");
    reveal_strlit("float32");
    reveal_strlit("float64");
    assert(raw.len() <= 6);
    assert(raw.last() != '*');
    assert(raw != "float32"@ && raw != "float64"@);
    lemma_short_name_is_not_wrapped(raw);
}

/// 32- and 64-bit floating-point fields are written as C++ `float` and
/// `double`, with a trailing `*` exactly when the field is a pointer.
pub proof fn law_float_types(
    raw: Seq<char>,
    category: Seq<char>,
    type_to_module: Seq<(Seq<char>, Seq<char>)>,
)
    requires
        raw == "float32"@ || raw == "float64"@,
    ensures
        map_type_spec(raw, category, type_to_module) == {
            let c = if raw == "float32"@ {
                "float"@
            } else {
                "double"@
            };
            if category == "Schema_Ptr"@ {
                c.push('*')
            } else {
                c
            }
        },
{
    reveal_strlit("float32");
    reveal_strlit("float64");
    reveal_strlit("float");
    reveal_strlit("double");
    lemma_short_name_is_not_wrapped(raw);
}

/// Cutting the argument out of a wrapper is well defined: the text is longer
/// than the prefix and its last character is a single byte.
pub open spec fn wrapper_cut_ok(raw: Seq<char>, prefix: Seq<char>) -> bool {
    raw.len() > prefix.len() && (raw.last() as u32) < 0x80
}

/// The inputs on which type mapping is defined: every wrapper, at every level
/// of nesting, can be cut.
pub open spec fn map_type_ok(raw: Seq<char>) -> bool
    decreases raw.len(),
{
    if starts_with(raw, "CHandle<"@) {
        wrapper_cut_ok(raw, "CHandle<"@) && {
            proof {
                lemma_trim_len(raw.subrange("CHandle<"@.len() as int, raw.len() - 1));
            }
            map_type_ok(wrapped_inner(raw, "CHandle<"@))
        }
    } else if starts_with(raw, "CStrongHandle<"@) {
        wrapper_cut_ok(raw, "CStrongHandle<"@) && {
            proof {
                lemma_trim_len(raw.subrange("CStrongHandle<"@.len() as int, raw.len() - 1));
            }
            map_type_ok(wrapped_inner(raw, "CStrongHandle<"@))
        }
    } else if starts_with(raw, "CUtlVector<"@) {
        wrapper_cut_ok(raw, "CUtlVector<"@) && {
            proof {
                lemma_trim_len(raw.subrange("CUtlVector<"@.len() as int, raw.len() - 1));
            }
            map_type_ok(wrapped_inner(raw, "CUtlVector<"@))
        }
    } else {
        true
    }
}

/// Returns the trimmed argument of a wrapper type.
fn wrapper_argument(raw: &str, prefix: &str) -> (r: String)
    requires
        starts_with(raw@, prefix@),
        raw@.len() > prefix@.len(),
    ensures
        r@ == wrapped_inner(raw@, prefix@),
        r@.len() < raw@.len(),
{
    let p = prefix.unicode_len();
    let n = raw.unicode_len();
    trim_text(raw.substring_char(p, n - 1))
}

/// Whether `map_type` is defined on `raw`.
pub fn map_type_defined(raw: &str) -> (r: bool)
    ensures
        r == map_type_ok(raw@),
    decreases raw@.len(),
{
    let n = raw.unicode_len();
    if starts_with_text(raw, "CHandle<") {
        if !(n > "CHandle<".unicode_len() && (raw.get_char(n - 1) as u32) < 0x80) {
            return false;
        }
        let inner = wrapper_argument(raw, "CHandle<");
        map_type_defined(inner.as_str())
    } else if starts_with_text(raw, "CStrongHandle<") {
        if !(n > "CStrongHandle<".unicode_len() && (raw.get_char(n - 1) as u32) < 0x80) {
            return false;
        }
        let inner = wrapper_argument(raw, "CStrongHandle<");
        map_type_defined(inner.as_str())
    } else if starts_with_text(raw, "CUtlVector<") {
        if !(n > "CUtlVector<".unicode_len() && (raw.get_char(n - 1) as u32) < 0x80) {
            return false;
        }
        let inner = wrapper_argument(raw, "CUtlVector<");
        map_type_defined(inner.as_str())
    } else {
        true
    }
}

/// The C++ type of a field: see `map_type_spec`. `current_module` is the slug
/// of the module being written; the mapping does not depend on it.
pub fn map_type(
    raw: &str,
    category: &str,
    current_module: &str,
    type_to_module: &StrMap<String>,
) -> (r: String)
    requires
        type_to_module.wf(),
        map_type_ok(raw@),
    ensures
        r@ == map_type_spec(raw@, category@, type_to_module@),
    decreases raw@.len(),
{
    let n = raw.unicode_len();
    if starts_with_text(raw, "CHandle<") && n > "CHandle<".unicode_len() {
        let inner = wrapper_argument(raw, "CHandle<");
        let mapped = map_type(inner.as_str(), "Schema_Builtin", current_module, type_to_module);
        let mut r = String::from_str("GlobalTypes::CHandle<");
        r.append(mapped.as_str());
        r.append(">");
        return r;
    }
    if starts_with_text(raw, "CStrongHandle<") && n > "CStrongHandle<".unicode_len() {
        let inner = wrapper_argument(raw, "CStrongHandle<");
        let mapped = map_type(inner.as_str(), "Schema_Builtin", current_module, type_to_module);
        let mut r = String::from_str("GlobalTypes::CStrongHandle<");
        r.append(mapped.as_str());
        r.append(">");
        return r;
    }
    if starts_with_text(raw, "CUtlVector<") && n > "CUtlVector<".unicode_len() {
        let inner = wrapper_argument(raw, "CUtlVector<");
        let mapped = map_type(inner.as_str(), "Schema_Builtin", current_module, type_to_module);
        let mut r = String::from_str("GlobalTypes::CUtlVector<");
        r.append(mapped.as_str());
        r.append(">");
        return r;
    }
    let mut result = plain_type(raw, type_to_module);
    if text_eq(category, "Schema_Ptr") && !ends_with_char_text(result.as_str(), '*') {
        result.append("*");
        proof {
            reveal_strlit("*");
        }
    }
    result
}

fn plain_type(raw: &str, type_to_module: &StrMap<String>) -> (r: String)
    requires
        type_to_module.wf(),
    ensures
        r@ == plain_type_name(raw@, type_to_module@),
{
    if text_eq(raw, "float32") {
        return String::from_str("float");
    }
    if text_eq(raw, "float64") {
        return String::from_str("double");
    }
    if text_eq(raw, "int32") || text_eq(raw, "uint32") || text_eq(raw, "int16") || text_eq(
        raw,
        "uint16",
    ) || text_eq(raw, "int8") || text_eq(raw, "uint8") || text_eq(raw, "int64") || text_eq(
        raw,
        "uint64",
    ) || text_eq(raw, "bool") || text_eq(raw, "char") {
        return String::from_str(raw);
    }
    if text_eq(raw, "Vector") || text_eq(raw, "Vector2D") || text_eq(raw, "Vector4D") || text_eq(
        raw,
        "QAngle",
    ) || text_eq(raw, "Quaternion") || text_eq(raw, "Color") || text_eq(raw, "CUtlString")
        || text_eq(raw, "CUtlSymbolLarge") || text_eq(raw, "CUtlStringToken") || text_eq(
        raw,
        "CSplitScreenSlot",
    ) {
        let mut r = String::from_str("GlobalTypes::");
        r.append(raw);
        return r;
    }
    match type_to_module.get(raw) {
        Some(module) => {
            let mut r = String::from_str("CS2::");
            r.append(module.as_str());
            r.append("::");
            r.append(raw);
            r
        },
        None => String::from_str(raw),
    }
}

// ---------------------------------------------------------------------------
// Which module each type lives in
// ---------------------------------------------------------------------------

/// The text a module's slug is made from: its name with `.` replaced by `_`.
pub open spec fn module_slug_source(name: Seq<char>) -> Seq<char> {
    replace_char(name, '.', "_"@)
}

/// Returns the module name with `.` replaced by `_`.
pub fn module_slug_source_text(name: &str) -> (r: String)
    ensures
        r@ == module_slug_source(name@),
{
    replace_char_text(name, '.', "_")
}

/// Entries `m` after recording each class name of `classes`, in order, as
/// living in `slug`.
pub open spec fn record_class_names(
    m: Seq<(Seq<char>, Seq<char>)>,
    classes: Seq<Class>,
    slug: Seq<char>,
) -> Seq<(Seq<char>, Seq<char>)>
    decreases classes.len(),
{
    if classes.len() == 0 {
        m
    } else {
        sorted_insert(record_class_names(m, classes.drop_last(), slug), classes.last().name@, slug)
    }
}

/// Entries `m` after recording each enum name of `enums`, in order, as living
/// in `slug`.
pub open spec fn record_enum_names(
    m: Seq<(Seq<char>, Seq<char>)>,
    enums: Seq<Enum>,
    slug: Seq<char>,
) -> Seq<(Seq<char>, Seq<char>)>
    decreases enums.len(),
{
    if enums.len() == 0 {
        m
    } else {
        sorted_insert(record_enum_names(m, enums.drop_last(), slug), enums.last().name@, slug)
    }
}

/// The type-to-module map: modules in order, each recording its classes and
/// then its enums under its slug `slugs[i]`; a later record of a name wins.
pub open spec fn type_module_entries(
    modules: Seq<(Seq<char>, (Seq<Class>, Seq<Enum>))>,
    slugs: Seq<Seq<char>>,
) -> Seq<(Seq<char>, Seq<char>)>
    decreases modules.len(),
{
    if modules.len() == 0 {
        Seq::empty()
    } else {
        let i = modules.len() - 1;
        record_enum_names(
            record_class_names(type_module_entries(modules.drop_last(), slugs), modules[i].1.0, slugs[i]),
            modules[i].1.1,
            slugs[i],
        )
    }
}

/// Maps every class and enum name to the slug of the module that declares it.
/// `slugs[i]` is the slug of the `i`-th module of `schemas`.
pub fn build_type_to_module_map(schemas: &SchemaMap, slugs: &Vec<String>) -> (m: StrMap<String>)
    requires
        schemas.wf(),
        slugs@.len() == schemas@.len(),
    ensures
        m.wf(),
        m@ == type_module_entries(schemas@, slugs@.map_values(|s: String| s@)),
{
    let ghost sv = slugs@.map_values(|s: String| s@);
    let mut m: StrMap<String> = StrMap::new();
    let mut i: usize = 0;
    while i < schemas.len()
        invariant
            schemas.wf(),
            slugs@.len() == schemas@.len(),
            sv == slugs@.map_values(|s: String| s@),
            i <= schemas@.len(),
            m.wf(),
            m@ == type_module_entries(schemas@.take(i as int), sv),
        decreases schemas@.len() - i,
    {
        let entry = schemas.value_at(i);
        let slug = &slugs[i];
        let ghost base = m@;
        let mut j: usize = 0;
        while j < entry.0.len()
            invariant
                m.wf(),
                j <= entry.0@.len(),
                m@ == record_class_names(base, entry.0@.take(j as int), slug@),
            decreases entry.0@.len() - j,
        {
            m.insert(entry.0[j].name.clone(), slug.clone());
            proof {
                assert(entry.0@.take(j + 1).drop_last() =~= entry.0@.take(j as int));
            }
            j = j + 1;
        }
        proof {
            assert(entry.0@.take(j as int) =~= entry.0@);
        }
        let ghost mid = m@;
        let mut k: usize = 0;
        while k < entry.1.len()
            invariant
                m.wf(),
                k <= entry.1@.len(),
                m@ == record_enum_names(mid, entry.1@.take(k as int), slug@),
            decreases entry.1@.len() - k,
        {
            m.insert(entry.1[k].name.clone(), slug.clone());
            proof {
                assert(entry.1@.take(k + 1).drop_last() =~= entry.1@.take(k as int));
            }
            k = k + 1;
        }
        proof {
            assert(entry.1@.take(k as int) =~= entry.1@);
            let t = schemas@.take(i + 1);
            assert(t.drop_last() =~= schemas@.take(i as int));
            assert(t[i as int] == schemas@[i as int]);
            assert(sv[i as int] == slug@);
        }
        i = i + 1;
    }
    proof {
        assert(schemas@.take(i as int) =~= schemas@);
    }
    m
}

// ---------------------------------------------------------------------------
// Forward declarations a class header needs
// ---------------------------------------------------------------------------

/// The bare name of a field type: the part before the first `<`, and of that
/// the part before the first `[`.
pub open spec fn clean_type(t: Seq<char>) -> Seq<char> {
    before_char(before_char(t, '<'), '[')
}

/// Adds type `ty` to the set kept for `module`.
pub open spec fn add_forward_decl(
    decls: Seq<(Seq<char>, Seq<(Seq<char>, ())>)>,
    module: Seq<char>,
    ty: Seq<char>,
) -> Seq<(Seq<char>, Seq<(Seq<char>, ())>)> {
    let set = match lookup(decls, module) {
        Some(s) => s,
        None => Seq::empty(),
    };
    sorted_insert(decls, module, sorted_insert(set, ty, ()))
}

/// Per module, the set of types (declared in some module) that the fields
/// name, both in name order.
pub open spec fn forward_decl_entries(
    fields: Seq<ClassField>,
    type_to_module: Seq<(Seq<char>, Seq<char>)>,
) -> Seq<(Seq<char>, Seq<(Seq<char>, ())>)>
    decreases fields.len(),
{
    if fields.len() == 0 {
        Seq::empty()
    } else {
        let prev = forward_decl_entries(fields.drop_last(), type_to_module);
        let c = clean_type(fields.last().type_str@);
        match lookup(type_to_module, c) {
            Some(module) => add_forward_decl(prev, module, c),
            None => prev,
        }
    }
}

/// The outer map and every inner set are in key order.
pub open spec fn decls_sorted(decls: Seq<(Seq<char>, Seq<(Seq<char>, ())>)>) -> bool {
    &&& keys_sorted(decls)
    &&& forall|i: int| 0 <= i < decls.len() ==> keys_sorted(#[trigger] decls[i].1)
}

proof fn lemma_add_forward_decl_sorted(
    decls: Seq<(Seq<char>, Seq<(Seq<char>, ())>)>,
    module: Seq<char>,
    ty: Seq<char>,
)
    requires
        decls_sorted(decls),
    ensures
        decls_sorted(add_forward_decl(decls, module, ty)),
{
    let set = match lookup(decls, module) {
        Some(s) => s,
        None => Seq::empty(),
    };
    if lookup(decls, module) is Some {
        lemma_lookup_value(decls, module);
    }
    lemma_sorted_insert_sorted(set, ty, ());
    let ns = sorted_insert(set, ty, ());
    lemma_sorted_insert_sorted(decls, module, ns);
    lemma_sorted_insert_values(decls, module, ns);
    let r = sorted_insert(decls, module, ns);
    assert forall|i: int| 0 <= i < r.len() implies keys_sorted(#[trigger] r[i].1) by {
        if r[i] != (module, ns) {
            let j = choose|j: int| 0 <= j < decls.len() && decls[j] == r[i];
            assert(keys_sorted(decls[j].1));
        }
    }
}

/// Type `t` is among the forward declarations kept for module `m`.
pub open spec fn declared_forward(
    decls: Seq<(Seq<char>, Seq<(Seq<char>, ())>)>,
    m: Seq<char>,
    t: Seq<char>,
) -> bool {
    match lookup(decls, m) {
        Some(set) => lookup(set, t) is Some,
        None => false,
    }
}

/// Some field's bare type is `t`, and the type map puts `t` in module `m`.
pub open spec fn field_needs(
    fields: Seq<ClassField>,
    type_to_module: Seq<(Seq<char>, Seq<char>)>,
    m: Seq<char>,
    t: Seq<char>,
) -> bool {
    &&& lookup(type_to_module, t) == Some(m)
    &&& exists|j: int| 0 <= j < fields.len() && clean_type(#[trigger] fields[j].type_str@) == t
}

proof fn lemma_add_forward_decl_has(
    decls: Seq<(Seq<char>, Seq<(Seq<char>, ())>)>,
    module: Seq<char>,
    ty: Seq<char>,
    m: Seq<char>,
    t: Seq<char>,
)
    ensures
        declared_forward(add_forward_decl(decls, module, ty), m, t) <==> declared_forward(decls, m, t)
            || (m == module && t == ty),
{
    let set = match lookup(decls, module) {
        Some(s) => s,
        None => Seq::empty(),
    };
    let ns = sorted_insert(set, ty, ());
    lemma_sorted_insert_lookup(decls, module, ns, m);
    lemma_sorted_insert_lookup(set, ty, (), t);
    assert(lookup(Seq::<(Seq<char>, ())>::empty(), t) is None);
}

/// The forward declarations of a class header: per module, in module order,
/// the bare types of its fields that the type map puts in that module, each
/// once and in name order; no other type is declared.
pub proof fn law_forward_decls(
    fields: Seq<ClassField>,
    type_to_module: Seq<(Seq<char>, Seq<char>)>,
    m: Seq<char>,
    t: Seq<char>,
)
    ensures
        decls_sorted(forward_decl_entries(fields, type_to_module)),
        declared_forward(forward_decl_entries(fields, type_to_module), m, t) <==> field_needs(
            fields,
            type_to_module,
            m,
            t,
        ),
    decreases fields.len(),
{
    if fields.len() > 0 {
        let pf = fields.drop_last();
        law_forward_decls(pf, type_to_module, m, t);
        let prev = forward_decl_entries(pf, type_to_module);
        let c = clean_type(fields.last().type_str@);
        match lookup(type_to_module, c) {
            Some(module) => {
                lemma_add_forward_decl_has(prev, module, c, m, t);
                lemma_add_forward_decl_sorted(prev, module, c);
            },
            None => {},
        }
        if field_needs(pf, type_to_module, m, t) {
            let j = choose|j: int| 0 <= j < pf.len() && clean_type(#[trigger] pf[j].type_str@) == t;
            assert(fields[j] == pf[j]);
        }
        if field_needs(fields, type_to_module, m, t) && !field_needs(pf, type_to_module, m, t) {
            let j = choose|j: int| 0 <= j < fields.len() && clean_type(#[trigger] fields[j].type_str@) == t;
            if j < pf.len() {
                assert(pf[j] == fields[j]);
            }
        }
        if c == t && lookup(type_to_module, t) == Some(m) {
            assert(clean_type(fields[fields.len() - 1].type_str@) == t);
        }
    }
}

/// The line written for one forward-declared type: none for the class being
/// written itself.
pub open spec fn forward_class_line(ty: Seq<char>, class_name: Seq<char>) -> Seq<char> {
    if ty == class_name {
        Seq::empty()
    } else {
        "        class "@ + ty + ";\n"@
    }
}

/// A module's block declares its types in order, one line each, and never
/// the class being written.
pub proof fn law_forward_class_lines(types: Seq<(Seq<char>, ())>, class_name: Seq<char>)
    ensures
        forward_class_lines(types, class_name) == Seq::new(
            types.len(),
            |i: int| forward_class_line(types[i].0, class_name),
        ).flatten(),
    decreases types.len(),
{
    if types.len() > 0 {
        let t = types.drop_last();
        law_forward_class_lines(t, class_name);
        let each = Seq::new(t.len(), |i: int| forward_class_line(t[i].0, class_name));
        assert(Seq::new(types.len(), |i: int| forward_class_line(types[i].0, class_name)) =~= each.push(
            forward_class_line(types.last().0, class_name),
        ));
        each.lemma_flatten_push(forward_class_line(types.last().0, class_name));
    }
}

/// Collects, per module, the types of the fields that some module declares.
pub fn forward_decls(fields: &Vec<ClassField>, type_to_module: &StrMap<String>) -> (d: StrMap<
    StrMap<()>,
>)
    requires
        type_to_module.wf(),
    ensures
        d.wf(),
        decls_sorted(d@),
        d@ == forward_decl_entries(fields@, type_to_module@),
{
    let mut d: StrMap<StrMap<()>> = StrMap::new();
    let mut i: usize = 0;
    while i < fields.len()
        invariant
            type_to_module.wf(),
            i <= fields@.len(),
            d.wf(),
            decls_sorted(d@),
            d@ == forward_decl_entries(fields@.take(i as int), type_to_module@),
        decreases fields@.len() - i,
    {
        let outer = before_char_text(fields[i].type_str.as_str(), '<');
        let clean = before_char_text(outer.as_str(), '[');
        proof {
            let t = fields@.take(i + 1);
            assert(t.drop_last() =~= fields@.take(i as int));
            assert(t.last() == fields@[i as int]);
        }
        match type_to_module.get(clean.as_str()) {
            Some(module) => {
                let ghost before = d@;
                proof {
                    lemma_add_forward_decl_sorted(before, module@, clean@);
                }
                match d.index_of(module.as_str()) {
                    Some(p) => {
                        let mut set = d.replace_value_at(p, StrMap::new());
                        proof {
                            assert(keys_sorted(before[p as int].1));
                        }
                        set.insert(clean, ());
                        d.replace_value_at(p, set);
                        proof {
                            lemma_sorted_insert_existing(before, p as int, d@[p as int].1);
                            assert(d@ =~= add_forward_decl(before, module@, clean@));
                        }
                    },
                    None => {
                        let mut set: StrMap<()> = StrMap::new();
                        set.insert(clean, ());
                        d.insert(module.clone(), set);
                    },
                }
            },
            None => {},
        }
        i = i + 1;
    }
    proof {
        assert(fields@.take(i as int) =~= fields@);
    }
    d
}

/// The `class X;` lines of one module's block; the class being written is not
/// declared.
pub open spec fn forward_class_lines(types: Seq<(Seq<char>, ())>, class_name: Seq<char>) -> Seq<
    char,
>
    decreases types.len(),
{
    if types.len() == 0 {
        Seq::empty()
    } else {
        forward_class_lines(types.drop_last(), class_name) + (if types.last().0 == class_name {
            Seq::empty()
        } else {
            "        class "@ + types.last().0 + ";\n"@
        })
    }
}

/// One namespace block per module with the forward declarations of its types.
pub open spec fn forward_decls_text(
    decls: Seq<(Seq<char>, Seq<(Seq<char>, ())>)>,
    class_name: Seq<char>,
) -> Seq<char>
    decreases decls.len(),
{
    if decls.len() == 0 {
        Seq::empty()
    } else {
        forward_decls_text(decls.drop_last(), class_name) + "namespace CS2 {\n    namespace "@
            + decls.last().0 + " {\n"@ + forward_class_lines(decls.last().1, class_name)
            + "    }\n}\n"@
    }
}

fn append_forward_class_lines(out: &mut String, types: &StrMap<()>, class_name: &str)
    ensures
        final(out)@ == old(out)@ + forward_class_lines(types@, class_name@),
{
    let ghost start = out@;
    let mut j: usize = 0;
    while j < types.len()
        invariant
            j <= types@.len(),
            out@ == start + forward_class_lines(types@.take(j as int), class_name@),
        decreases types@.len() - j,
    {
        let ty = types.key_at(j);
        if !text_eq(ty.as_str(), class_name) {
            out.append("        class ");
            out.append(ty.as_str());
            out.append(";\n");
        }
        proof {
            let t = types@.take(j + 1);
            assert(t.drop_last() =~= types@.take(j as int));
            assert(t.last() == types@[j as int]);
            assert(out@ =~= start + forward_class_lines(t, class_name@));
        }
        j = j + 1;
    }
    proof {
        assert(types@.take(j as int) =~= types@);
    }
}

fn append_forward_decls(out: &mut String, decls: &StrMap<StrMap<()>>, class_name: &str)
    ensures
        final(out)@ == old(out)@ + forward_decls_text(decls@, class_name@),
{
    let ghost start = out@;
    let mut i: usize = 0;
    while i < decls.len()
        invariant
            i <= decls@.len(),
            out@ == start + forward_decls_text(decls@.take(i as int), class_name@),
        decreases decls@.len() - i,
    {
        out.append("namespace CS2 {\n    namespace ");
        out.append(decls.key_at(i).as_str());
        out.append(" {\n");
        append_forward_class_lines(out, decls.value_at(i), class_name);
        out.append("    }\n}\n");
        proof {
            let t = decls@.take(i + 1);
            assert(t.drop_last() =~= decls@.take(i as int));
            assert(t.last() == decls@[i as int]);
            assert(out@ =~= start + forward_decls_text(t, class_name@));
        }
        i = i + 1;
    }
    proof {
        assert(decls@.take(i as int) =~= decls@);
    }
}

// ---------------------------------------------------------------------------
// Fields in offset order
// ---------------------------------------------------------------------------

/// `sorted` with `f` placed after every field whose offset is not above
/// `f`'s (a stable insertion).
pub open spec fn insert_by_offset(sorted: Seq<ClassField>, f: ClassField) -> Seq<ClassField>
    decreases sorted.len(),
{
    if sorted.len() == 0 {
        seq![f]
    } else if sorted.last().offset <= f.offset {
        sorted.push(f)
    } else {
        insert_by_offset(sorted.drop_last(), f).push(sorted.last())
    }
}

/// The fields stably sorted by offset: fields with equal offsets keep their
/// order.
pub open spec fn sort_by_offset(fields: Seq<ClassField>) -> Seq<ClassField>
    decreases fields.len(),
{
    if fields.len() == 0 {
        Seq::empty()
    } else {
        insert_by_offset(sort_by_offset(fields.drop_last()), fields.last())
    }
}

/// Offsets never decrease along the sequence.
pub open spec fn offsets_nondecreasing(fs: Seq<ClassField>) -> bool {
    forall|i: int, j: int| 0 <= i < j < fs.len() ==> #[trigger] fs[i].offset <= #[trigger] fs[j].offset
}

proof fn lemma_insert_by_offset_at(s: Seq<ClassField>, f: ClassField, j: int)
    requires
        0 <= j <= s.len(),
        forall|k: int| j <= k < s.len() ==> #[trigger] s[k].offset > f.offset,
        j > 0 ==> s[j - 1].offset <= f.offset,
    ensures
        insert_by_offset(s, f) == s.insert(j, f),
    decreases s.len(),
{
    if s.len() == 0 {
        assert(s.insert(j, f) =~= seq![f]);
    } else if j == s.len() {
        assert(s.insert(j, f) =~= s.push(f));
    } else {
        lemma_insert_by_offset_at(s.drop_last(), f, j);
        assert(s.insert(j, f) =~= s.drop_last().insert(j, f).push(s.last()));
    }
}

/// Sorting by offset gives the same fields, each as often, in offset order.
pub proof fn lemma_sort_by_offset(fields: Seq<ClassField>)
    ensures
        offsets_nondecreasing(sort_by_offset(fields)),
        sort_by_offset(fields).to_multiset() == fields.to_multiset(),
        sort_by_offset(fields).len() == fields.len(),
        forall|k: int|
            0 <= k < fields.len() ==> exists|m: int|
                0 <= m < fields.len() && fields[m] == #[trigger] sort_by_offset(fields)[k],
    decreases fields.len(),
{
    broadcast use vstd::seq_lib::group_seq_properties;

    if fields.len() > 0 {
        let t = fields.drop_last();
        lemma_sort_by_offset(t);
        lemma_insert_by_offset_sorted(sort_by_offset(t), fields.last());
        assert(fields =~= t.push(fields.last()));
        let r = sort_by_offset(fields);
        let st = sort_by_offset(t);
        assert forall|k: int| 0 <= k < fields.len() implies exists|m: int|
            0 <= m < fields.len() && fields[m] == #[trigger] r[k] by {
            if r[k] == fields.last() {
                assert(fields[fields.len() - 1] == r[k]);
            } else {
                let m = choose|m: int| 0 <= m < st.len() && st[m] == r[k];
                let m2 = choose|m2: int| 0 <= m2 < t.len() && t[m2] == st[m];
                assert(fields[m2] == t[m2]);
            }
        }
    }
}

proof fn lemma_insert_by_offset_sorted(s: Seq<ClassField>, f: ClassField)
    requires
        offsets_nondecreasing(s),
    ensures
        offsets_nondecreasing(insert_by_offset(s, f)),
        insert_by_offset(s, f).to_multiset() == s.to_multiset().insert(f),
        insert_by_offset(s, f).len() == s.len() + 1,
        forall|k: int|
            0 <= k < insert_by_offset(s, f).len() ==> (#[trigger] insert_by_offset(s, f)[k] == f
                || exists|m: int| 0 <= m < s.len() && s[m] == insert_by_offset(s, f)[k]),
    decreases s.len(),
{
    broadcast use vstd::seq_lib::group_seq_properties;

    let r = insert_by_offset(s, f);
    if s.len() == 0 {
        assert(r =~= seq![f]);
        assert(seq![f].to_multiset() =~= s.to_multiset().insert(f)) by {
            assert(seq![f] =~= Seq::<ClassField>::empty().push(f));
        }
    } else if s.last().offset <= f.offset {
        assert forall|k: int| 0 <= k < r.len() implies (#[trigger] r[k] == f || exists|m: int|
            0 <= m < s.len() && s[m] == r[k]) by {
            if k < s.len() {
                assert(s[k] == r[k]);
            }
        }
    } else {
        let t = s.drop_last();
        assert(offsets_nondecreasing(t));
        lemma_insert_by_offset_sorted(t, f);
        let rt = insert_by_offset(t, f);
        assert(r == rt.push(s.last()));
        assert forall|a: int, b: int| 0 <= a < b < r.len() implies #[trigger] r[a].offset
            <= #[trigger] r[b].offset by {
            if b == r.len() - 1 {
                if rt[a] != f {
                    let m = choose|m: int| 0 <= m < t.len() && t[m] == rt[a];
                    assert(s[m] == t[m]);
                }
            } else {
                assert(r[a] == rt[a]);
                assert(r[b] == rt[b]);
            }
        }
        assert forall|k: int| 0 <= k < r.len() implies (#[trigger] r[k] == f || exists|m: int|
            0 <= m < s.len() && s[m] == r[k]) by {
            if k == r.len() - 1 {
                assert(r[k] == s[s.len() - 1]);
            } else {
                assert(r[k] == rt[k]);
                if rt[k] != f {
                    let m = choose|m: int| 0 <= m < t.len() && t[m] == rt[k];
                    assert(s[m] == t[m]);
                }
            }
        }
        assert(s =~= t.push(s.last()));
        assert(r.to_multiset() =~= s.to_multiset().insert(f));
    }
}

/// The fields with offset `v`, in order.
pub open spec fn with_offset(fs: Seq<ClassField>, v: i32) -> Seq<ClassField>
    decreases fs.len(),
{
    if fs.len() == 0 {
        Seq::empty()
    } else if fs.last().offset == v {
        with_offset(fs.drop_last(), v).push(fs.last())
    } else {
        with_offset(fs.drop_last(), v)
    }
}

proof fn lemma_insert_by_offset_with_offset(s: Seq<ClassField>, f: ClassField, v: i32)
    ensures
        with_offset(insert_by_offset(s, f), v) == (if f.offset == v {
            with_offset(s, v).push(f)
        } else {
            with_offset(s, v)
        }),
    decreases s.len(),
{
    if s.len() == 0 {
        let r = insert_by_offset(s, f);
        assert(r == seq![f]);
        assert(r.last() == f);
        assert(r.drop_last() =~= Seq::<ClassField>::empty());
        assert(with_offset(r.drop_last(), v) =~= Seq::<ClassField>::empty());
        assert(with_offset(s, v) =~= Seq::<ClassField>::empty());
        if f.offset == v {
            assert(with_offset(r, v) =~= seq![f]);
            assert(with_offset(s, v).push(f) =~= seq![f]);
        } else {
            assert(with_offset(r, v) =~= Seq::<ClassField>::empty());
        }
    } else if s.last().offset <= f.offset {
        let r = s.push(f);
        assert(insert_by_offset(s, f) == r);
        assert(r.drop_last() =~= s);
        assert(r.last() == f);
    } else {
        let t = s.drop_last();
        lemma_insert_by_offset_with_offset(t, f, v);
        let r = insert_by_offset(t, f).push(s.last());
        assert(insert_by_offset(s, f) == r);
        assert(r.drop_last() =~= insert_by_offset(t, f));
        assert(r.last() == s.last());
        if s.last().offset == v {
            assert(with_offset(r, v) == with_offset(insert_by_offset(t, f), v).push(s.last()));
            assert(with_offset(s, v) == with_offset(t, v).push(s.last()));
        } else {
            assert(with_offset(r, v) == with_offset(insert_by_offset(t, f), v));
            assert(with_offset(s, v) == with_offset(t, v));
        }
    }
}

/// Sorting by offset is stable: the fields that share an offset keep their
/// order.
pub proof fn law_sort_by_offset_stable(fields: Seq<ClassField>, v: i32)
    ensures
        with_offset(sort_by_offset(fields), v) == with_offset(fields, v),
    decreases fields.len(),
{
    if fields.len() > 0 {
        law_sort_by_offset_stable(fields.drop_last(), v);
        lemma_insert_by_offset_with_offset(sort_by_offset(fields.drop_last()), fields.last(), v);
    }
}

/// The fields stably sorted by offset.
pub fn sorted_by_offset(fields: &Vec<ClassField>) -> (r: Vec<ClassField>)
    ensures
        r@ == sort_by_offset(fields@),
{
    let mut r: Vec<ClassField> = Vec::new();
    let mut i: usize = 0;
    while i < fields.len()
        invariant
            i <= fields@.len(),
            r@ == sort_by_offset(fields@.take(i as int)),
        decreases fields@.len() - i,
    {
        let f = fields[i].duplicate();
        let mut j: usize = r.len();
        while j > 0 && r[j - 1].offset > f.offset
            invariant
                j <= r@.len(),
                forall|k: int| j <= k < r@.len() ==> #[trigger] r@[k].offset > f.offset,
            decreases j,
        {
            j = j - 1;
        }
        proof {
            lemma_insert_by_offset_at(r@, f, j as int);
            let t = fields@.take(i + 1);
            assert(t.drop_last() =~= fields@.take(i as int));
            assert(t.last() == fields@[i as int]);
        }
        r.insert(j, f);
        i = i + 1;
    }
    proof {
        assert(fields@.take(i as int) =~= fields@);
    }
    r
}

// ---------------------------------------------------------------------------
// Class headers
// ---------------------------------------------------------------------------

/// Whether `x` fits in a 32-bit signed integer.
pub open spec fn in_i32(x: int) -> bool {
    i32::MIN <= x <= i32::MAX
}

/// The offset just past the last field written so far: its offset plus its
/// size (0 before any field).
pub open spec fn offset_after(fs: Seq<ClassField>) -> int {
    if fs.len() == 0 {
        0
    } else {
        fs.last().offset + fs.last().size
    }
}

/// The layout arithmetic on these fields (in the order written) stays within
/// 32-bit signed integers.
pub open spec fn layout_arith_ok(fs: Seq<ClassField>) -> bool
    decreases fs.len(),
{
    if fs.len() == 0 {
        true
    } else {
        let cur = offset_after(fs.drop_last());
        &&& layout_arith_ok(fs.drop_last())
        &&& fs.last().offset > cur ==> in_i32(fs.last().offset - cur)
        &&& in_i32(fs.last().offset + fs.last().size)
    }
}

/// The padding line written where a field starts after the previous one
/// ends.
pub open spec fn gap_text(offset: int, cur: int) -> Seq<char> {
    if offset > cur {
        "            S2_PAD("@ + hex_i32(offset - cur) + ");\n"@
    } else {
        Seq::empty()
    }
}

/// The five comment lines describing a field.
pub open spec fn field_comment_text(f: ClassField) -> Seq<char> {
    "            // "@ + f.name@ + " : "@ + f.type_str@ + "\n            // Offset: "@ + hex_i32(
        f.offset as int,
    ) + "\n            // Size: "@ + hex_i32(f.size as int) + "\n            // Category: "@
        + f.category@ + "\n            // Type: "@ + f.type_str@ + "\n"@
}

/// The member declaration of a field and the blank line after it.
pub open spec fn field_decl_text(f: ClassField, type_to_module: Seq<(Seq<char>, Seq<char>)>) -> Seq<
    char,
> {
    "            "@ + map_type_spec(f.type_str@, f.category@, type_to_module) + " "@ + f.name@
        + "; // "@ + hex_i32(f.offset as int) + "\n\n"@
}

/// The text written for one field, given the offset just past the previous
/// field: a padding line where there is a gap, five comment lines, the member
/// declaration and a blank line.
pub open spec fn field_text(
    f: ClassField,
    cur: int,
    type_to_module: Seq<(Seq<char>, Seq<char>)>,
) -> Seq<char> {
    gap_text(f.offset as int, cur) + field_comment_text(f) + field_decl_text(f, type_to_module)
}

/// The padding (in bytes) written before a field: the gap between the end of
/// the previous field and the field's offset, if any.
pub open spec fn pad_amount(f: ClassField, cur: int) -> int {
    if f.offset > cur {
        f.offset - cur
    } else {
        0
    }
}

/// The bytes the class body occupies after these fields are written: the
/// paddings and the field sizes added up.
pub open spec fn laid_out_end(fs: Seq<ClassField>) -> int
    decreases fs.len(),
{
    if fs.len() == 0 {
        0
    } else {
        laid_out_end(fs.drop_last()) + pad_amount(fs.last(), offset_after(fs.drop_last()))
            + fs.last().size
    }
}

/// Each field starts at or after the end of the one before it (and the first
/// at or after 0).
pub open spec fn fields_disjoint(fs: Seq<ClassField>) -> bool {
    forall|i: int| 0 <= i < fs.len() ==> offset_after(fs.take(i)) <= #[trigger] fs[i].offset
}

/// When fields do not overlap, the padding of the class body puts every
/// field at its recorded offset: the paddings and sizes written before a field
/// add up to its offset, and those of all fields to the end of the last one.
pub proof fn law_padding_places_fields_at_offsets(fs: Seq<ClassField>)
    requires
        fields_disjoint(fs),
    ensures
        forall|i: int|
            0 <= i < fs.len() ==> laid_out_end(fs.take(i)) + pad_amount(
                fs[i],
                offset_after(fs.take(i)),
            ) == #[trigger] fs[i].offset,
        laid_out_end(fs) == offset_after(fs),
    decreases fs.len(),
{
    if fs.len() > 0 {
        let t = fs.drop_last();
        assert(fields_disjoint(t)) by {
            assert forall|i: int| 0 <= i < t.len() implies offset_after(t.take(i)) <= #[trigger] t[i].offset by {
                assert(t.take(i) =~= fs.take(i));
                assert(t[i] == fs[i]);
            }
        }
        law_padding_places_fields_at_offsets(t);
        let n = fs.len() - 1;
        assert(fs.take(n) =~= t);
        assert(offset_after(fs.take(n)) <= fs[n].offset);
        assert forall|i: int| 0 <= i < fs.len() implies laid_out_end(fs.take(i)) + pad_amount(
            fs[i],
            offset_after(fs.take(i)),
        ) == #[trigger] fs[i].offset by {
            if i < n {
                assert(t.take(i) =~= fs.take(i));
                assert(t[i] == fs[i]);
            }
        }
    }
}

/// When the class is at least as large as the end of its last field, the end
/// padding fills the body up to exactly the class size.
pub proof fn law_end_padding_fills_class(fs: Seq<ClassField>, size: int)
    requires
        fields_disjoint(fs),
        size >= offset_after(fs),
    ensures
        laid_out_end(fs) + (if size > offset_after(fs) {
            size - offset_after(fs)
        } else {
            0
        }) == size,
{
    law_padding_places_fields_at_offsets(fs);
}

/// The text of the fields, in the order given.
pub open spec fn fields_text(fs: Seq<ClassField>, type_to_module: Seq<(Seq<char>, Seq<char>)>) -> Seq<
    char,
>
    decreases fs.len(),
{
    if fs.len() == 0 {
        Seq::empty()
    } else {
        fields_text(fs.drop_last(), type_to_module) + field_text(
            fs.last(),
            offset_after(fs.drop_last()),
            type_to_module,
        )
    }
}

/// The padding that fills a class up to its size after the last field.
pub open spec fn end_padding_text(size: int, cur: int) -> Seq<char> {
    if size > cur {
        "            // End padding\n"@ + "            S2_PAD("@ + hex_i32(size - cur) + ");\n"@
    } else {
        Seq::empty()
    }
}

/// The fixed lines that open a class header.
pub open spec fn class_preamble_text(slug: Seq<char>) -> Seq<char> {
    "#pragma once\n\n#include <cstdint>\n\n// /////////////////////////////////////////////////////////////\n// Module: "@ + slug + "\n// Created using cs2-universal-dumper\n// /////////////////////////////////////////////////////////////\n\n#ifndef CUSTOM_GLOBAL_TYPES\n    #include \"../GlobalTypes.hpp\"\n#else\n    #include <Custom/GlobalTypes.hpp>\n#endif\n\n"@
}

/// The include of the parent class's header: a local include when the parent
/// is declared in the same module, a relative path into its module otherwise,
/// and nothing when the parent is unknown.
pub open spec fn include_text(
    slug: Seq<char>,
    class: Class,
    type_to_module: Seq<(Seq<char>, Seq<char>)>,
) -> Seq<char> {
    match class.parent_name {
        Some(parent) => match lookup(type_to_module, parent@) {
            Some(module) => if module == slug {
                "#include \""@ + parent@ + ".hpp\"\n"@
            } else {
                "#include \"../../"@ + module + "/"@ + parent@ + ".hpp\"\n"@
            },
            None => Seq::empty(),
        },
        None => Seq::empty(),
    }
}

/// The base-class clause of the class declaration.
pub open spec fn parent_clause(
    slug: Seq<char>,
    class: Class,
    type_to_module: Seq<(Seq<char>, Seq<char>)>,
) -> Seq<char> {
    match class.parent_name {
        Some(parent) => " : public CS2::"@ + (match lookup(type_to_module, parent@) {
            Some(module) => module,
            None => slug,
        }) + "::"@ + parent@,
        None => Seq::empty(),
    }
}

/// The lines from the namespace opening to `public:`.
pub open spec fn class_open_text(
    slug: Seq<char>,
    class: Class,
    type_to_module: Seq<(Seq<char>, Seq<char>)>,
) -> Seq<char> {
    "\nusing namespace GlobalTypes;\nnamespace CS2 {\n    namespace "@ + slug + " {\n        class "@
        + class.name@ + parent_clause(slug, class, type_to_module) + " {\n        public:\n"@
}

/// One offset assertion.
pub open spec fn offset_assert_text(slug: Seq<char>, class_name: Seq<char>, f: ClassField) -> Seq<
    char,
> {
    "        static_assert(offsetof(CS2::"@ + slug + "::"@ + class_name + ", "@ + f.name@ + ") == "@
        + hex_i32(f.offset as int) + ", \""@ + f.name@ + " in "@ + class_name
        + " should be at offset "@ + hex_i32(f.offset as int) + "\");\n"@
}

/// The offset assertions of the fields, in declaration order.
pub open spec fn offset_asserts_text(slug: Seq<char>, class_name: Seq<char>, fs: Seq<ClassField>) -> Seq<
    char,
>
    decreases fs.len(),
{
    if fs.len() == 0 {
        Seq::empty()
    } else {
        offset_asserts_text(slug, class_name, fs.drop_last()) + offset_assert_text(
            slug,
            class_name,
            fs.last(),
        )
    }
}

/// The size assertion.
pub open spec fn size_assert_text(slug: Seq<char>, class_name: Seq<char>, size: int) -> Seq<char> {
    "        static_assert(sizeof(CS2::"@ + slug + "::"@ + class_name + ") == "@ + hex_i32(size)
        + ", \""@ + class_name + " size should be "@ + hex_i32(size) + "\");\n"@
}

/// The whole header of a class: preamble, parent include, forward
/// declarations, the class with its fields in offset order and padding for
/// the gaps, and the layout assertions.
pub open spec fn class_header_text(
    slug: Seq<char>,
    class: Class,
    type_to_module: Seq<(Seq<char>, Seq<char>)>,
) -> Seq<char> {
    let sorted = sort_by_offset(class.fields@);
    class_preamble_text(slug) + include_text(slug, class, type_to_module) + "\n"@
        + forward_decls_text(forward_decl_entries(class.fields@, type_to_module), class.name@)
        + class_open_text(slug, class, type_to_module) + fields_text(sorted, type_to_module)
        + end_padding_text(class.size as int, offset_after(sorted)) + "        };\n#ifdef USE_STATIC_ASSERTS\n"@
        + offset_asserts_text(slug, class.name@, class.fields@) + size_assert_text(
        slug,
        class.name@,
        class.size as int,
    ) + "#endif\n    }\n}\n"@
}

/// The inputs on which a class header can be written: every field type can be
/// mapped and the layout arithmetic stays within 32-bit signed integers.
pub open spec fn class_header_ok(class: Class) -> bool {
    let sorted = sort_by_offset(class.fields@);
    &&& forall|i: int| 0 <= i < class.fields@.len() ==> map_type_ok(#[trigger] class.fields@[i].type_str@)
    &&& layout_arith_ok(sorted)
    &&& class.size > offset_after(sorted) ==> in_i32(class.size - offset_after(sorted))
}

fn append_include(out: &mut String, slug: &str, class: &Class, type_to_module: &StrMap<String>)
    requires
        type_to_module.wf(),
    ensures
        final(out)@ == old(out)@ + include_text(slug@, *class, type_to_module@),
{
    match &class.parent_name {
        Some(parent) => match type_to_module.get(parent.as_str()) {
            Some(module) => {
                if text_eq(module.as_str(), slug) {
                    out.append("#include \"");
                    out.append(parent.as_str());
                    out.append(".hpp\"\n");
                } else {
                    out.append("#include \"../../");
                    out.append(module.as_str());
                    out.append("/");
                    out.append(parent.as_str());
                    out.append(".hpp\"\n");
                }
            },
            None => {},
        },
        None => {},
    }
    proof {
        assert(final(out)@ =~= old(out)@ + include_text(slug@, *class, type_to_module@));
    }
}

fn append_class_open(out: &mut String, slug: &str, class: &Class, type_to_module: &StrMap<String>)
    requires
        type_to_module.wf(),
    ensures
        final(out)@ == old(out)@ + class_open_text(slug@, *class, type_to_module@),
{
    out.append("\nusing namespace GlobalTypes;\nnamespace CS2 {\n    namespace ");
    out.append(slug);
    out.append(" {\n        class ");
    out.append(class.name.as_str());
    match &class.parent_name {
        Some(parent) => {
            out.append(" : public CS2::");
            match type_to_module.get(parent.as_str()) {
                Some(module) => out.append(module.as_str()),
                None => out.append(slug),
            }
            out.append("::");
            out.append(parent.as_str());
        },
        None => {},
    }
    out.append(" {\n        public:\n");
    proof {
        assert(final(out)@ =~= old(out)@ + class_open_text(slug@, *class, type_to_module@));
    }
}

fn append_field_comment(out: &mut String, f: &ClassField)
    ensures
        final(out)@ == old(out)@ + field_comment_text(*f),
{
    out.append("            // ");
    out.append(f.name.as_str());
    out.append(" : ");
    out.append(f.type_str.as_str());
    out.append("\n            // Offset: ");
    append_hex_i32(out, f.offset);
    out.append("\n            // Size: ");
    append_hex_i32(out, f.size);
    out.append("\n            // Category: ");
    out.append(f.category.as_str());
    out.append("\n            // Type: ");
    out.append(f.type_str.as_str());
    out.append("\n");
    proof {
        assert(final(out)@ =~= old(out)@ + field_comment_text(*f));
    }
}

fn append_field_decl(out: &mut String, f: &ClassField, slug: &str, type_to_module: &StrMap<String>)
    requires
        type_to_module.wf(),
        map_type_ok(f.type_str@),
    ensures
        final(out)@ == old(out)@ + field_decl_text(*f, type_to_module@),
{
    out.append("            ");
    let cpp = map_type(f.type_str.as_str(), f.category.as_str(), slug, type_to_module);
    out.append(cpp.as_str());
    out.append(" ");
    out.append(f.name.as_str());
    out.append("; // ");
    append_hex_i32(out, f.offset);
    out.append("\n\n");
    proof {
        assert(final(out)@ =~= old(out)@ + field_decl_text(*f, type_to_module@));
    }
}

fn append_field(
    out: &mut String,
    f: &ClassField,
    cur: i32,
    slug: &str,
    type_to_module: &StrMap<String>,
)
    requires
        type_to_module.wf(),
        map_type_ok(f.type_str@),
        f.offset > cur ==> in_i32(f.offset - cur),
    ensures
        final(out)@ == old(out)@ + field_text(*f, cur as int, type_to_module@),
{
    let ghost start = out@;
    if f.offset > cur {
        out.append("            S2_PAD(");
        append_hex_i32(out, f.offset - cur);
        out.append(");\n");
    }
    proof {
        assert(out@ =~= start + gap_text(f.offset as int, cur as int));
    }
    let ghost mid = out@;
    append_field_comment(out, f);
    append_field_decl(out, f, slug, type_to_module);
    proof {
        assert(out@ =~= start + field_text(*f, cur as int, type_to_module@));
    }
}

fn append_fields(
    out: &mut String,
    sorted: &Vec<ClassField>,
    slug: &str,
    type_to_module: &StrMap<String>,
) -> (cur: i32)
    requires
        type_to_module.wf(),
        forall|i: int| 0 <= i < sorted@.len() ==> map_type_ok(#[trigger] sorted@[i].type_str@),
        layout_arith_ok(sorted@),
    ensures
        final(out)@ == old(out)@ + fields_text(sorted@, type_to_module@),
        cur == offset_after(sorted@),
{
    let ghost start = out@;
    let mut cur: i32 = 0;
    let mut i: usize = 0;
    while i < sorted.len()
        invariant
            type_to_module.wf(),
            forall|i: int| 0 <= i < sorted@.len() ==> map_type_ok(#[trigger] sorted@[i].type_str@),
            layout_arith_ok(sorted@),
            i <= sorted@.len(),
            cur == offset_after(sorted@.take(i as int)),
            out@ == start + fields_text(sorted@.take(i as int), type_to_module@),
        decreases sorted@.len() - i,
    {
        let ghost t = sorted@.take(i + 1);
        proof {
            assert(t.drop_last() =~= sorted@.take(i as int));
            assert(t.last() == sorted@[i as int]);
            lemma_layout_arith_prefix(sorted@, i + 1);
        }
        let f = &sorted[i];
        append_field(out, f, cur, slug, type_to_module);
        cur = f.offset + f.size;
        proof {
            assert(out@ =~= start + fields_text(t, type_to_module@));
        }
        i = i + 1;
    }
    proof {
        assert(sorted@.take(i as int) =~= sorted@);
    }
    cur
}

proof fn lemma_layout_arith_prefix(fs: Seq<ClassField>, n: int)
    requires
        layout_arith_ok(fs),
        0 <= n <= fs.len(),
    ensures
        layout_arith_ok(fs.take(n)),
    decreases fs.len(),
{
    if n < fs.len() {
        assert(fs.drop_last().take(n) =~= fs.take(n));
        lemma_layout_arith_prefix(fs.drop_last(), n);
    } else {
        assert(fs.take(n) =~= fs);
    }
}

fn append_offset_assert(out: &mut String, slug: &str, class_name: &str, f: &ClassField)
    ensures
        final(out)@ == old(out)@ + offset_assert_text(slug@, class_name@, *f),
{
    out.append("        static_assert(offsetof(CS2::");
    out.append(slug);
    out.append("::");
    out.append(class_name);
    out.append(", ");
    out.append(f.name.as_str());
    out.append(") == ");
    append_hex_i32(out, f.offset);
    out.append(", \"");
    out.append(f.name.as_str());
    out.append(" in ");
    out.append(class_name);
    out.append(" should be at offset ");
    append_hex_i32(out, f.offset);
    out.append("\");\n");
    proof {
        assert(final(out)@ =~= old(out)@ + offset_assert_text(slug@, class_name@, *f));
    }
}

fn append_offset_asserts(out: &mut String, slug: &str, class: &Class)
    ensures
        final(out)@ == old(out)@ + offset_asserts_text(slug@, class.name@, class.fields@),
{
    let ghost start = out@;
    let mut i: usize = 0;
    while i < class.fields.len()
        invariant
            i <= class.fields@.len(),
            out@ == start + offset_asserts_text(slug@, class.name@, class.fields@.take(i as int)),
        decreases class.fields@.len() - i,
    {
        append_offset_assert(out, slug, class.name.as_str(), &class.fields[i]);
        proof {
            let t = class.fields@.take(i + 1);
            assert(t.drop_last() =~= class.fields@.take(i as int));
            assert(t.last() == class.fields@[i as int]);
            assert(out@ =~= start + offset_asserts_text(slug@, class.name@, t));
        }
        i = i + 1;
    }
    proof {
        assert(class.fields@.take(i as int) =~= class.fields@);
    }
}

/// The part of a class header before its fields.
pub open spec fn class_head_text(
    slug: Seq<char>,
    class: Class,
    type_to_module: Seq<(Seq<char>, Seq<char>)>,
) -> Seq<char> {
    class_preamble_text(slug) + include_text(slug, class, type_to_module) + "\n"@
        + forward_decls_text(forward_decl_entries(class.fields@, type_to_module), class.name@)
        + class_open_text(slug, class, type_to_module)
}

/// The part of a class header after its fields, given the offset just past
/// the last field.
pub open spec fn class_tail_text(slug: Seq<char>, class: Class, cur: int) -> Seq<char> {
    end_padding_text(class.size as int, cur) + "        };\n#ifdef USE_STATIC_ASSERTS\n"@
        + offset_asserts_text(slug, class.name@, class.fields@) + size_assert_text(
        slug,
        class.name@,
        class.size as int,
    ) + "#endif\n    }\n}\n"@
}

proof fn lemma_class_header_parts(
    slug: Seq<char>,
    class: Class,
    type_to_module: Seq<(Seq<char>, Seq<char>)>,
)
    ensures
        class_header_text(slug, class, type_to_module) == class_head_text(
            slug,
            class,
            type_to_module,
        ) + fields_text(sort_by_offset(class.fields@), type_to_module) + class_tail_text(
            slug,
            class,
            offset_after(sort_by_offset(class.fields@)),
        ),
{
    assert(class_header_text(slug, class, type_to_module) =~= class_head_text(
        slug,
        class,
        type_to_module,
    ) + fields_text(sort_by_offset(class.fields@), type_to_module) + class_tail_text(
        slug,
        class,
        offset_after(sort_by_offset(class.fields@)),
    ));
}

fn append_class_head(out: &mut String, slug: &str, class: &Class, type_to_module: &StrMap<String>)
    requires
        type_to_module.wf(),
    ensures
        final(out)@ == old(out)@ + class_head_text(slug@, *class, type_to_module@),
{
    let ghost start = out@;
    out.append("#pragma once\n\n#include <cstdint>\n\n// /////////////////////////////////////////////////////////////\n// Module: ");
    out.append(slug);
    out.append("\n// Created using cs2-universal-dumper\n// /////////////////////////////////////////////////////////////\n\n#ifndef CUSTOM_GLOBAL_TYPES\n    #include \"../GlobalTypes.hpp\"\n#else\n    #include <Custom/GlobalTypes.hpp>\n#endif\n\n");
    proof {
        assert(out@ =~= start + class_preamble_text(slug@));
    }
    append_include(out, slug, class, type_to_module);
    out.append("\n");
    let decls = forward_decls(&class.fields, type_to_module);
    append_forward_decls(out, &decls, class.name.as_str());
    append_class_open(out, slug, class, type_to_module);
    proof {
        assert(out@ =~= start + class_head_text(slug@, *class, type_to_module@));
    }
}

fn append_size_assert(out: &mut String, slug: &str, class: &Class)
    ensures
        final(out)@ == old(out)@ + size_assert_text(slug@, class.name@, class.size as int),
{
    out.append("        static_assert(sizeof(CS2::");
    out.append(slug);
    out.append("::");
    out.append(class.name.as_str());
    out.append(") == ");
    append_hex_i32(out, class.size);
    out.append(", \"");
    out.append(class.name.as_str());
    out.append(" size should be ");
    append_hex_i32(out, class.size);
    out.append("\");\n");
    proof {
        assert(final(out)@ =~= old(out)@ + size_assert_text(slug@, class.name@, class.size as int));
    }
}

fn append_class_tail(out: &mut String, slug: &str, class: &Class, cur: i32)
    requires
        class.size > cur ==> in_i32(class.size - cur),
    ensures
        final(out)@ == old(out)@ + class_tail_text(slug@, *class, cur as int),
{
    let ghost start = out@;
    if class.size > cur {
        out.append("            // End padding\n");
        out.append("            S2_PAD(");
        append_hex_i32(out, class.size - cur);
        out.append(");\n");
    }
    proof {
        assert(out@ =~= start + end_padding_text(class.size as int, cur as int));
    }
    out.append("        };\n#ifdef USE_STATIC_ASSERTS\n");
    append_offset_asserts(out, slug, class);
    append_size_assert(out, slug, class);
    out.append("#endif\n    }\n}\n");
    proof {
        assert(out@ =~= start + class_tail_text(slug@, *class, cur as int));
    }
}

/// Renders the header of one class of module `module_slug`.
pub fn render_class_header(module_slug: &str, class: &Class, type_to_module: &StrMap<String>) -> (r:
    String)
    requires
        type_to_module.wf(),
        class_header_ok(*class),
    ensures
        r@ == class_header_text(module_slug@, *class, type_to_module@),
{
    let mut s = String::new();
    append_class_head(&mut s, module_slug, class, type_to_module);
    let ghost head = s@;
    let sorted = sorted_by_offset(&class.fields);
    proof {
        lemma_sort_by_offset(class.fields@);
        assert forall|i: int| 0 <= i < sorted@.len() implies map_type_ok(
            #[trigger] sorted@[i].type_str@,
        ) by {
            let j = choose|j: int| 0 <= j < class.fields@.len() && class.fields@[j] == sorted@[i];
            assert(map_type_ok(class.fields@[j].type_str@));
        }
    }
    let cur = append_fields(&mut s, &sorted, module_slug, type_to_module);
    append_class_tail(&mut s, module_slug, class, cur);
    proof {
        lemma_class_header_parts(module_slug@, *class, type_to_module@);
        assert(s@ =~= class_header_text(module_slug@, *class, type_to_module@));
    }
    s
}

/// The text written for each field, in order, each given the end of the
/// field before it.
pub open spec fn per_field_texts(fs: Seq<ClassField>, type_to_module: Seq<(Seq<char>, Seq<char>)>) -> Seq<
    Seq<char>,
> {
    Seq::new(fs.len(), |i: int| field_text(fs[i], offset_after(fs.take(i)), type_to_module))
}

proof fn lemma_fields_text_flat(fs: Seq<ClassField>, type_to_module: Seq<(Seq<char>, Seq<char>)>)
    ensures
        fields_text(fs, type_to_module) == per_field_texts(fs, type_to_module).flatten(),
    decreases fs.len(),
{
    if fs.len() > 0 {
        let t = fs.drop_last();
        lemma_fields_text_flat(t, type_to_module);
        let n = fs.len() - 1;
        assert(fs.take(n) =~= t);
        assert(per_field_texts(fs, type_to_module) =~= per_field_texts(t, type_to_module).push(
            field_text(fs.last(), offset_after(t), type_to_module),
        )) by {
            assert forall|i: int| 0 <= i < n implies #[trigger] fs.take(i) == t.take(i) by {
                assert(fs.take(i) =~= t.take(i));
            }
        }
        per_field_texts(t, type_to_module).lemma_flatten_push(
            field_text(fs.last(), offset_after(t), type_to_module),
        );
    }
}

/// A class header writes every field once, as one block per field, in offset
/// order (a stable sort of the declared fields), between the head of the
/// class and its tail; each block is given the end of the block before it.
pub proof fn law_class_header_fields_in_offset_order(
    slug: Seq<char>,
    class: Class,
    type_to_module: Seq<(Seq<char>, Seq<char>)>,
    v: i32,
)
    ensures
        class_header_text(slug, class, type_to_module) == class_head_text(slug, class, type_to_module)
            + per_field_texts(sort_by_offset(class.fields@), type_to_module).flatten()
            + class_tail_text(slug, class, offset_after(sort_by_offset(class.fields@))),
        offsets_nondecreasing(sort_by_offset(class.fields@)),
        sort_by_offset(class.fields@).to_multiset() == class.fields@.to_multiset(),
        with_offset(sort_by_offset(class.fields@), v) == with_offset(class.fields@, v),
{
    lemma_class_header_parts(slug, class, type_to_module);
    lemma_fields_text_flat(sort_by_offset(class.fields@), type_to_module);
    lemma_sort_by_offset(class.fields@);
    law_sort_by_offset_stable(class.fields@, v);
}

/// A field's block opens with a padding line exactly when the field starts
/// after the end of the field before it, and that line pads by the gap, a
/// positive amount; overlapping and adjacent fields get none.
pub proof fn law_padding_lines_are_positive(f: ClassField, cur: int)
    ensures
        pad_amount(f, cur) >= 0,
        gap_text(f.offset as int, cur) == if pad_amount(f, cur) > 0 {
            "            S2_PAD("@ + hex_i32(pad_amount(f, cur)) + ");\n"@
        } else {
            Seq::<char>::empty()
        },
        pad_amount(f, cur) > 0 <==> f.offset > cur,
{
}

/// The end padding of a class is written exactly when the class is larger
/// than the end of its last field in offset order, and pads by the
/// difference.
pub proof fn law_end_padding_only_when_class_is_larger(size: int, cur: int)
    ensures
        end_padding_text(size, cur) == if size > cur {
            "            // End padding\n"@ + "            S2_PAD("@ + hex_i32(size - cur) + ");\n"@
        } else {
            Seq::<char>::empty()
        },
{
}

/// The layout assertions of a class: one offset assertion per field in
/// declared order (not sorted), then the size assertion.
pub proof fn law_static_asserts_in_declared_order(slug: Seq<char>, class_name: Seq<char>, fs: Seq<ClassField>)
    ensures
        offset_asserts_text(slug, class_name, fs) == Seq::new(
            fs.len(),
            |i: int| offset_assert_text(slug, class_name, fs[i]),
        ).flatten(),
    decreases fs.len(),
{
    if fs.len() > 0 {
        let t = fs.drop_last();
        law_static_asserts_in_declared_order(slug, class_name, t);
        let each = Seq::new(t.len(), |i: int| offset_assert_text(slug, class_name, t[i]));
        assert(Seq::new(fs.len(), |i: int| offset_assert_text(slug, class_name, fs[i])) =~= each.push(
            offset_assert_text(slug, class_name, fs.last()),
        ));
        each.lemma_flatten_push(offset_assert_text(slug, class_name, fs.last()));
    }
}

/// A class with a parent includes the parent's header by name when the
/// parent is declared in the same module, by a relative path into the
/// parent's module when it is declared in another, and not at all when it is
/// unknown; the class line derives from the parent in its module, or in this
/// module when it is unknown.
pub proof fn law_parent_include(
    slug: Seq<char>,
    class: Class,
    type_to_module: Seq<(Seq<char>, Seq<char>)>,
    parent: Seq<char>,
)
    requires
        class.parent_name matches Some(p) && p@ == parent,
    ensures
        lookup(type_to_module, parent) == Some(slug) ==> include_text(slug, class, type_to_module)
            == "#include \""@ + parent + ".hpp\"\n"@,
        match lookup(type_to_module, parent) {
            Some(m) => m != slug ==> include_text(slug, class, type_to_module) == "#include \"../../"@
                + m + "/"@ + parent + ".hpp\"\n"@,
            None => true,
        },
        lookup(type_to_module, parent) is None ==> include_text(slug, class, type_to_module)
            == Seq::<char>::empty(),
        parent_clause(slug, class, type_to_module) == " : public CS2::"@ + (match lookup(
            type_to_module,
            parent,
        ) {
            Some(m) => m,
            None => slug,
        }) + "::"@ + parent,
{
}

proof fn lemma_layout_arith_step(fs: Seq<ClassField>, n: int)
    requires
        0 <= n < fs.len(),
        layout_arith_ok(fs.take(n)),
        fs[n].offset > offset_after(fs.take(n)) ==> in_i32(fs[n].offset - offset_after(fs.take(n))),
        in_i32(fs[n].offset + fs[n].size),
    ensures
        layout_arith_ok(fs.take(n + 1)),
{
    let t = fs.take(n + 1);
    assert(t.drop_last() =~= fs.take(n));
    assert(t.last() == fs[n]);
}

/// Whether a header can be written for `class` (see `class_header_ok`).
pub fn class_header_renderable(class: &Class) -> (r: bool)
    ensures
        r == class_header_ok(*class),
{
    let mut i: usize = 0;
    while i < class.fields.len()
        invariant
            i <= class.fields@.len(),
            forall|j: int| 0 <= j < i ==> map_type_ok(#[trigger] class.fields@[j].type_str@),
        decreases class.fields@.len() - i,
    {
        if !map_type_defined(class.fields[i].type_str.as_str()) {
            return false;
        }
        i = i + 1;
    }
    let sorted = sorted_by_offset(&class.fields);
    let mut cur: i64 = 0;
    let mut k: usize = 0;
    while k < sorted.len()
        invariant
            sorted@ == sort_by_offset(class.fields@),
            forall|j: int|
                0 <= j < class.fields@.len() ==> map_type_ok(#[trigger] class.fields@[j].type_str@),
            k <= sorted@.len(),
            layout_arith_ok(sorted@.take(k as int)),
            cur == offset_after(sorted@.take(k as int)),
            in_i32(cur as int),
        decreases sorted@.len() - k,
    {
        let f = &sorted[k];
        let off = f.offset as i64;
        if off > cur && off - cur > 0x7fff_ffff {
            proof {
                assert(!layout_arith_ok(sorted@.take(k + 1))) by {
                    let t = sorted@.take(k + 1);
                    assert(t.drop_last() =~= sorted@.take(k as int));
                    assert(t.last() == sorted@[k as int]);
                }
                lemma_layout_arith_not_extended(sorted@, k + 1);
            }
            return false;
        }
        let end = off + f.size as i64;
        if end > 0x7fff_ffff || end < -0x8000_0000 {
            proof {
                assert(!layout_arith_ok(sorted@.take(k + 1))) by {
                    let t = sorted@.take(k + 1);
                    assert(t.drop_last() =~= sorted@.take(k as int));
                    assert(t.last() == sorted@[k as int]);
                }
                lemma_layout_arith_not_extended(sorted@, k + 1);
            }
            return false;
        }
        proof {
            lemma_layout_arith_step(sorted@, k as int);
            let t = sorted@.take(k + 1);
            assert(t.last() == sorted@[k as int]);
        }
        cur = end;
        k = k + 1;
    }
    proof {
        assert(sorted@.take(k as int) =~= sorted@);
    }
    let size = class.size as i64;
    if size > cur && size - cur > 0x7fff_ffff {
        return false;
    }
    true
}

proof fn lemma_layout_arith_not_extended(fs: Seq<ClassField>, n: int)
    requires
        0 <= n <= fs.len(),
        !layout_arith_ok(fs.take(n)),
    ensures
        !layout_arith_ok(fs),
{
    if layout_arith_ok(fs) {
        lemma_layout_arith_prefix(fs, n);
    }
}

// ---------------------------------------------------------------------------
// Enum headers and the shared types header
// ---------------------------------------------------------------------------

/// The C++ underlying type of an enum with the given alignment.
pub open spec fn underlying_type(alignment: u8) -> Seq<char> {
    if alignment == 1 {
        "uint8_t"@
    } else if alignment == 2 {
        "uint16_t"@
    } else if alignment == 4 {
        "uint32_t"@
    } else if alignment == 8 {
        "uint64_t"@
    } else {
        "uint32_t"@
    }
}

/// One enumerator line.
pub open spec fn enum_member_text(m: EnumMember) -> Seq<char> {
    "            "@ + m.name@ + " = "@ + hex_text(i64_bits(m.value as int)) + ",\n"@
}

/// The enumerator lines, in order.
pub open spec fn enum_members_text(ms: Seq<EnumMember>) -> Seq<char>
    decreases ms.len(),
{
    if ms.len() == 0 {
        Seq::empty()
    } else {
        enum_members_text(ms.drop_last()) + enum_member_text(ms.last())
    }
}

/// The header of an enum of module `slug`.
pub open spec fn enum_header_text(slug: Seq<char>, e: Enum) -> Seq<char> {
    "// generated - do not edit!\n#pragma once\n\n#include <cstdint>\n\nnamespace CS2 {\n    namespace "@
        + slug + " {\n        enum class "@ + e.name@ + " : "@ + underlying_type(e.alignment)
        + " {\n"@ + enum_members_text(e.members@) + "        };\n    }\n}\n"@
}

fn underlying_type_text(alignment: u8) -> (r: &'static str)
    ensures
        r@ == underlying_type(alignment),
{
    if alignment == 1 {
        "uint8_t"
    } else if alignment == 2 {
        "uint16_t"
    } else if alignment == 4 {
        "uint32_t"
    } else if alignment == 8 {
        "uint64_t"
    } else {
        "uint32_t"
    }
}

/// Renders the header of one enum of module `module_slug`.
pub fn render_enum_header(module_slug: &str, e: &Enum) -> (r: String)
    ensures
        r@ == enum_header_text(module_slug@, *e),
{
    let mut s = String::new();
    s.append(
        "// generated - do not edit!\n#pragma once\n\n#include <cstdint>\n\nnamespace CS2 {\n    namespace ",
    );
    s.append(module_slug);
    s.append(" {\n        enum class ");
    s.append(e.name.as_str());
    s.append(" : ");
    s.append(underlying_type_text(e.alignment));
    s.append(" {\n");
    let ghost start = s@;
    let mut i: usize = 0;
    while i < e.members.len()
        invariant
            i <= e.members@.len(),
            s@ == start + enum_members_text(e.members@.take(i as int)),
        decreases e.members@.len() - i,
    {
        let m = &e.members[i];
        s.append("            ");
        s.append(m.name.as_str());
        s.append(" = ");
        append_hex_i64(&mut s, m.value);
        s.append(",\n");
        proof {
            let t = e.members@.take(i + 1);
            assert(t.drop_last() =~= e.members@.take(i as int));
            assert(t.last() == e.members@[i as int]);
            assert(s@ =~= start + enum_members_text(t));
        }
        i = i + 1;
    }
    proof {
        assert(e.members@.take(i as int) =~= e.members@);
    }
    s.append("        };\n    }\n}\n");
    proof {
        assert(s@ =~= enum_header_text(module_slug@, *e));
    }
    s
}

/// Whether `raw` is mapped as one of the handle or vector wrappers.
pub open spec fn is_wrapper_type(raw: Seq<char>) -> bool {
    ||| starts_with(raw, "CHandle<"@) && raw.len() > "CHandle<"@.len()
    ||| starts_with(raw, "CStrongHandle<"@) && raw.len() > "CStrongHandle<"@.len()
    ||| starts_with(raw, "CUtlVector<"@) && raw.len() > "CUtlVector<"@.len()
}

/// A pointer field that is not a wrapper always maps to a C++ type ending in
/// `*`, and gets at most one `*` more than its plain mapping.
pub proof fn law_pointer_types_end_with_star(raw: Seq<char>, type_to_module: Seq<(Seq<char>, Seq<char>)>)
    requires
        !is_wrapper_type(raw),
    ensures
        ends_with_char(map_type_spec(raw, "Schema_Ptr"@, type_to_module), '*'),
        map_type_spec(raw, "Schema_Ptr"@, type_to_module).len() <= plain_type_name(
            raw,
            type_to_module,
        ).len() + 1,
{
}

/// Some class of `classes` is named `q`.
pub open spec fn classes_declare(classes: Seq<Class>, q: Seq<char>) -> bool {
    exists|j: int| 0 <= j < classes.len() && #[trigger] classes[j].name@ == q
}

/// Some enum of `enums` is named `q`.
pub open spec fn enums_declare(enums: Seq<Enum>, q: Seq<char>) -> bool {
    exists|j: int| 0 <= j < enums.len() && #[trigger] enums[j].name@ == q
}

/// The slug of the last module (in the order given) whose classes or enums
/// declare a type named `q`, if any.
pub open spec fn declaring_slug(
    modules: Seq<(Seq<char>, (Seq<Class>, Seq<Enum>))>,
    slugs: Seq<Seq<char>>,
    q: Seq<char>,
) -> Option<Seq<char>>
    decreases modules.len(),
{
    if modules.len() == 0 {
        None
    } else {
        let n = modules.len() - 1;
        if classes_declare(modules[n].1.0, q) || enums_declare(modules[n].1.1, q) {
            Some(slugs[n])
        } else {
            declaring_slug(modules.drop_last(), slugs, q)
        }
    }
}

proof fn lemma_record_class_names_lookup(
    m: Seq<(Seq<char>, Seq<char>)>,
    classes: Seq<Class>,
    slug: Seq<char>,
    q: Seq<char>,
)
    ensures
        lookup(record_class_names(m, classes, slug), q) == if classes_declare(classes, q) {
            Some(slug)
        } else {
            lookup(m, q)
        },
    decreases classes.len(),
{
    if classes.len() > 0 {
        let t = classes.drop_last();
        lemma_record_class_names_lookup(m, t, slug, q);
        lemma_sorted_insert_lookup(record_class_names(m, t, slug), classes.last().name@, slug, q);
        if classes_declare(t, q) {
            let j = choose|j: int| 0 <= j < t.len() && #[trigger] t[j].name@ == q;
            assert(classes[j] == t[j]);
        }
        if classes_declare(classes, q) && !classes_declare(t, q) {
            let j = choose|j: int| 0 <= j < classes.len() && #[trigger] classes[j].name@ == q;
            if j < t.len() {
                assert(t[j] == classes[j]);
            }
        }
        if classes.last().name@ == q {
            assert(classes[classes.len() - 1].name@ == q);
        }
    }
}

proof fn lemma_record_enum_names_lookup(
    m: Seq<(Seq<char>, Seq<char>)>,
    enums: Seq<Enum>,
    slug: Seq<char>,
    q: Seq<char>,
)
    ensures
        lookup(record_enum_names(m, enums, slug), q) == if enums_declare(enums, q) {
            Some(slug)
        } else {
            lookup(m, q)
        },
    decreases enums.len(),
{
    if enums.len() > 0 {
        let t = enums.drop_last();
        lemma_record_enum_names_lookup(m, t, slug, q);
        lemma_sorted_insert_lookup(record_enum_names(m, t, slug), enums.last().name@, slug, q);
        if enums_declare(t, q) {
            let j = choose|j: int| 0 <= j < t.len() && #[trigger] t[j].name@ == q;
            assert(enums[j] == t[j]);
        }
        if enums_declare(enums, q) && !enums_declare(t, q) {
            let j = choose|j: int| 0 <= j < enums.len() && #[trigger] enums[j].name@ == q;
            if j < t.len() {
                assert(t[j] == enums[j]);
            }
        }
        if enums.last().name@ == q {
            assert(enums[enums.len() - 1].name@ == q);
        }
    }
}

/// The type map holds exactly the names that some module declares as a class
/// or an enum, and maps each to the slug of the last module, in module order,
/// that declares it.
pub proof fn law_type_map_is_last_declaring_module(
    modules: Seq<(Seq<char>, (Seq<Class>, Seq<Enum>))>,
    slugs: Seq<Seq<char>>,
    q: Seq<char>,
)
    ensures
        lookup(type_module_entries(modules, slugs), q) == declaring_slug(modules, slugs, q),
    decreases modules.len(),
{
    if modules.len() > 0 {
        let n = modules.len() - 1;
        let prev = type_module_entries(modules.drop_last(), slugs);
        law_type_map_is_last_declaring_module(modules.drop_last(), slugs, q);
        lemma_record_class_names_lookup(prev, modules[n].1.0, slugs[n], q);
        lemma_record_enum_names_lookup(
            record_class_names(prev, modules[n].1.0, slugs[n]),
            modules[n].1.1,
            slugs[n],
            q,
        );
    }
}

proof fn lemma_record_class_names_keeps(
    m: Seq<(Seq<char>, Seq<char>)>,
    classes: Seq<Class>,
    slug: Seq<char>,
    q: Seq<char>,
)
    ensures
        lookup(m, q) is Some ==> lookup(record_class_names(m, classes, slug), q) is Some,
        (exists|j: int| 0 <= j < classes.len() && classes[j].name@ == q) ==> lookup(
            record_class_names(m, classes, slug),
            q,
        ) is Some,
    decreases classes.len(),
{
    if classes.len() > 0 {
        let prev = record_class_names(m, classes.drop_last(), slug);
        lemma_record_class_names_keeps(m, classes.drop_last(), slug, q);
        lemma_sorted_insert_lookup(prev, classes.last().name@, slug, q);
        if exists|j: int| 0 <= j < classes.len() && classes[j].name@ == q {
            let j = choose|j: int| 0 <= j < classes.len() && classes[j].name@ == q;
            if j < classes.len() - 1 {
                assert(classes.drop_last()[j] == classes[j]);
            }
        }
    }
}

proof fn lemma_record_enum_names_keeps(
    m: Seq<(Seq<char>, Seq<char>)>,
    enums: Seq<Enum>,
    slug: Seq<char>,
    q: Seq<char>,
)
    ensures
        lookup(m, q) is Some ==> lookup(record_enum_names(m, enums, slug), q) is Some,
        (exists|j: int| 0 <= j < enums.len() && enums[j].name@ == q) ==> lookup(
            record_enum_names(m, enums, slug),
            q,
        ) is Some,
    decreases enums.len(),
{
    if enums.len() > 0 {
        let prev = record_enum_names(m, enums.drop_last(), slug);
        lemma_record_enum_names_keeps(m, enums.drop_last(), slug, q);
        lemma_sorted_insert_lookup(prev, enums.last().name@, slug, q);
        if exists|j: int| 0 <= j < enums.len() && enums[j].name@ == q {
            let j = choose|j: int| 0 <= j < enums.len() && enums[j].name@ == q;
            if j < enums.len() - 1 {
                assert(enums.drop_last()[j] == enums[j]);
            }
        }
    }
}

/// Every class and every enum of every module can be found in the
/// type-to-module map, and the map is in name order.
pub proof fn law_type_map_covers_all_types(
    modules: Seq<(Seq<char>, (Seq<Class>, Seq<Enum>))>,
    slugs: Seq<Seq<char>>,
    i: int,
    q: Seq<char>,
)
    requires
        0 <= i < modules.len(),
        (exists|j: int| 0 <= j < modules[i].1.0.len() && modules[i].1.0[j].name@ == q) || (exists|
            j: int,
        | 0 <= j < modules[i].1.1.len() && modules[i].1.1[j].name@ == q),
    ensures
        lookup(type_module_entries(modules, slugs), q) is Some,
    decreases modules.len(),
{
    let n = modules.len() - 1;
    let prev = type_module_entries(modules.drop_last(), slugs);
    let mid = record_class_names(prev, modules[n].1.0, slugs[n]);
    if i < n {
        assert(modules.drop_last()[i] == modules[i]);
        law_type_map_covers_all_types(modules.drop_last(), slugs, i, q);
        lemma_record_class_names_keeps(prev, modules[n].1.0, slugs[n], q);
        lemma_record_enum_names_keeps(mid, modules[n].1.1, slugs[n], q);
    } else {
        lemma_record_class_names_keeps(prev, modules[n].1.0, slugs[n], q);
        lemma_record_enum_names_keeps(mid, modules[n].1.1, slugs[n], q);
    }
}

/// The type-to-module map is always in name order.
pub proof fn law_type_map_sorted(
    modules: Seq<(Seq<char>, (Seq<Class>, Seq<Enum>))>,
    slugs: Seq<Seq<char>>,
)
    ensures
        keys_sorted(type_module_entries(modules, slugs)),
    decreases modules.len(),
{
    if modules.len() > 0 {
        let n = modules.len() - 1;
        law_type_map_sorted(modules.drop_last(), slugs);
        let prev = type_module_entries(modules.drop_last(), slugs);
        lemma_record_class_names_sorted(prev, modules[n].1.0, slugs[n]);
        lemma_record_enum_names_sorted(
            record_class_names(prev, modules[n].1.0, slugs[n]),
            modules[n].1.1,
            slugs[n],
        );
    }
}

proof fn lemma_record_class_names_sorted(
    m: Seq<(Seq<char>, Seq<char>)>,
    classes: Seq<Class>,
    slug: Seq<char>,
)
    requires
        keys_sorted(m),
    ensures
        keys_sorted(record_class_names(m, classes, slug)),
    decreases classes.len(),
{
    if classes.len() > 0 {
        lemma_record_class_names_sorted(m, classes.drop_last(), slug);
        lemma_sorted_insert_sorted(
            record_class_names(m, classes.drop_last(), slug),
            classes.last().name@,
            slug,
        );
    }
}

proof fn lemma_record_enum_names_sorted(
    m: Seq<(Seq<char>, Seq<char>)>,
    enums: Seq<Enum>,
    slug: Seq<char>,
)
    requires
        keys_sorted(m),
    ensures
        keys_sorted(record_enum_names(m, enums, slug)),
    decreases enums.len(),
{
    if enums.len() > 0 {
        lemma_record_enum_names_sorted(m, enums.drop_last(), slug);
        lemma_sorted_insert_sorted(
            record_enum_names(m, enums.drop_last(), slug),
            enums.last().name@,
            slug,
        );
    }
}

/// The shared header of engine types that the class headers include.
pub open spec fn global_types_text() -> Seq<char> {
    "#pragma once\n\n#include <cstdint>\n#include <cstddef>\n\nnamespace GlobalTypes {\n    using uint8 = uint8_t;\n    using uint16 = uint16_t;\n    using uint32 = uint32_t;\n    using uint64 = uint64_t;\n    using int8 = int8_t;\n    using int16 = int16_t;\n    using int32 = int32_t;\n    using int64 = int64_t;\n\n    template <typename T>\n    struct CHandle {\n        uint32 m_Index;\n    };\n\n    template <typename T>\n    struct CStrongHandle {\n        uint64 m_Value;\n    };\n\n    template <typename T>\n    struct CUtlVector {\n        T* m_pElements;\n        int32 m_Size;\n        int32 m_Capacity;\n    };\n\n    struct CUtlString {\n        char* m_pString;\n    };\n\n    struct CUtlSymbolLarge {\n        const char* m_pString;\n    };\n\n    struct CUtlStringToken {\n        uint32 m_nHashCode;\n    };\n\n    struct CSplitScreenSlot {\n        int32 m_nSlot;\n    };\n\n    struct Vector { float x, y, z; };\n    struct Vector2D { float x, y; };\n    struct Vector4D { float x, y, z, w; };\n    struct QAngle { float x, y, z; };\n    struct Quaternion { float x, y, z, w; };\n    struct Color { uint8 r, g, b, a; };\n\n    using CEntityIndex = uint32;\n}\n\n#define S2_PAD(size) char pad_##__LINE__[size]\n"@
}

/// The shared header of engine types that the class headers include.
pub fn global_types_header() -> (r: &'static str)
    ensures
        r@ == global_types_text(),
{
    "#pragma once\n\n#include <cstdint>\n#include <cstddef>\n\nnamespace GlobalTypes {\n    using uint8 = uint8_t;\n    using uint16 = uint16_t;\n    using uint32 = uint32_t;\n    using uint64 = uint64_t;\n    using int8 = int8_t;\n    using int16 = int16_t;\n    using int32 = int32_t;\n    using int64 = int64_t;\n\n    template <typename T>\n    struct CHandle {\n        uint32 m_Index;\n    };\n\n    template <typename T>\n    struct CStrongHandle {\n        uint64 m_Value;\n    };\n\n    template <typename T>\n    struct CUtlVector {\n        T* m_pElements;\n        int32 m_Size;\n        int32 m_Capacity;\n    };\n\n    struct CUtlString {\n        char* m_pString;\n    };\n\n    struct CUtlSymbolLarge {\n        const char* m_pString;\n    };\n\n    struct CUtlStringToken {\n        uint32 m_nHashCode;\n    };\n\n    struct CSplitScreenSlot {\n        int32 m_nSlot;\n    };\n\n    struct Vector { float x, y, z; };\n    struct Vector2D { float x, y; };\n    struct Vector4D { float x, y, z, w; };\n    struct QAngle { float x, y, z; };\n    struct Quaternion { float x, y, z, w; };\n    struct Color { uint8 r, g, b, a; };\n\n    using CEntityIndex = uint32;\n}\n\n#define S2_PAD(size) char pad_##__LINE__[size]\n"
}

} // verus!

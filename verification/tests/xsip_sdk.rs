use std::collections::{BTreeMap, BTreeSet};

use cs2_dumper::analysis::schemas::{
    schemas_from_scopes, Class, ClassField, Enum, EnumMember, TypeScope,
};
use cs2_dumper::strmap::StrMap;
use cs2_dumper::output::xsip_sdk::{
    build_type_to_module_map, class_header_renderable, forward_decls, map_type, map_type_defined,
    module_slug_source_text, render_class_header, render_enum_header, sorted_by_offset,
};

fn field(name: &str, ty: &str, offset: i32, size: i32, category: &str) -> ClassField {
    ClassField {
        name: name.to_string(),
        type_str: ty.to_string(),
        offset,
        size,
        category: category.to_string(),
    }
}

fn class(name: &str, parent: Option<&str>, fields: Vec<ClassField>, size: i32) -> Class {
    Class {
        name: name.to_string(),
        module_name: "client.dll".to_string(),
        parent_name: parent.map(|p| p.to_string()),
        metadata: vec![],
        fields,
        size,
    }
}

fn type_map(pairs: &[(&str, &str)]) -> StrMap<String> {
    let mut m = StrMap::new();
    for (k, v) in pairs {
        m.insert(k.to_string(), v.to_string());
    }
    m
}

fn to_btree(m: &StrMap<String>) -> BTreeMap<String, String> {
    (0..m.len()).map(|i| (m.key_at(i).clone(), m.value_at(i).clone())).collect()
}

// An independent rendering of a class header with std collections and
// formatting, to compare against.
fn line(s: &mut String, t: &str) {
    s.push_str(t);
    s.push('\n');
}

fn expected_map_type(raw: &str, category: &str, t2m: &BTreeMap<String, String>) -> String {
    for (prefix, out) in [
        ("CHandle<", "GlobalTypes::CHandle"),
        ("CStrongHandle<", "GlobalTypes::CStrongHandle"),
        ("CUtlVector<", "GlobalTypes::CUtlVector"),
    ] {
        if raw.starts_with(prefix) {
            let inner = raw[prefix.len()..raw.len() - 1].trim();
            return format!("{}<{}>", out, expected_map_type(inner, "Schema_Builtin", t2m));
        }
    }
    let mut result: String = match raw {
        "int32" | "uint32" | "int16" | "uint16" | "int8" | "uint8" | "int64" | "uint64"
        | "bool" | "char" => raw.into(),
        "float32" => "float".into(),
        "float64" => "double".into(),
        "Vector" | "Vector2D" | "Vector4D" | "QAngle" | "Quaternion" | "Color" | "CUtlString"
        | "CUtlSymbolLarge" | "CUtlStringToken" | "CSplitScreenSlot" => {
            format!("GlobalTypes::{}", raw)
        }
        _ => match t2m.get(raw) {
            Some(m) => format!("CS2::{}::{}", m, raw),
            None => raw.to_string(),
        },
    };
    if category == "Schema_Ptr" && !result.ends_with('*') {
        result.push('*');
    }
    result
}

fn expected_header(slug: &str, class: &Class, t2m: &BTreeMap<String, String>) -> String {
    let mut s = String::new();
    line(&mut s, &format!("#pragma once"));
    line(&mut s, "");
    line(&mut s, &format!("#include <cstdint>"));
    line(&mut s, "");
    line(&mut s, &format!("// /////////////////////////////////////////////////////////////"));
    line(&mut s, &format!("// Module: {}", slug));
    line(&mut s, &format!("// Created using cs2-universal-dumper"));
    line(&mut s, &format!("// /////////////////////////////////////////////////////////////"));
    line(&mut s, "");
    line(&mut s, &format!("#ifndef CUSTOM_GLOBAL_TYPES"));
    line(&mut s, &format!("    #include \"../GlobalTypes.hpp\""));
    line(&mut s, &format!("#else"));
    line(&mut s, &format!("    #include <Custom/GlobalTypes.hpp>"));
    line(&mut s, &format!("#endif"));
    line(&mut s, "");
    if let Some(parent) = &class.parent_name {
        if let Some(module) = t2m.get(parent) {
            if module == slug {
                line(&mut s, &format!("#include \"{}.hpp\"", parent));
            } else {
                line(&mut s, &format!("#include \"../../{}/{}.hpp\"", module, parent));
            }
        }
    }
    line(&mut s, "");
    let mut decls: BTreeMap<String, BTreeSet<String>> = BTreeMap::new();
    for f in &class.fields {
        let clean = f.type_str.split('<').next().unwrap().split('[').next().unwrap();
        if let Some(m) = t2m.get(clean) {
            decls.entry(m.clone()).or_default().insert(clean.to_string());
        }
    }
    for (module, types) in decls {
        line(&mut s, &format!("namespace CS2 {{"));
        line(&mut s, &format!("    namespace {} {{", module));
        for ty in types {
            if ty != class.name {
                line(&mut s, &format!("        class {};", ty));
            }
        }
        line(&mut s, &format!("    }}"));
        line(&mut s, &format!("}}"));
    }
    line(&mut s, "");
    line(&mut s, &format!("using namespace GlobalTypes;"));
    line(&mut s, &format!("namespace CS2 {{"));
    line(&mut s, &format!("    namespace {} {{", slug));
    let parent_str = match &class.parent_name {
        Some(p) => format!(
            " : public CS2::{}::{}",
            t2m.get(p).map(|m| m.as_str()).unwrap_or(slug),
            p
        ),
        None => String::new(),
    };
    line(&mut s, &format!("        class {}{} {{", class.name, parent_str));
    line(&mut s, &format!("        public:"));
    let mut cur = 0i32;
    let mut sorted = class.fields.clone();
    sorted.sort_by_key(|f| f.offset);
    for f in sorted {
        if f.offset > cur {
            line(&mut s, &format!("            S2_PAD({:#X});", f.offset - cur));
        }
        line(&mut s, &format!("            // {} : {}", f.name, f.type_str));
        line(&mut s, &format!("            // Offset: {:#X}", f.offset));
        line(&mut s, &format!("            // Size: {:#X}", f.size));
        line(&mut s, &format!("            // Category: {}", f.category));
        line(&mut s, &format!("            // Type: {}", f.type_str));
        let cpp = expected_map_type(&f.type_str, &f.category, t2m);
        line(&mut s, &format!("            {} {}; // {:#X}", cpp, f.name, f.offset));
        line(&mut s, "");
        cur = f.offset + f.size;
    }
    if class.size > cur {
        line(&mut s, &format!("            // End padding"));
        line(&mut s, &format!("            S2_PAD({:#X});", class.size - cur));
    }
    line(&mut s, &format!("        }};"));
    line(&mut s, &format!("#ifdef USE_STATIC_ASSERTS"));
    for f in &class.fields {
        line(&mut s, &format!("        static_assert(offsetof(CS2::{}::{}, {}) == {:#X}, \"{} in {} should be at offset {:#X}\");",
            slug, class.name, f.name, f.offset, f.name, class.name, f.offset
        ));
    }
    line(&mut s, &format!("        static_assert(sizeof(CS2::{}::{}) == {:#X}, \"{} size should be {:#X}\");",
        slug, class.name, class.size, class.name, class.size
    ));
    line(&mut s, &format!("#endif"));
    line(&mut s, &format!("    }}"));
    line(&mut s, &format!("}}"));
    s
}

fn sample_type_map() -> StrMap<String> {
    type_map(&[
        ("C_BaseEntity", "client_dll"),
        ("CEntityInstance", "client_dll"),
        ("CGameSceneNode", "client_dll"),
        ("MoveType_t", "client_dll"),
        ("CNetworkedQuantizedFloat", "engine2_dll"),
        ("GameTime_t", "engine2_dll"),
        ("int32", "weird_dll"),
    ])
}

#[test]
fn map_type_cases() {
    let t = sample_type_map();
    let m = |raw: &str, cat: &str| map_type(raw, cat, "client_dll", &t);
    assert_eq!(m("int32", "Schema_Builtin"), "int32");
    assert_eq!(m("float32", "Schema_Builtin"), "float");
    assert_eq!(m("float64", "Schema_Builtin"), "double");
    assert_eq!(m("Vector", "Schema_Builtin"), "GlobalTypes::Vector");
    assert_eq!(m("CUtlSymbolLarge", "Schema_Builtin"), "GlobalTypes::CUtlSymbolLarge");
    assert_eq!(m("C_BaseEntity", "Schema_DeclaredClass"), "CS2::client_dll::C_BaseEntity");
    assert_eq!(m("CGameSceneNode", "Schema_Ptr"), "CS2::client_dll::CGameSceneNode*");
    assert_eq!(m("char*", "Schema_Ptr"), "char*");
    assert_eq!(m("Unknown_t", "Schema_Ptr"), "Unknown_t*");
    assert_eq!(m("Unknown_t", "Schema_Atomic"), "Unknown_t");
    assert_eq!(
        m("CHandle< C_BaseEntity >", "Schema_Atomic"),
        "GlobalTypes::CHandle<CS2::client_dll::C_BaseEntity>"
    );
    assert_eq!(
        m("CUtlVector<CHandle<CGameSceneNode>>", "Schema_Atomic"),
        "GlobalTypes::CUtlVector<GlobalTypes::CHandle<CS2::client_dll::CGameSceneNode>>"
    );
    assert_eq!(m("CStrongHandle<int32>", "Schema_Ptr"), "GlobalTypes::CStrongHandle<int32>");
    assert_eq!(m("CUtlVector<float32>", "Schema_Atomic"), "GlobalTypes::CUtlVector<float>");
}

#[test]
fn map_type_matches_independent_rendering() {
    let t = sample_type_map();
    let bt = to_btree(&t);
    for raw in [
        "int8", "uint64", "bool", "char", "Color", "QAngle", "GameTime_t", "MoveType_t",
        "CHandle<C_BaseEntity>", "CStrongHandle<InfoForResourceTypeCModel>",
        "CUtlVector< CHandle< C_BaseEntity > >", "float32[3]", "int32",
    ] {
        for cat in ["Schema_Builtin", "Schema_Ptr", "Schema_Atomic"] {
            assert_eq!(map_type(raw, cat, "client_dll", &t), expected_map_type(raw, cat, &bt));
        }
    }
}

#[test]
fn map_type_defined_rejects_uncuttable_wrappers() {
    assert!(map_type_defined("CHandle<int32>"));
    assert!(map_type_defined("int32"));
    assert!(!map_type_defined("CHandle<"));
    assert!(!map_type_defined("CUtlVector<intX\u{e9}"));
    assert!(!map_type_defined("CUtlVector<CHandle<>"));
}

#[test]
fn enum_header_exact_text() {
    let e = Enum {
        name: "MoveType_t".to_string(),
        alignment: 1,
        size: 3,
        members: vec![
            EnumMember { name: "MOVETYPE_NONE".to_string(), value: 0 },
            EnumMember { name: "MOVETYPE_WALK".to_string(), value: 2 },
            EnumMember { name: "MOVETYPE_LAST".to_string(), value: -1 },
        ],
    };
    let expected = "// generated - do not edit!\n#pragma once\n\n#include <cstdint>\n\nnamespace CS2 {\n    namespace client_dll {\n        enum class MoveType_t : uint8_t {\n            MOVETYPE_NONE = 0x0,\n            MOVETYPE_WALK = 0x2,\n            MOVETYPE_LAST = 0xFFFFFFFFFFFFFFFF,\n        };\n    }\n}\n";
    assert_eq!(render_enum_header("client_dll", &e), expected);
}

#[test]
fn enum_header_underlying_types() {
    for (a, u) in [(1u8, "uint8_t"), (2, "uint16_t"), (4, "uint32_t"), (8, "uint64_t"), (3, "uint32_t"), (0, "uint32_t")] {
        let e = Enum { name: "E".to_string(), alignment: a, size: 0, members: vec![] };
        let h = render_enum_header("m", &e);
        assert!(h.contains(&format!("enum class E : {} {{", u)));
    }
}

#[test]
fn class_header_exact_text() {
    let t = type_map(&[("Base", "m")]);
    let c = class(
        "Derived",
        Some("Base"),
        vec![field("m_b", "int32", 8, 4, "Schema_Builtin"), field("m_a", "bool", 4, 1, "Schema_Builtin")],
        16,
    );
    let expected = "#pragma once\n\n#include <cstdint>\n\n// /////////////////////////////////////////////////////////////\n// Module: m\n// Created using cs2-universal-dumper\n// /////////////////////////////////////////////////////////////\n\n#ifndef CUSTOM_GLOBAL_TYPES\n    #include \"../GlobalTypes.hpp\"\n#else\n    #include <Custom/GlobalTypes.hpp>\n#endif\n\n#include \"Base.hpp\"\n\n\nusing namespace GlobalTypes;\nnamespace CS2 {\n    namespace m {\n        class Derived : public CS2::m::Base {\n        public:\n            S2_PAD(0x4);\n            // m_a : bool\n            // Offset: 0x4\n            // Size: 0x1\n            // Category: Schema_Builtin\n            // Type: bool\n            bool m_a; // 0x4\n\n            S2_PAD(0x3);\n            // m_b : int32\n            // Offset: 0x8\n            // Size: 0x4\n            // Category: Schema_Builtin\n            // Type: int32\n            int32 m_b; // 0x8\n\n            // End padding\n            S2_PAD(0x4);\n        };\n#ifdef USE_STATIC_ASSERTS\n        static_assert(offsetof(CS2::m::Derived, m_b) == 0x8, \"m_b in Derived should be at offset 0x8\");\n        static_assert(offsetof(CS2::m::Derived, m_a) == 0x4, \"m_a in Derived should be at offset 0x4\");\n        static_assert(sizeof(CS2::m::Derived) == 0x10, \"Derived size should be 0x10\");\n#endif\n    }\n}\n";
    assert!(class_header_renderable(&c));
    assert_eq!(render_class_header("m", &c, &t), expected);
}

#[test]
fn class_header_matches_independent_rendering() {
    let t = sample_type_map();
    let bt = to_btree(&t);
    let classes = vec![
        class(
            "C_BaseEntity",
            Some("CEntityInstance"),
            vec![
                field("m_CBodyComponent", "CBodyComponent*", 0x38, 8, "Schema_Ptr"),
                field("m_pGameSceneNode", "CGameSceneNode*", 0x330, 8, "Schema_Ptr"),
                field("m_iMaxHealth", "int32", 0x340, 4, "Schema_Builtin"),
                field("m_iHealth", "int32", 0x344, 4, "Schema_Builtin"),
                field("m_MoveType", "MoveType_t", 0x34C, 1, "Schema_DeclaredEnum"),
                field("m_hOwner", "CHandle<C_BaseEntity>", 0x348, 4, "Schema_Atomic"),
                field("m_flSimTime", "GameTime_t", 0x350, 4, "Schema_DeclaredClass"),
                field("m_vecVel", "CNetworkedQuantizedFloat[3]", 0x358, 24, "Schema_FixedArray"),
                field("m_dup", "int32", 0x344, 4, "Schema_Builtin"),
            ],
            0x400,
        ),
        class("Lonely", None, vec![], 0),
        class("Orphan", Some("NotInMap"), vec![field("x", "float32", 0, 4, "Schema_Builtin")], 2),
        class("CEntityInstance", Some("CGameSceneNode"), vec![field("m_self", "CEntityInstance*", 0x10, 8, "Schema_Ptr")], 0x38),
        class("Neg", None, vec![field("a", "int8", -4, 2, "Schema_Builtin"), field("b", "int8", 10, -3, "Schema_Builtin")], 20),
    ];
    for c in &classes {
        for slug in ["client_dll", "engine2_dll"] {
            assert!(class_header_renderable(c));
            assert_eq!(render_class_header(slug, c, &t), expected_header(slug, c, &bt));
        }
    }
}

#[test]
fn class_header_renderable_detects_overflow_and_bad_types() {
    let big = class("Big", None, vec![field("a", "int32", i32::MAX, 1, "Schema_Builtin")], 0);
    assert!(!class_header_renderable(&big));
    let gap = class("Gap", None, vec![field("a", "int32", i32::MIN, 0, "Schema_Builtin"), field("b", "int32", 5, 0, "Schema_Builtin")], 0);
    assert!(!class_header_renderable(&gap));
    let end = class("End", None, vec![field("a", "int32", i32::MIN, 0, "Schema_Builtin")], 5);
    assert!(!class_header_renderable(&end));
    let bad = class("Bad", None, vec![field("a", "CHandle<", 0, 4, "Schema_Atomic")], 4);
    assert!(!class_header_renderable(&bad));
}

#[test]
fn fields_sorted_stably_by_offset() {
    let fs = vec![
        field("c", "int32", 8, 4, "x"),
        field("a", "int32", 0, 4, "x"),
        field("d", "int32", 8, 4, "x"),
        field("b", "int32", 4, 4, "x"),
        field("e", "int32", 0, 4, "x"),
    ];
    let names: Vec<String> = sorted_by_offset(&fs).into_iter().map(|f| f.name).collect();
    assert_eq!(names, vec!["a", "e", "b", "c", "d"]);
}

#[test]
fn forward_declarations_grouped_by_module() {
    let t = sample_type_map();
    let fs = vec![
        field("a", "GameTime_t", 0, 4, "x"),
        field("b", "CHandle<C_BaseEntity>", 4, 4, "x"),
        field("c", "MoveType_t[2]", 8, 2, "x"),
        field("d", "GameTime_t", 12, 4, "x"),
        field("e", "Unknown", 16, 4, "x"),
    ];
    let d = forward_decls(&fs, &t);
    assert_eq!(d.len(), 2);
    assert_eq!(d.key_at(0), "client_dll");
    let client = d.value_at(0);
    assert_eq!(client.len(), 1);
    assert_eq!(client.key_at(0), "MoveType_t");
    assert_eq!(d.key_at(1), "engine2_dll");
    assert_eq!(d.value_at(1).len(), 1);
}

#[test]
fn type_to_module_map_later_modules_win() {
    let scopes = vec![
        TypeScope {
            module_name: "client.dll".to_string(),
            classes: vec![class("A", None, vec![], 0), class("Shared", None, vec![], 0)],
            enums: vec![Enum { name: "E1".to_string(), alignment: 4, size: 0, members: vec![] }],
        },
        TypeScope {
            module_name: "server.dll".to_string(),
            classes: vec![class("Shared", None, vec![], 0)],
            enums: vec![],
        },
    ];
    let schemas = schemas_from_scopes(scopes);
    let slugs: Vec<String> = (0..schemas.len())
        .map(|i| module_slug_source_text(schemas.key_at(i)))
        .collect();
    assert_eq!(slugs, vec!["client_dll", "server_dll"]);
    let m = build_type_to_module_map(&schemas, &slugs);
    assert_eq!(m.get("A").map(|s| s.as_str()), Some("client_dll"));
    assert_eq!(m.get("E1").map(|s| s.as_str()), Some("client_dll"));
    assert_eq!(m.get("Shared").map(|s| s.as_str()), Some("server_dll"));
    assert_eq!(m.get("Missing"), None);
    assert_eq!(m.len(), 3);
}

#[test]
fn global_types_header_text() {
    let h = cs2_dumper::output::xsip_sdk::global_types_header();
    assert!(h.starts_with("#pragma once\n\n#include <cstdint>\n#include <cstddef>\n\nnamespace GlobalTypes {\n"));
    assert!(h.ends_with("#define S2_PAD(size) char pad_##__LINE__[size]\n"));
    assert!(h.contains("    struct Color { uint8 r, g, b, a; };\n"));
}

use cs2_dumper::analysis::schemas::{
    atomic_size_by_name, builtin_size, check_registrations, class_field, class_from_binding,
    collect_type_scope, enum_from_binding, enum_member, enum_size, fixed_array_size,
    locate_schema_system, metadata_kind, name_from_bytes, network_var_names, schemas_from_scopes, type_size_rule,
    AtomicCategory, Class, ClassMetadata, Enum, LocateError, MetadataKind, SchemaError,
    SizeRule, TypeCategory, TypeScope, TypeRecord, type_size, binding_entries, class_fields, FieldRead,
};
use cs2_dumper::pe::ScanError;

#[test]
fn size_rules() {
    assert_eq!(type_size_rule(TypeCategory::BuiltIn, AtomicCategory::Other), SizeRule::BuiltinName);
    assert_eq!(type_size_rule(TypeCategory::Ptr, AtomicCategory::Other), SizeRule::Fixed(8));
    assert_eq!(type_size_rule(TypeCategory::Bitfield, AtomicCategory::Tf), SizeRule::Fixed(4));
    assert_eq!(type_size_rule(TypeCategory::FixedArray, AtomicCategory::Other), SizeRule::ArrayOfElement);
    assert_eq!(type_size_rule(TypeCategory::Atomic, AtomicCategory::Tf), SizeRule::AtomicTfSize);
    assert_eq!(type_size_rule(TypeCategory::Atomic, AtomicCategory::Ttf), SizeRule::AtomicTtfSize);
    assert_eq!(type_size_rule(TypeCategory::Atomic, AtomicCategory::Other), SizeRule::AtomicName);
    assert_eq!(type_size_rule(TypeCategory::DeclaredClass, AtomicCategory::Other), SizeRule::ClassBindingSize);
    assert_eq!(type_size_rule(TypeCategory::DeclaredEnum, AtomicCategory::Other), SizeRule::EnumBindingAlignment);
    assert_eq!(type_size_rule(TypeCategory::Other, AtomicCategory::Other), SizeRule::Fixed(0));
}

#[test]
fn builtin_and_atomic_sizes() {
    for (n, s) in [("int8", 1), ("uint8", 1), ("bool", 1), ("char", 1), ("int16", 2), ("uint16", 2),
        ("int32", 4), ("uint32", 4), ("float32", 4), ("int64", 8), ("uint64", 8), ("float64", 8), ("Vector", 4)] {
        assert_eq!(builtin_size(n), s, "{}", n);
    }
    assert_eq!(atomic_size_by_name("CHandle<C_BaseEntity>"), Some(4));
    assert_eq!(atomic_size_by_name("CUtlVector<int32>"), Some(24));
    assert_eq!(atomic_size_by_name("CNetworkUtlVectorBase<int32>"), Some(24));
    assert_eq!(atomic_size_by_name("CUtlVectorEmbeddedNetworkVar<X>"), Some(24));
    assert_eq!(atomic_size_by_name("CUtlString"), Some(8));
    assert_eq!(atomic_size_by_name("CUtlSymbolLarge"), Some(8));
    assert_eq!(atomic_size_by_name("CUtlLeanVector<int, int>"), Some(16));
    assert_eq!(atomic_size_by_name("CAnimNetVar<float32>"), None);
    assert_eq!(atomic_size_by_name("CWeird<int>"), Some(0));
    assert_eq!(fixed_array_size(3, 12), 36);
    assert_eq!(fixed_array_size(0, 12), 0);
    for (a, s) in [(1u8, 1), (2, 2), (4, 4), (8, 8), (3, 4), (16, 4)] {
        assert_eq!(enum_size(a), s);
    }
}

#[test]
fn fields_and_metadata() {
    let f = class_field("m_x".into(), "CHandle< C_BaseEntity >", 0x10, None, "Schema_Atomic".into());
    assert_eq!(f.type_str, "CHandle<C_BaseEntity>");
    assert_eq!(f.size, 0);
    assert_eq!(f.offset, 0x10);
    let g = class_field("m_y".into(), "int32", 4, Some(4), "Schema_Builtin".into());
    assert_eq!(g.size, 4);
    assert_eq!(metadata_kind("MNetworkChangeCallback"), MetadataKind::ChangeCallback);
    assert_eq!(metadata_kind("MNetworkVarNames"), MetadataKind::VarNames);
    assert_eq!(metadata_kind("MNetworkEnable"), MetadataKind::Unknown);
    match network_var_names("m_v".into(), "CUtlVector< int32 >") {
        ClassMetadata::NetworkVarNames { name, type_str } => {
            assert_eq!(name, "m_v");
            assert_eq!(type_str, "CUtlVector<int32>");
        }
        _ => panic!("wrong kind"),
    }
}

#[test]
fn class_and_enum_bindings() {
    let c = class_from_binding("client", "C_Foo".into(), Some(String::new()), vec![], vec![], 8).unwrap();
    assert_eq!(c.module_name, "client.dll");
    assert_eq!(c.parent_name, None);
    let d = class_from_binding("server", "C_Bar".into(), Some("C_Foo".into()), vec![], vec![], 8).unwrap();
    assert_eq!(d.parent_name.as_deref(), Some("C_Foo"));
    assert_eq!(class_from_binding("client", String::new(), None, vec![], vec![], 0).unwrap_err(), SchemaError::InvalidClassName);
    let e = enum_from_binding("E".into(), 4, 2, vec![enum_member("A".into(), 1), enum_member("B".into(), u64::MAX)]).unwrap();
    assert_eq!(e.size, 2);
    assert_eq!(e.members[1].value, -1);
    assert_eq!(enum_from_binding(String::new(), 4, 0, vec![]).unwrap_err(), SchemaError::InvalidEnumName);
    assert_eq!(check_registrations(0), Err(SchemaError::NoRegistrations));
    assert_eq!(check_registrations(3), Ok(()));
}

fn scope_class(name: &str) -> Class {
    Class { name: name.into(), module_name: "m.dll".into(), parent_name: None, metadata: vec![], fields: vec![], size: 0 }
}

#[test]
fn type_scopes_keep_what_could_be_read() {
    let t = collect_type_scope("client.dll".into(), vec![Some(scope_class("A")), None, Some(scope_class("B"))], vec![None]).unwrap();
    assert_eq!(t.classes.len(), 2);
    assert_eq!(t.classes[1].name, "B");
    assert_eq!(t.enums.len(), 0);
    assert!(collect_type_scope("x".into(), vec![None], vec![None, None]).is_none());
    let only_enum = collect_type_scope("y".into(), vec![], vec![Some(Enum { name: "E".into(), alignment: 1, size: 0, members: vec![] })]);
    assert!(only_enum.is_some());
}

#[test]
fn schema_map_last_scope_wins() {
    let scopes = vec![
        TypeScope { module_name: "server.dll".into(), classes: vec![scope_class("S")], enums: vec![] },
        TypeScope { module_name: "client.dll".into(), classes: vec![scope_class("C1")], enums: vec![] },
        TypeScope { module_name: "server.dll".into(), classes: vec![scope_class("S2"), scope_class("S3")], enums: vec![] },
    ];
    let m = schemas_from_scopes(scopes);
    assert_eq!(m.len(), 2);
    assert_eq!(m.key_at(0), "client.dll");
    assert_eq!(m.key_at(1), "server.dll");
    assert_eq!(m.value_at(1).0.len(), 2);
    assert_eq!(m.value_at(1).0[0].name, "S2");
}

#[test]
fn locating_schema_system_in_junk_fails() {
    assert_eq!(locate_schema_system(&[0u8; 32]), Err(LocateError::Scan(ScanError::BadImage)));
}

#[test]
fn names_from_fixed_byte_fields() {
    assert_eq!(name_from_bytes(b"client.dll\0\0junk"), "client.dll");
    assert_eq!(name_from_bytes(b"no_terminator"), "no_terminator");
    assert_eq!(name_from_bytes(b"\0client"), "");
    assert_eq!(name_from_bytes("caf\u{e9}.dll\0".as_bytes()), "caf\u{e9}.dll");
    assert_eq!(name_from_bytes(b"a\xffb\0"), "a\u{fffd}b");
}

#[test]
fn invalid_utf8_in_names_is_replaced() {
    assert_eq!(name_from_bytes(&[0x61, 0xff, 0x62, 0, 0xff]), "a\u{FFFD}b");
}

#[test]
fn type_sizes_follow_arrays_and_anim_net_vars() {
    let int16 = || Box::new(TypeRecord::BuiltIn { name: "int16".to_string() });
    assert_eq!(type_size(&TypeRecord::FixedArray { count: 3, element: int16() }), Some(6));
    let nested = TypeRecord::FixedArray {
        count: 4,
        element: Box::new(TypeRecord::FixedArray { count: 2, element: Box::new(TypeRecord::Ptr) }),
    };
    assert_eq!(type_size(&nested), Some(64));
    let anim = TypeRecord::AtomicNamed {
        name: "CAnimNetVar< float32 >".to_string(),
        element: Some(Box::new(TypeRecord::DeclaredEnum { alignment: 2 })),
    };
    assert_eq!(type_size(&anim), Some(2));
    let unread = TypeRecord::AtomicNamed { name: "CAnimNetVar<int32>".to_string(), element: None };
    assert_eq!(type_size(&unread), None);
    let vec = TypeRecord::AtomicNamed { name: "CUtlVector<int32>".to_string(), element: None };
    assert_eq!(type_size(&vec), Some(24));
    assert_eq!(
        type_size(&TypeRecord::FixedArray { count: 5, element: Box::new(TypeRecord::Unreadable) }),
        None
    );
    assert_eq!(type_size(&TypeRecord::AtomicTtf { size: 40 }), Some(40));
    assert_eq!(type_size(&TypeRecord::DeclaredClass { size: 0x30 }), Some(0x30));
    assert_eq!(type_size(&TypeRecord::Other), Some(0));
    assert_eq!(type_size(&TypeRecord::Bitfield), Some(4));
}

#[test]
fn binding_lists_skip_null_entries() {
    assert_eq!(binding_entries(false, vec![Some(1), None, Some(3)]), vec![1, 3]);
    assert_eq!(binding_entries(true, vec![Some(1), Some(2)]), Vec::<i32>::new());
}

#[test]
fn class_fields_skip_null_types_and_strip_spaces() {
    let read = |n: &str, t: &str, off: i32, size: Option<i32>| {
        Some(FieldRead { name: n.to_string(), raw_type: t.to_string(), offset: off, size, category: "Atomic".to_string() })
    };
    let slots = vec![read("m_a", "CHandle< C_BaseEntity >", 0x10, Some(4)), None, read("m_b", "int32", 0x8, None)];
    let fields = class_fields(false, slots);
    assert_eq!(fields.len(), 2);
    assert_eq!(fields[0].name, "m_a");
    assert_eq!(fields[0].type_str, "CHandle<C_BaseEntity>");
    assert_eq!(fields[0].offset, 0x10);
    assert_eq!(fields[0].size, 4);
    assert_eq!(fields[1].name, "m_b");
    assert_eq!(fields[1].size, 0);
    assert_eq!(fields[1].category, "Atomic");
    assert!(class_fields(true, vec![read("m_c", "bool", 0, Some(1))]).is_empty());
}

use vstd::prelude::*;

use crate::strmap::{
    StrMap, sorted_insert, lookup, keys_sorted, lemma_sorted_insert_lookup,
    lemma_sorted_insert_sorted,
};
use crate::pe::{scan_code, ScanError, scan_safe_image, pattern_error, headers_ok, code_capture};
use vstd::utf8::{valid_utf8, decode_utf8};
use crate::text::{before_char, before_char_text, replace_char, replace_char_text, text_eq};

verus! {

/// Static metadata attached to a schema class.
#[derive(Clone, Debug)]
pub enum ClassMetadata {
    Unknown { name: String },
    NetworkChangeCallback { name: String },
    NetworkVarNames { name: String, type_str: String },
}

/// A class recovered from the schema system.
#[derive(Clone, Debug)]
pub struct Class {
    pub name: String,
    pub module_name: String,
    pub parent_name: Option<String>,
    pub metadata: Vec<ClassMetadata>,
    pub fields: Vec<ClassField>,
    pub size: i32,
}

/// A field of a schema class. `category` is the schema type category name
/// (`Schema_Ptr` marks a pointer field).
#[derive(Clone, Debug)]
pub struct ClassField {
    pub name: String,
    pub type_str: String,
    pub offset: i32,
    pub size: i32,
    pub category: String,
}

/// An enum recovered from the schema system.
#[derive(Clone, Debug)]
pub struct Enum {
    pub name: String,
    pub alignment: u8,
    pub size: u16,
    pub members: Vec<EnumMember>,
}

/// One enumerator of a schema enum.
#[derive(Clone, Debug)]
pub struct EnumMember {
    pub name: String,
    pub value: i64,
}

/// The classes and enums one module registers with the schema system.
#[derive(Clone, Debug)]
pub struct TypeScope {
    pub module_name: String,
    pub classes: Vec<Class>,
    pub enums: Vec<Enum>,
}

impl ClassField {
    /// A copy of this field.
    pub fn duplicate(&self) -> (r: ClassField)
        ensures
            r == *self,
    {
        ClassField {
            name: self.name.clone(),
            type_str: self.type_str.clone(),
            offset: self.offset,
            size: self.size,
            category: self.category.clone(),
        }
    }
}

/// Classes and enums per module, in module name order.
pub type SchemaMap = StrMap<(Vec<Class>, Vec<Enum>)>;

/// Why a schema item is rejected.
#[derive(Clone, Copy, Debug, PartialEq, Eq, Structural)]
pub enum SchemaError {
    /// The schema system pattern no longer matches.
    OutdatedPattern,
    /// The schema system has no registrations.
    NoRegistrations,
    /// A class binding has an empty name.
    InvalidClassName,
    /// An enum binding has an empty name.
    InvalidEnumName,
}

// ---------------------------------------------------------------------------
// Sizes of schema types
// ---------------------------------------------------------------------------

/// The category of a schema type.
#[derive(Clone, Copy, Debug, PartialEq, Eq, Structural)]
pub enum TypeCategory {
    BuiltIn,
    Ptr,
    Bitfield,
    FixedArray,
    Atomic,
    DeclaredClass,
    DeclaredEnum,
    Other,
}

/// The category of an atomic (template) schema type.
#[derive(Clone, Copy, Debug, PartialEq, Eq, Structural)]
pub enum AtomicCategory {
    /// A template over one type with a stored size.
    Tf,
    /// A template over two types with a stored size.
    Ttf,
    Other,
}

/// How the size of a schema type is found.
#[derive(Clone, Copy, Debug, PartialEq, Eq, Structural)]
pub enum SizeRule {
    /// The size is this number.
    Fixed(i32),
    /// The size follows from the built-in type's name (`builtin_size`).
    BuiltinName,
    /// The element's size times the element count (`fixed_array_size`).
    ArrayOfElement,
    /// The size stored with a one-argument template.
    AtomicTfSize,
    /// The size stored with a two-argument template.
    AtomicTtfSize,
    /// The size follows from the template's name (`atomic_size_by_name`).
    AtomicName,
    /// The size of the declared class.
    ClassBindingSize,
    /// The size follows from the declared enum's alignment (`enum_size`).
    EnumBindingAlignment,
}

/// How the size of a type of the given categories is found.
pub open spec fn size_rule_spec(category: TypeCategory, atomic: AtomicCategory) -> SizeRule {
    match category {
        TypeCategory::BuiltIn => SizeRule::BuiltinName,
        TypeCategory::Ptr => SizeRule::Fixed(8),
        TypeCategory::Bitfield => SizeRule::Fixed(4),
        TypeCategory::FixedArray => SizeRule::ArrayOfElement,
        TypeCategory::Atomic => match atomic {
            AtomicCategory::Tf => SizeRule::AtomicTfSize,
            AtomicCategory::Ttf => SizeRule::AtomicTtfSize,
            AtomicCategory::Other => SizeRule::AtomicName,
        },
        TypeCategory::DeclaredClass => SizeRule::ClassBindingSize,
        TypeCategory::DeclaredEnum => SizeRule::EnumBindingAlignment,
        TypeCategory::Other => SizeRule::Fixed(0),
    }
}

/// How the size of a type of the given categories is found.
pub fn type_size_rule(category: TypeCategory, atomic: AtomicCategory) -> (r: SizeRule)
    ensures
        r == size_rule_spec(category, atomic),
{
    match category {
        TypeCategory::BuiltIn => SizeRule::BuiltinName,
        TypeCategory::Ptr => SizeRule::Fixed(8),
        TypeCategory::Bitfield => SizeRule::Fixed(4),
        TypeCategory::FixedArray => SizeRule::ArrayOfElement,
        TypeCategory::Atomic => match atomic {
            AtomicCategory::Tf => SizeRule::AtomicTfSize,
            AtomicCategory::Ttf => SizeRule::AtomicTtfSize,
            AtomicCategory::Other => SizeRule::AtomicName,
        },
        TypeCategory::DeclaredClass => SizeRule::ClassBindingSize,
        TypeCategory::DeclaredEnum => SizeRule::EnumBindingAlignment,
        TypeCategory::Other => SizeRule::Fixed(0),
    }
}

/// The size of a built-in type by name; unknown names count 4 bytes.
pub open spec fn builtin_size_spec(name: Seq<char>) -> i32 {
    if name == "int8"@ || name == "uint8"@ || name == "bool"@ || name == "char"@ {
        1
    } else if name == "int16"@ || name == "uint16"@ {
        2
    } else if name == "int32"@ || name == "uint32"@ || name == "float32"@ {
        4
    } else if name == "int64"@ || name == "uint64"@ || name == "float64"@ {
        8
    } else {
        4
    }
}

/// The size of a built-in type by name.
pub fn builtin_size(name: &str) -> (r: i32)
    ensures
        r == builtin_size_spec(name@),
{
    if text_eq(name, "int8") || text_eq(name, "uint8") || text_eq(name, "bool") || text_eq(
        name,
        "char",
    ) {
        1
    } else if text_eq(name, "int16") || text_eq(name, "uint16") {
        2
    } else if text_eq(name, "int32") || text_eq(name, "uint32") || text_eq(name, "float32") {
        4
    } else if text_eq(name, "int64") || text_eq(name, "uint64") || text_eq(name, "float64") {
        8
    } else {
        4
    }
}

/// The size of an atomic type by the name before its template arguments:
/// `None` means the size of its element (`CAnimNetVar`); unknown templates
/// count 0 bytes.
pub open spec fn atomic_size_spec(name: Seq<char>) -> Option<i32> {
    let base = before_char(name, '<');
    if base == "CHandle"@ {
        Some(4)
    } else if base == "CUtlVector"@ || base == "CNetworkUtlVectorBase"@ || base
        == "CUtlVectorEmbeddedNetworkVar"@ {
        Some(24)
    } else if base == "CUtlString"@ {
        Some(8)
    } else if base == "CUtlSymbolLarge"@ {
        Some(8)
    } else if base == "CUtlLeanVector"@ {
        Some(16)
    } else if base == "CAnimNetVar"@ {
        None
    } else {
        Some(0)
    }
}

/// The size of an atomic type by name (see `atomic_size_spec`).
pub fn atomic_size_by_name(name: &str) -> (r: Option<i32>)
    ensures
        r == atomic_size_spec(name@),
{
    let base = before_char_text(name, '<');
    let b = base.as_str();
    if text_eq(b, "CHandle") {
        Some(4)
    } else if text_eq(b, "CUtlVector") || text_eq(b, "CNetworkUtlVectorBase") || text_eq(
        b,
        "CUtlVectorEmbeddedNetworkVar",
    ) {
        Some(24)
    } else if text_eq(b, "CUtlString") {
        Some(8)
    } else if text_eq(b, "CUtlSymbolLarge") {
        Some(8)
    } else if text_eq(b, "CUtlLeanVector") {
        Some(16)
    } else if text_eq(b, "CAnimNetVar") {
        None
    } else {
        Some(0)
    }
}

/// The size of a fixed array: element count times element size.
pub fn fixed_array_size(count: i32, element_size: i32) -> (r: i32)
    requires
        i32::MIN <= count * element_size <= i32::MAX,
    ensures
        r == count * element_size,
{
    count * element_size
}

/// The size of a declared enum by its alignment; other alignments count 4.
pub open spec fn enum_size_spec(alignment: u8) -> i32 {
    if alignment == 1 || alignment == 2 || alignment == 4 || alignment == 8 {
        alignment as i32
    } else {
        4
    }
}

/// The size of a declared enum by its alignment.
pub fn enum_size(alignment: u8) -> (r: i32)
    ensures
        r == enum_size_spec(alignment),
{
    if alignment == 1 || alignment == 2 || alignment == 4 || alignment == 8 {
        alignment as i32
    } else {
        4
    }
}

/// What the size of a schema type depends on, as read from its type record.
/// A record that could not be read is `Unreadable`.
pub enum TypeRecord {
    /// A built-in type, by name.
    BuiltIn { name: String },
    Ptr,
    Bitfield,
    /// A fixed array: the element count and the element's record.
    FixedArray { count: i32, element: Box<TypeRecord> },
    /// A one-type template with a stored size.
    AtomicTf { size: i32 },
    /// A two-type template with a stored size.
    AtomicTtf { size: i32 },
    /// Another template, by name, with its element's record where it was read
    /// (it is read only for `CAnimNetVar`, whose size is its element's).
    AtomicNamed { name: String, element: Option<Box<TypeRecord>> },
    /// A declared class, by the size its binding gives.
    DeclaredClass { size: i32 },
    /// A declared enum, by the alignment its binding gives.
    DeclaredEnum { alignment: u8 },
    Other,
    Unreadable,
}

/// The size of a schema type; `None` when a record that it depends on could
/// not be read.
pub open spec fn type_size_spec(t: TypeRecord) -> Option<int>
    decreases t,
{
    match t {
        TypeRecord::BuiltIn { name } => Some(builtin_size_spec(name@) as int),
        TypeRecord::Ptr => Some(8),
        TypeRecord::Bitfield => Some(4),
        TypeRecord::FixedArray { count, element } => match type_size_spec(*element) {
            Some(e) => Some(count * e),
            None => None,
        },
        TypeRecord::AtomicTf { size } => Some(size as int),
        TypeRecord::AtomicTtf { size } => Some(size as int),
        TypeRecord::AtomicNamed { name, element } => match atomic_size_spec(name@) {
            Some(k) => Some(k as int),
            None => match element {
                Some(e) => type_size_spec(*e),
                None => None,
            },
        },
        TypeRecord::DeclaredClass { size } => Some(size as int),
        TypeRecord::DeclaredEnum { alignment } => Some(enum_size_spec(alignment) as int),
        TypeRecord::Other => Some(0),
        TypeRecord::Unreadable => None,
    }
}

/// What the size of a schema type is, case by case: a template with a
/// stored size has that size; a pointer is 8 bytes, a bitfield 4; a declared
/// class has its binding's size; a declared enum is as wide as its alignment
/// when that is 1, 2, 4 or 8 and 4 bytes otherwise; a fixed array is its count
/// times its element's size (unknown when that is); the built-in integers,
/// `bool`, `char` and floats have their usual widths and other built-ins 4
/// bytes; an unreadable record has no size and any other category 0 bytes.
pub proof fn law_type_sizes(t: TypeRecord)
    ensures
        t matches TypeRecord::AtomicTf { size } ==> type_size_spec(t) == Some(size as int),
        t matches TypeRecord::AtomicTtf { size } ==> type_size_spec(t) == Some(size as int),
        t matches TypeRecord::Ptr ==> type_size_spec(t) == Some(8int),
        t matches TypeRecord::Bitfield ==> type_size_spec(t) == Some(4int),
        t matches TypeRecord::DeclaredClass { size } ==> type_size_spec(t) == Some(size as int),
        t matches TypeRecord::DeclaredEnum { alignment } ==> type_size_spec(t) == Some(
            if alignment == 1 || alignment == 2 || alignment == 4 || alignment == 8 {
                alignment as int
            } else {
                4int
            },
        ),
        t matches TypeRecord::FixedArray { count, element } ==> type_size_spec(t) == match type_size_spec(
            *element,
        ) {
            Some(e) => Some(count * e),
            None => None::<int>,
        },
        t matches TypeRecord::BuiltIn { name } ==> type_size_spec(t) == Some(
            if name@ == "int8"@ || name@ == "uint8"@ || name@ == "bool"@ || name@ == "char"@ {
                1int
            } else if name@ == "int16"@ || name@ == "uint16"@ {
                2int
            } else if name@ == "int64"@ || name@ == "uint64"@ || name@ == "float64"@ {
                8int
            } else {
                4int
            },
        ),
        t matches TypeRecord::Other ==> type_size_spec(t) == Some(0int),
        t matches TypeRecord::Unreadable ==> type_size_spec(t) is None,
{
    reveal_strlit("int8");
    reveal_strlit("uint8");
    reveal_strlit("bool");
    reveal_strlit("char");
    reveal_strlit("int16");
    reveal_strlit("uint16");
    reveal_strlit("int32");
    reveal_strlit("uint32");
    reveal_strlit("float32");
    reveal_strlit("int64");
    reveal_strlit("uint64");
    reveal_strlit("float64");
    match t {
        TypeRecord::BuiltIn { name } => {
            let n = name@;
            if n == "int8"@ || n == "uint8"@ || n == "bool"@ || n == "char"@ {
                assert(builtin_size_spec(n) == 1);
            } else if n == "int16"@ || n == "uint16"@ {
                assert(builtin_size_spec(n) == 2);
            } else if n == "int64"@ || n == "uint64"@ || n == "float64"@ {
                assert("int64"@[3] != "int32"@[3]);
                assert("uint64"@[4] != "uint32"@[4]);
                assert("float64"@[5] != "float32"@[5]);
                assert(n != "int32"@ && n != "uint32"@ && n != "float32"@);
                assert(builtin_size_spec(n) == 8);
            } else {
                assert(builtin_size_spec(n) == 4);
            }
        },
        _ => {},
    }
}

/// A `CAnimNetVar<..>` template is as large as its element, and has no size
/// when its element could not be read.
pub proof fn law_anim_net_var_takes_its_element_size(name: String, element: Option<Box<TypeRecord>>)
    requires
        before_char(name@, '<') == "CAnimNetVar"@,
    ensures
        type_size_spec(TypeRecord::AtomicNamed { name, element }) == match element {
            Some(e) => type_size_spec(*e),
            None => None,
        },
{
    reveal_strlit("CAnimNetVar");
    reveal_strlit("CHandle");
    reveal_strlit("CUtlVector");
    reveal_strlit("CNetworkUtlVectorBase");
    reveal_strlit("CUtlVectorEmbeddedNetworkVar");
    reveal_strlit("CUtlString");
    reveal_strlit("CUtlSymbolLarge");
    reveal_strlit("CUtlLeanVector");
    let b = before_char(name@, '<');
    assert(b.len() == 11);
    assert(b != "CHandle"@);
    assert(b != "CUtlVector"@);
    assert(b != "CNetworkUtlVectorBase"@);
    assert(b != "CUtlVectorEmbeddedNetworkVar"@);
    assert(b != "CUtlString"@);
    assert(b != "CUtlSymbolLarge"@);
    assert(b != "CUtlLeanVector"@);
    assert(atomic_size_spec(name@) is None);
}

/// The size of a named template by the name before its arguments: handles
/// are 4 bytes, the vector templates 24, `CUtlString` and `CUtlSymbolLarge`
/// 8, `CUtlLeanVector` 16, `CAnimNetVar` takes its element's size, and other
/// templates count 0.
pub proof fn law_atomic_template_sizes(name: Seq<char>)
    ensures
        before_char(name, '<') == "CHandle"@ ==> atomic_size_spec(name) == Some(4i32),
        before_char(name, '<') == "CUtlVector"@ || before_char(name, '<') == "CNetworkUtlVectorBase"@
            || before_char(name, '<') == "CUtlVectorEmbeddedNetworkVar"@ ==> atomic_size_spec(name)
            == Some(24i32),
        before_char(name, '<') == "CUtlString"@ || before_char(name, '<') == "CUtlSymbolLarge"@
            ==> atomic_size_spec(name) == Some(8i32),
        before_char(name, '<') == "CUtlLeanVector"@ ==> atomic_size_spec(name) == Some(16i32),
        before_char(name, '<') == "CAnimNetVar"@ ==> atomic_size_spec(name) is None,
{
    reveal_strlit("CAnimNetVar");
    reveal_strlit("CHandle");
    reveal_strlit("CUtlVector");
    reveal_strlit("CNetworkUtlVectorBase");
    reveal_strlit("CUtlVectorEmbeddedNetworkVar");
    reveal_strlit("CUtlString");
    reveal_strlit("CUtlSymbolLarge");
    reveal_strlit("CUtlLeanVector");
    assert("CHandle"@.len() == 7);
    assert("CUtlVector"@.len() == 10);
    assert("CUtlString"@.len() == 10);
    assert("CAnimNetVar"@.len() == 11);
    assert("CUtlLeanVector"@.len() == 14);
    assert("CUtlSymbolLarge"@.len() == 15);
    assert("CNetworkUtlVectorBase"@.len() == 21);
    assert("CUtlVectorEmbeddedNetworkVar"@.len() == 28);
    assert("CUtlString"@[4] != "CUtlVector"@[4]);
    assert("CUtlString"@ != "CUtlVector"@);
}

/// Every array size met on the way fits an `i32` (the product is computed in
/// 32 bits).
pub open spec fn type_size_fits(t: TypeRecord) -> bool
    decreases t,
{
    match t {
        TypeRecord::FixedArray { count, element } => type_size_fits(*element) && match type_size_spec(
            *element,
        ) {
            Some(e) => i32::MIN <= count * e <= i32::MAX,
            None => true,
        },
        TypeRecord::AtomicNamed { name, element } => match element {
            Some(e) => atomic_size_spec(name@) is None ==> type_size_fits(*e),
            None => true,
        },
        _ => true,
    }
}

/// The size of a schema type from its record, following fixed arrays and
/// `CAnimNetVar` to their elements.
pub fn type_size(t: &TypeRecord) -> (r: Option<i32>)
    requires
        type_size_fits(*t),
    ensures
        match type_size_spec(*t) {
            Some(n) => r == Some(n as i32) && n == r->0,
            None => r is None,
        },
    decreases t,
{
    match t {
        TypeRecord::BuiltIn { name } => Some(builtin_size(name.as_str())),
        TypeRecord::Ptr => Some(8),
        TypeRecord::Bitfield => Some(4),
        TypeRecord::FixedArray { count, element } => match type_size(element) {
            Some(e) => Some(fixed_array_size(*count, e)),
            None => None,
        },
        TypeRecord::AtomicTf { size } => Some(*size),
        TypeRecord::AtomicTtf { size } => Some(*size),
        TypeRecord::AtomicNamed { name, element } => match atomic_size_by_name(name.as_str()) {
            Some(k) => Some(k),
            None => match element {
                Some(e) => type_size(e),
                None => None,
            },
        },
        TypeRecord::DeclaredClass { size } => Some(*size),
        TypeRecord::DeclaredEnum { alignment } => Some(enum_size(*alignment)),
        TypeRecord::Other => Some(0),
        TypeRecord::Unreadable => None,
    }
}

/// The entries kept from a list of a binding: none when the list pointer is
/// null, otherwise those that were kept (`Some`), in order. Fields whose type
/// pointer is null and metadata whose value pointer is null come as `None`.
pub fn binding_entries<T>(list_null: bool, entries: Vec<Option<T>>) -> (r: Vec<T>)
    ensures
        r@ == if list_null {
            Seq::<T>::empty()
        } else {
            present(entries@)
        },
{
    if list_null {
        return Vec::new();
    }
    keep_present(entries)
}

// ---------------------------------------------------------------------------
// Building classes, fields, metadata and enums
// ---------------------------------------------------------------------------

/// `s` without spaces.
pub open spec fn without_spaces(s: Seq<char>) -> Seq<char> {
    replace_char(s, ' ', Seq::empty())
}

/// A class field as recorded: the type name without spaces; a size that could
/// not be found counts 0.
pub fn class_field(
    name: String,
    raw_type: &str,
    offset: i32,
    size: Option<i32>,
    category: String,
) -> (f: ClassField)
    ensures
        f.name == name,
        f.type_str@ == without_spaces(raw_type@),
        f.offset == offset,
        f.size == (match size {
            Some(s) => s,
            None => 0,
        }),
        f.category == category,
{
    let type_str = replace_char_text(raw_type, ' ', "");
    proof {
        reveal_strlit("");
        assert(""@ =~= Seq::<char>::empty());
    }
    let size = match size {
        Some(s) => s,
        None => 0,
    };
    ClassField { name, type_str, offset, size, category }
}

/// A field slot of a class binding whose type pointer is not null, as read:
/// the field's name, its type name as read, its offset, the size of its type
/// (`None` when it could not be found) and its type category's name.
pub struct FieldRead {
    pub name: String,
    pub raw_type: String,
    pub offset: i32,
    pub size: Option<i32>,
    pub category: String,
}

/// The field recorded for a slot read as `fr` (see `class_field`).
pub open spec fn field_recorded(f: ClassField, fr: FieldRead) -> bool {
    &&& f.name == fr.name
    &&& f.type_str@ == without_spaces(fr.raw_type@)
    &&& f.offset == fr.offset
    &&& f.size == (match fr.size {
        Some(s) => s,
        None => 0,
    })
    &&& f.category == fr.category
}

/// Replacing every space by nothing leaves no space.
pub proof fn lemma_without_spaces(s: Seq<char>)
    ensures
        !without_spaces(s).contains(' '),
        without_spaces(s).len() <= s.len(),
    decreases s.len(),
{
    reveal_strlit("");
    if s.len() > 0 {
        lemma_without_spaces(s.drop_last());
        let p = without_spaces(s.drop_last());
        let r = without_spaces(s);
        if s.last() == ' ' {
            assert(r =~= p);
        } else {
            assert(r =~= p.push(s.last()));
            assert forall|i: int| 0 <= i < r.len() implies r[i] != ' ' by {
                if i < p.len() {
                    assert(r[i] == p[i]);
                }
            }
        }
    }
}

/// The fields of a class binding: none when its field list pointer is null;
/// otherwise one per slot whose type pointer is not null (`Some`), in slot
/// order, each as `class_field` records it: its type name without spaces and
/// a size that could not be found counting 0.
pub fn class_fields(list_null: bool, slots: Vec<Option<FieldRead>>) -> (r: Vec<ClassField>)
    ensures
        r@.len() == (if list_null {
            0
        } else {
            present(slots@).len()
        }),
        r@.len() <= slots@.len(),
        forall|i: int| 0 <= i < r@.len() ==> field_recorded(#[trigger] r@[i], present(slots@)[i]),
        forall|i: int| 0 <= i < r@.len() ==> !(#[trigger] r@[i].type_str@).contains(' '),
{
    proof {
        lemma_present_len(slots@);
    }
    let ghost kept_all = present(slots@);
    let kept = binding_entries(list_null, slots);
    let mut r: Vec<ClassField> = Vec::new();
    let mut i: usize = 0;
    while i < kept.len()
        invariant
            i <= kept@.len(),
            r@.len() == i,
            kept@ == (if list_null {
                Seq::<FieldRead>::empty()
            } else {
                kept_all
            }),
            forall|k: int| 0 <= k < i ==> field_recorded(#[trigger] r@[k], kept@[k]),
            forall|k: int| 0 <= k < i ==> !(#[trigger] r@[k].type_str@).contains(' '),
        decreases kept@.len() - i,
    {
        let fr = &kept[i];
        let f = class_field(fr.name.clone(), fr.raw_type.as_str(), fr.offset, fr.size, fr.category.clone());
        proof {
            lemma_without_spaces(fr.raw_type@);
        }
        r.push(f);
        i = i + 1;
    }
    r
}

/// The kind of a class metadata entry, by its name.
#[derive(Clone, Copy, Debug, PartialEq, Eq, Structural)]
pub enum MetadataKind {
    /// `MNetworkChangeCallback`: carries the callback's name.
    ChangeCallback,
    /// `MNetworkVarNames`: carries a variable name and its type.
    VarNames,
    /// Any other entry: only its own name is kept.
    Unknown,
}

/// The kind of a metadata entry named `name`.
pub open spec fn metadata_kind_spec(name: Seq<char>) -> MetadataKind {
    if name == "MNetworkChangeCallback"@ {
        MetadataKind::ChangeCallback
    } else if name == "MNetworkVarNames"@ {
        MetadataKind::VarNames
    } else {
        MetadataKind::Unknown
    }
}

/// The kind of a metadata entry named `name`.
pub fn metadata_kind(name: &str) -> (k: MetadataKind)
    ensures
        k == metadata_kind_spec(name@),
{
    if text_eq(name, "MNetworkChangeCallback") {
        MetadataKind::ChangeCallback
    } else if text_eq(name, "MNetworkVarNames") {
        MetadataKind::VarNames
    } else {
        MetadataKind::Unknown
    }
}

/// A `MNetworkVarNames` entry; its type name is kept without spaces.
pub fn network_var_names(name: String, raw_type: &str) -> (m: ClassMetadata)
    ensures
        m matches ClassMetadata::NetworkVarNames { name: n, type_str: t } && n == name && t@
            == without_spaces(raw_type@),
{
    let type_str = replace_char_text(raw_type, ' ', "");
    proof {
        reveal_strlit("");
        assert(""@ =~= Seq::<char>::empty());
    }
    ClassMetadata::NetworkVarNames { name, type_str }
}

/// A class as recorded: rejected when its name is empty; its module is the
/// module name read with `.dll` appended; a parent is kept only when its name
/// was read and is not empty.
pub fn class_from_binding(
    module_raw: &str,
    name: String,
    parent: Option<String>,
    metadata: Vec<ClassMetadata>,
    fields: Vec<ClassField>,
    size: i32,
) -> (r: Result<Class, SchemaError>)
    ensures
        name@.len() == 0 <==> r is Err,
        r matches Err(e) ==> e == SchemaError::InvalidClassName,
        r matches Ok(c) ==> {
            &&& c.name == name
            &&& c.module_name@ == module_raw@ + ".dll"@
            &&& c.parent_name == (match parent {
                Some(p) => if p@.len() > 0 {
                    Some(p)
                } else {
                    None
                },
                None => None,
            })
            &&& c.metadata == metadata
            &&& c.fields == fields
            &&& c.size == size
        },
{
    let mut module_name = String::from_str(module_raw);
    module_name.append(".dll");
    if name.as_str().is_empty() {
        return Err(SchemaError::InvalidClassName);
    }
    let parent_name = match parent {
        Some(p) => if p.as_str().is_empty() {
            None
        } else {
            Some(p)
        },
        None => None,
    };
    Ok(Class { name, module_name, parent_name, metadata, fields, size })
}

/// The value of an enumerator: the stored 64 bits read as a signed integer.
pub open spec fn enumerator_value(raw: u64) -> i64 {
    if raw < 0x8000_0000_0000_0000 {
        raw as i64
    } else {
        (raw - 0x1_0000_0000_0000_0000) as i64
    }
}

/// An enumerator as recorded.
pub fn enum_member(name: String, raw_value: u64) -> (m: EnumMember)
    ensures
        m.name == name,
        m.value == enumerator_value(raw_value),
{
    let value: i64 = if raw_value < 0x8000_0000_0000_0000u64 {
        raw_value as i64
    } else {
        let v: i128 = raw_value as i128 - 0x1_0000_0000_0000_0000i128;
        v as i64
    };
    EnumMember { name, value }
}

/// An enum as recorded: rejected when its name is empty; its size is the
/// number of enumerators the binding declares.
pub fn enum_from_binding(
    name: String,
    alignment: u8,
    enumerator_count: u16,
    members: Vec<EnumMember>,
) -> (r: Result<Enum, SchemaError>)
    ensures
        name@.len() == 0 <==> r is Err,
        r matches Err(e) ==> e == SchemaError::InvalidEnumName,
        r matches Ok(e) ==> e.name == name && e.alignment == alignment && e.size
            == enumerator_count && e.members == members,
{
    if name.as_str().is_empty() {
        return Err(SchemaError::InvalidEnumName);
    }
    Ok(Enum { name, alignment, size: enumerator_count, members })
}

/// The schema system is usable only when something registered with it.
pub fn check_registrations(registration_count: u32) -> (r: Result<(), SchemaError>)
    ensures
        r is Ok <==> registration_count != 0,
        r matches Err(e) ==> e == SchemaError::NoRegistrations,
{
    if registration_count == 0 {
        Err(SchemaError::NoRegistrations)
    } else {
        Ok(())
    }
}

// ---------------------------------------------------------------------------
// Type scopes and the schema map
// ---------------------------------------------------------------------------

/// The values kept from a list of results: those that are present, in order.
pub open spec fn present<T>(s: Seq<Option<T>>) -> Seq<T>
    decreases s.len(),
{
    if s.len() == 0 {
        Seq::empty()
    } else {
        present(s.drop_last()) + match s.last() {
            Some(v) => seq![v],
            None => Seq::empty(),
        }
    }
}

/// Keeping the present values keeps no more than there were.
pub proof fn lemma_present_len<T>(s: Seq<Option<T>>)
    ensures
        present(s).len() <= s.len(),
    decreases s.len(),
{
    if s.len() > 0 {
        lemma_present_len(s.drop_last());
    }
}

pub(crate) fn keep_present<T>(items: Vec<Option<T>>) -> (r: Vec<T>)
    ensures
        r@ == present(items@),
{
    let ghost all = items@;
    let mut items = items;
    let mut r: Vec<T> = Vec::new();
    let ghost mut k: int = 0;
    while items.len() > 0
        invariant
            0 <= k <= all.len(),
            items@ == all.skip(k),
            r@ == present(all.take(k)),
        decreases items@.len(),
    {
        let x = items.remove(0);
        proof {
            assert(x == all[k]);
            assert(all.take(k + 1).drop_last() =~= all.take(k));
            assert(items@ =~= all.skip(k + 1));
        }
        match x {
            Some(v) => r.push(v),
            None => {},
        }
        proof {
            assert(r@ =~= present(all.take(k + 1)));
            k = k + 1;
        }
    }
    proof {
        assert(all.take(k) =~= all);
    }
    r
}

/// The type scope of a module, from the outcomes of reading its class and enum
/// bindings: the bindings that could be read, in order; `None` when none could.
pub fn collect_type_scope(
    module_name: String,
    classes: Vec<Option<Class>>,
    enums: Vec<Option<Enum>>,
) -> (r: Option<TypeScope>)
    ensures
        (present(classes@).len() == 0 && present(enums@).len() == 0) <==> r is None,
        r matches Some(t) ==> t.module_name == module_name && t.classes@ == present(classes@)
            && t.enums@ == present(enums@),
{
    let classes = keep_present(classes);
    let enums = keep_present(enums);
    if classes.len() == 0 && enums.len() == 0 {
        return None;
    }
    Some(TypeScope { module_name, classes, enums })
}

/// The schema map of a list of type scopes: each module's classes and enums
/// under its name; a later scope of the same module replaces an earlier one.
pub open spec fn schema_entries(scopes: Seq<TypeScope>) -> Seq<(Seq<char>, (Seq<Class>, Seq<Enum>))>
    decreases scopes.len(),
{
    if scopes.len() == 0 {
        Seq::empty()
    } else {
        sorted_insert(
            schema_entries(scopes.drop_last()),
            scopes.last().module_name@,
            (scopes.last().classes@, scopes.last().enums@),
        )
    }
}

/// Collects type scopes into the schema map.
pub fn schemas_from_scopes(scopes: Vec<TypeScope>) -> (m: SchemaMap)
    ensures
        m.wf(),
        m@ == schema_entries(scopes@),
{
    let ghost all = scopes@;
    let mut scopes = scopes;
    let mut m: SchemaMap = StrMap::new();
    let ghost mut k: int = 0;
    while scopes.len() > 0
        invariant
            0 <= k <= all.len(),
            scopes@ == all.skip(k),
            m.wf(),
            m@ == schema_entries(all.take(k)),
        decreases scopes@.len(),
    {
        let t = scopes.remove(0);
        proof {
            assert(t == all[k]);
            let p = all.take(k + 1);
            assert(p.drop_last() =~= all.take(k));
            assert(p.last() == all[k]);
            assert(scopes@ =~= all.skip(k + 1));
        }
        let TypeScope { module_name, classes, enums } = t;
        m.insert(module_name, (classes, enums));
        proof {
            k = k + 1;
        }
    }
    proof {
        assert(all.take(k) =~= all);
    }
    m
}

/// The code pattern that loads the schema system.
pub const SCHEMA_SYSTEM_PATTERN: &'static str = "4c8d35${'} 0f2845";

/// Why the schema system cannot be located.
#[derive(Clone, Copy, Debug, PartialEq, Eq, Structural)]
pub enum LocateError {
    /// The image or the pattern could not be searched.
    Scan(ScanError),
    /// The pattern has no unique match any more.
    Schema(SchemaError),
}

/// What [`locate_schema_system`] gives back for a result `s` of the search:
/// its offset for a match, the outdated-pattern error without one, and the
/// search's own error otherwise.
pub open spec fn schema_located(s: Result<Option<u32>, ScanError>) -> Result<u32, LocateError> {
    match s {
        Ok(Some(rva)) => Ok(rva),
        Ok(None) => Err(LocateError::Schema(SchemaError::OutdatedPattern)),
        Err(e) => Err(LocateError::Scan(e)),
    }
}

/// Finds the schema system in the image of `schemasystem.dll`, as an offset
/// from the module base; an error when the pattern does not match.
pub fn locate_schema_system(image: &[u8]) -> (r: Result<u32, LocateError>)
    requires
        scan_safe_image(image@),
    ensures
        match pattern_error(SCHEMA_SYSTEM_PATTERN@) {
            Some(e) => r == Err::<u32, LocateError>(LocateError::Scan(e)),
            None => if !headers_ok(image@) {
                r == Err::<u32, LocateError>(LocateError::Scan(ScanError::BadImage))
            } else {
                r == Err::<u32, LocateError>(LocateError::Scan(ScanError::BadImage)) || r
                    == schema_located(Ok(code_capture(image@, SCHEMA_SYSTEM_PATTERN@)))
            },
        },
{
    match scan_code(image, SCHEMA_SYSTEM_PATTERN) {
        Ok(Some(rva)) => Ok(rva),
        Ok(None) => Err(LocateError::Schema(SchemaError::OutdatedPattern)),
        Err(e) => Err(LocateError::Scan(e)),
    }
}

/// The classes and enums of the last scope of module `name`, if any.
pub open spec fn last_scope_of(scopes: Seq<TypeScope>, name: Seq<char>) -> Option<(Seq<Class>, Seq<Enum>)>
    decreases scopes.len(),
{
    if scopes.len() == 0 {
        None
    } else if scopes.last().module_name@ == name {
        Some((scopes.last().classes@, scopes.last().enums@))
    } else {
        last_scope_of(scopes.drop_last(), name)
    }
}

/// Collecting scopes into the schema map keeps, for each module, the classes
/// and enums of its last scope, and the modules come out in name order.
pub proof fn law_schema_map_keeps_last_scope(scopes: Seq<TypeScope>, name: Seq<char>)
    ensures
        lookup(schema_entries(scopes), name) == last_scope_of(scopes, name),
        keys_sorted(schema_entries(scopes)),
    decreases scopes.len(),
{
    if scopes.len() > 0 {
        law_schema_map_keeps_last_scope(scopes.drop_last(), name);
        let t = scopes.last();
        lemma_sorted_insert_lookup(
            schema_entries(scopes.drop_last()),
            t.module_name@,
            (t.classes@, t.enums@),
            name,
        );
        lemma_sorted_insert_sorted(
            schema_entries(scopes.drop_last()),
            t.module_name@,
            (t.classes@, t.enums@),
        );
    }
}

/// The bytes of a fixed-size name field up to its first NUL (all of them when
/// there is none).
pub open spec fn before_nul(b: Seq<u8>) -> Seq<u8>
    decreases b.len(),
{
    if b.len() == 0 {
        Seq::empty()
    } else if b[0] == 0 {
        Seq::empty()
    } else {
        seq![b[0]] + before_nul(b.drop_first())
    }
}

/// What `String::from_utf8_lossy` makes of the bytes: their characters, with
/// each invalid sequence replaced by U+FFFD.
pub uninterp spec fn spec_utf8_lossy(bytes: Seq<u8>) -> Seq<char>;

/// Calls `String::from_utf8_lossy`. Claimed: the result is a function of the
/// bytes alone and, as its documentation states, valid UTF-8 decodes to
/// exactly its characters.
#[verifier::external_body]
fn utf8_lossy(bytes: &[u8]) -> (r: String)
    ensures
        r@ == spec_utf8_lossy(bytes@),
        valid_utf8(bytes@) ==> r@ == decode_utf8(bytes@),
{
    String::from_utf8_lossy(bytes).into_owned()
}

/// The name stored in a fixed-size, NUL-terminated byte field, decoded as
/// UTF-8 (invalid sequences replaced).
pub fn name_from_bytes(name: &[u8]) -> (r: String)
    ensures
        r@ == spec_utf8_lossy(before_nul(name@)),
        valid_utf8(before_nul(name@)) ==> r@ == decode_utf8(before_nul(name@)),
{
    let mut kept: Vec<u8> = Vec::new();
    let mut i: usize = 0;
    proof {
        assert(name@.skip(0) =~= name@);
        assert(kept@ + before_nul(name@) =~= before_nul(name@));
    }
    while i < name.len()
        invariant
            i <= name@.len(),
            before_nul(name@) == kept@ + before_nul(name@.skip(i as int)),
        decreases name@.len() - i,
    {
        let b = name[i];
        proof {
            let rest = name@.skip(i as int);
            assert(rest[0] == b);
            assert(rest.drop_first() =~= name@.skip(i + 1));
        }
        if b == 0 {
            proof {
                assert(before_nul(name@.skip(i as int)) =~= Seq::<u8>::empty());
                assert(before_nul(name@) =~= kept@);
            }
            return utf8_lossy(kept.as_slice());
        }
        kept.push(b);
        proof {
            assert(before_nul(name@) =~= kept@ + before_nul(name@.skip(i + 1)));
        }
        i = i + 1;
    }
    proof {
        assert(name@.skip(i as int) =~= Seq::<u8>::empty());
        assert(before_nul(name@) =~= kept@);
    }
    utf8_lossy(kept.as_slice())
}

} // verus!

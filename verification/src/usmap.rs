//! Translation of reflection data into the `.usmap` property schema: every
//! script struct and class becomes a schema struct whose properties carry
//! their serialization index, and every enum becomes a table from value to
//! variant name.

use vstd::prelude::*;
use vstd::string::*;
use std::collections::BTreeMap;
use crate::text::{has_prefix, obj_name, spec_obj_name, strip_prefix};

verus! {

// ---------------------------------------------------------------------------
// Reflection data, as read from a dump.

/// A reflected property: its name, its static array dimension and its type.
#[derive(Debug, PartialEq, Eq)]
pub struct Property {
    pub name: String,
    pub array_dim: usize,
    pub prop_type: PropertyType,
}

/// The type of a reflected property.  Paths name the referenced struct or
/// enum object; type details that the schema does not record are left out.
#[derive(Debug, PartialEq, Eq)]
pub enum PropertyType {
    Struct { struct_path: String },
    Str,
    Name,
    Text,
    MulticastInlineDelegate,
    MulticastSparseDelegate,
    MulticastDelegate,
    Delegate,
    Bool,
    Array { inner: Box<Property> },
    Enum { container: Box<Property>, enum_path: Option<String> },
    MapOf { key_prop: Box<Property>, value_prop: Box<Property> },
    SetOf { key_prop: Box<Property> },
    Float,
    Double,
    Byte { enum_path: Option<String> },
    UInt16,
    UInt32,
    UInt64,
    Int8,
    Int16,
    Int,
    Int64,
    Object,
    Class,
    WeakObject,
    SoftObject,
    SoftClass,
    LazyObject,
    Interface,
    FieldPath,
    Optional { inner: Box<Property> },
    Utf8Str,
    AnsiStr,
}

/// The layout of a script struct or class: its parent, if any, and its own
/// properties in declaration order.
#[derive(Debug, PartialEq, Eq)]
pub struct StructData {
    pub super_struct: Option<String>,
    pub properties: Vec<Property>,
}

/// An enum: its variant names with their values, in declaration order.
#[derive(Debug, PartialEq, Eq)]
pub struct EnumData {
    pub names: Vec<(String, i64)>,
}

/// A reflected object, as far as the schema is concerned.
#[derive(Debug, PartialEq, Eq)]
pub enum ObjectType {
    ScriptStruct(StructData),
    Class(StructData),
    Enum(EnumData),
    /// Any other object (packages, functions, plain objects, ...).
    Other,
}

/// A dump's objects, keyed by path, in ascending path order.
#[derive(Debug, PartialEq, Eq)]
pub struct Jmap {
    pub objects: Vec<(String, ObjectType)>,
}

// ---------------------------------------------------------------------------
// The property schema.

/// The schema's record of a property's type.
#[derive(Debug, PartialEq, Eq)]
pub enum PropertyInner {
    Struct { name: String },
    Str,
    Name,
    Text,
    MulticastDelegate,
    Delegate,
    Bool,
    Array { inner: Box<PropertyInner> },
    Enum { inner: Box<PropertyInner>, name: String },
    MapOf { key: Box<PropertyInner>, value: Box<PropertyInner> },
    SetOf { key: Box<PropertyInner> },
    Float,
    Double,
    Byte,
    UInt16,
    UInt32,
    UInt64,
    Int8,
    Int16,
    Int,
    Int64,
    Object,
    WeakObject,
    SoftObject,
    LazyObject,
    Interface,
    FieldPath,
    Optional { inner: Box<PropertyInner> },
    Utf8Str,
    AnsiStr,
}

/// A schema property: name, array dimension, serialization index and type.
#[derive(Debug, PartialEq, Eq)]
pub struct UsmapProperty {
    pub name: String,
    pub array_dim: u8,
    pub index: u16,
    pub inner: PropertyInner,
}

/// A schema struct: short name, parent's short name and properties.
#[derive(Debug, PartialEq, Eq)]
pub struct UsmapStruct {
    pub name: String,
    pub super_struct: Option<String>,
    pub properties: Vec<UsmapProperty>,
}

/// A schema enum: short name and the variant name of each value.
#[derive(Debug, PartialEq, Eq)]
pub struct UsmapEnum {
    pub name: String,
    pub entries: BTreeMap<i64, String>,
}

/// A property schema: its enums and its structs.
#[derive(Debug, PartialEq, Eq)]
pub struct Usmap {
    pub enums: Vec<UsmapEnum>,
    pub structs: Vec<UsmapStruct>,
}

// ---------------------------------------------------------------------------
// What the translation computes.

/// The enum name recorded for an optional enum path: its short name, or
/// `None` where there is no enum.
pub open spec fn enum_name_text(path: Option<String>) -> Seq<char> {
    match path {
        Some(p) => spec_obj_name(p@),
        None => "None"@,
    }
}

/// `o` is the schema's record of the property type `t`.
pub open spec fn inner_matches(t: PropertyType, o: PropertyInner) -> bool
    decreases t,
{
    match t {
        PropertyType::Struct { struct_path } => o matches PropertyInner::Struct { name } && name@
            == spec_obj_name(struct_path@),
        PropertyType::Str => o is Str,
        PropertyType::Name => o is Name,
        PropertyType::Text => o is Text,
        PropertyType::MulticastInlineDelegate => o is MulticastDelegate,
        PropertyType::MulticastSparseDelegate => o is MulticastDelegate,
        PropertyType::MulticastDelegate => o is MulticastDelegate,
        PropertyType::Delegate => o is Delegate,
        PropertyType::Bool => o is Bool,
        PropertyType::Array { inner } => o matches PropertyInner::Array { inner: oi }
            && inner_matches(inner.prop_type, *oi),
        PropertyType::Enum { container, enum_path } => o matches PropertyInner::Enum {
            inner: oi,
            name,
        } && inner_matches(container.prop_type, *oi) && name@ == enum_name_text(enum_path),
        PropertyType::MapOf { key_prop, value_prop } => o matches PropertyInner::MapOf { key, value }
            && inner_matches(key_prop.prop_type, *key) && inner_matches(
            value_prop.prop_type,
            *value,
        ),
        PropertyType::SetOf { key_prop } => o matches PropertyInner::SetOf { key } && inner_matches(
            key_prop.prop_type,
            *key,
        ),
        PropertyType::Float => o is Float,
        PropertyType::Double => o is Double,
        PropertyType::Byte { enum_path } => match enum_path {
            Some(e) => o matches PropertyInner::Enum { inner, name } && *inner is Byte && name@
                == spec_obj_name(e@),
            None => o is Byte,
        },
        PropertyType::UInt16 => o is UInt16,
        PropertyType::UInt32 => o is UInt32,
        PropertyType::UInt64 => o is UInt64,
        PropertyType::Int8 => o is Int8,
        PropertyType::Int16 => o is Int16,
        PropertyType::Int => o is Int,
        PropertyType::Int64 => o is Int64,
        PropertyType::Object => o is Object,
        PropertyType::Class => o is Object,
        PropertyType::WeakObject => o is WeakObject,
        PropertyType::SoftObject => o is SoftObject,
        PropertyType::SoftClass => o is SoftObject,
        PropertyType::LazyObject => o is LazyObject,
        PropertyType::Interface => o is Interface,
        PropertyType::FieldPath => o is FieldPath,
        PropertyType::Optional { inner } => o matches PropertyInner::Optional { inner: oi }
            && inner_matches(inner.prop_type, *oi),
        PropertyType::Utf8Str => o is Utf8Str,
        PropertyType::AnsiStr => o is AnsiStr,
    }
}

/// `o` is the schema's record of the property `p` at serialization index
/// `index`.
pub open spec fn property_matches(index: int, p: Property, o: UsmapProperty) -> bool {
    &&& o.name@ == p.name@
    &&& o.array_dim == p.array_dim
    &&& o.index == index
    &&& inner_matches(p.prop_type, o.inner)
}

/// The serialization index of the `i`-th property: the sum of the array
/// dimensions of the properties before it.
pub open spec fn property_index(ps: Seq<Property>, i: int) -> int
    decreases i,
{
    if i <= 0 {
        0
    } else {
        property_index(ps, i - 1) + ps[i - 1].array_dim
    }
}

/// The `i`-th property's array dimension fits in a byte and its index in
/// 16 bits.
pub open spec fn property_fits(ps: Seq<Property>, i: int) -> bool {
    ps[i].array_dim <= u8::MAX && property_index(ps, i) <= u16::MAX
}

/// Every property's array dimension fits in a byte and its index in 16 bits.
pub open spec fn properties_fit(ps: Seq<Property>) -> bool {
    forall|i: int| 0 <= i < ps.len() ==> #[trigger] property_fits(ps, i)
}

/// `os` records the properties `ps`, one for one, each at its index.
pub open spec fn properties_match(ps: Seq<Property>, os: Seq<UsmapProperty>) -> bool {
    &&& os.len() == ps.len()
    &&& forall|i: int| 0 <= i < ps.len() ==> property_matches(property_index(ps, i), ps[i], #[trigger] os[i])
}

/// `o` is the schema struct for the struct `s` at path `path`.
pub open spec fn struct_matches(path: Seq<char>, s: StructData, o: UsmapStruct) -> bool {
    &&& o.name@ == spec_obj_name(path)
    &&& match (s.super_struct, o.super_struct) {
        (Some(a), Some(b)) => b@ == spec_obj_name(a@),
        (None, None) => true,
        _ => false,
    }
    &&& properties_match(s.properties@, o.properties@)
}

/// `s` holds `::`.
pub open spec fn holds_scope_separator(s: Seq<char>) -> bool {
    exists|j: int| 0 <= j && j + 1 < s.len() && s[j] == ':' && #[trigger] s[j + 1] == ':'
}

/// The prefix that variant names of the enum at `path` may carry:
/// `ShortName::`.
pub open spec fn enum_prefix(path: Seq<char>) -> Seq<char> {
    spec_obj_name(path) + "::"@
}

/// A variant's name in the schema: without the enum's prefix, where it has it.
pub open spec fn variant_text(prefix: Seq<char>, name: Seq<char>) -> Seq<char> {
    if has_prefix(name, prefix) {
        name.skip(prefix.len() as int)
    } else {
        name
    }
}

/// Each variant name either carries the prefix or holds no `::` at all.
pub open spec fn variant_names_plain(prefix: Seq<char>, names: Seq<(String, i64)>) -> bool {
    forall|i: int|
        0 <= i < names.len() ==> has_prefix(#[trigger] names[i].0@, prefix)
            || !holds_scope_separator(names[i].0@)
}

/// The schema's table for the variants `names`, entered in order, so that a
/// later variant with the same value replaces an earlier one.
pub open spec fn enum_entries(prefix: Seq<char>, names: Seq<(String, i64)>) -> Map<i64, Seq<char>>
    decreases names.len(),
{
    if names.len() == 0 {
        Map::empty()
    } else {
        enum_entries(prefix, names.drop_last()).insert(
            names.last().1,
            variant_text(prefix, names.last().0@),
        )
    }
}

/// The table `m` holds exactly the entries `e`, names taken as text.
pub open spec fn entries_match(m: Map<i64, String>, e: Map<i64, Seq<char>>) -> bool {
    &&& m.dom() == e.dom()
    &&& forall|k: i64| #[trigger] m.contains_key(k) ==> m[k]@ == e[k]
}

/// `o` is the schema enum for the enum `e` at path `path`.
pub open spec fn enum_matches(path: Seq<char>, e: EnumData, o: UsmapEnum) -> bool {
    &&& o.name@ == spec_obj_name(path)
    &&& entries_match(o.entries@, enum_entries(enum_prefix(path), e.names@))
}

/// The script structs and classes among `objs`, in order, with their paths.
pub open spec fn struct_objects(objs: Seq<(String, ObjectType)>) -> Seq<(String, StructData)>
    decreases objs.len(),
{
    if objs.len() == 0 {
        Seq::empty()
    } else {
        let rest = struct_objects(objs.drop_last());
        match objs.last().1 {
            ObjectType::ScriptStruct(s) => rest.push((objs.last().0, s)),
            ObjectType::Class(s) => rest.push((objs.last().0, s)),
            _ => rest,
        }
    }
}

/// The enums among `objs`, in order, with their paths.
pub open spec fn enum_objects(objs: Seq<(String, ObjectType)>) -> Seq<(String, EnumData)>
    decreases objs.len(),
{
    if objs.len() == 0 {
        Seq::empty()
    } else {
        let rest = enum_objects(objs.drop_last());
        match objs.last().1 {
            ObjectType::Enum(e) => rest.push((objs.last().0, e)),
            _ => rest,
        }
    }
}

/// The object at `path` can be translated: a struct's properties fit the
/// schema's widths, an enum's variant names are either prefixed or plain.
pub open spec fn object_translatable(path: Seq<char>, o: ObjectType) -> bool {
    match o {
        ObjectType::ScriptStruct(s) => properties_fit(s.properties@),
        ObjectType::Class(s) => properties_fit(s.properties@),
        ObjectType::Enum(e) => variant_names_plain(enum_prefix(path), e.names@),
        ObjectType::Other => true,
    }
}

/// Every object of the dump can be translated.
pub open spec fn translatable(objs: Seq<(String, ObjectType)>) -> bool {
    forall|i: int| 0 <= i < objs.len() ==> object_translatable(objs[i].0@, #[trigger] objs[i].1)
}

// ---------------------------------------------------------------------------
// The translation.

/// The schema's record of a property type.  All multicast delegates become
/// one kind, class references become object references, soft class
/// references soft object references, and a byte backed by an enum becomes
/// an enum over a byte.
pub fn into_usmap_prop_inner(prop: &PropertyType) -> (r: PropertyInner)
    ensures
        inner_matches(*prop, r),
    decreases prop,
{
    match prop {
        PropertyType::Struct { struct_path } => PropertyInner::Struct {
            name: obj_name(struct_path.as_str()).to_owned(),
        },
        PropertyType::Str => PropertyInner::Str,
        PropertyType::Name => PropertyInner::Name,
        PropertyType::Text => PropertyInner::Text,
        PropertyType::MulticastInlineDelegate => PropertyInner::MulticastDelegate,
        PropertyType::MulticastSparseDelegate => PropertyInner::MulticastDelegate,
        PropertyType::MulticastDelegate => PropertyInner::MulticastDelegate,
        PropertyType::Delegate => PropertyInner::Delegate,
        PropertyType::Bool => PropertyInner::Bool,
        PropertyType::Array { inner } => PropertyInner::Array {
            inner: Box::new(into_usmap_prop_inner(&inner.prop_type)),
        },
        PropertyType::Enum { container, enum_path } => {
            let name = match enum_path {
                Some(e) => obj_name(e.as_str()).to_owned(),
                None => "None".to_owned(),
            };
            PropertyInner::Enum { inner: Box::new(into_usmap_prop_inner(&container.prop_type)), name }
        },
        PropertyType::MapOf { key_prop, value_prop } => PropertyInner::MapOf {
            key: Box::new(into_usmap_prop_inner(&key_prop.prop_type)),
            value: Box::new(into_usmap_prop_inner(&value_prop.prop_type)),
        },
        PropertyType::SetOf { key_prop } => PropertyInner::SetOf {
            key: Box::new(into_usmap_prop_inner(&key_prop.prop_type)),
        },
        PropertyType::Float => PropertyInner::Float,
        PropertyType::Double => PropertyInner::Double,
        PropertyType::Byte { enum_path } => match enum_path {
            Some(e) => PropertyInner::Enum {
                inner: Box::new(PropertyInner::Byte),
                name: obj_name(e.as_str()).to_owned(),
            },
            None => PropertyInner::Byte,
        },
        PropertyType::UInt16 => PropertyInner::UInt16,
        PropertyType::UInt32 => PropertyInner::UInt32,
        PropertyType::UInt64 => PropertyInner::UInt64,
        PropertyType::Int8 => PropertyInner::Int8,
        PropertyType::Int16 => PropertyInner::Int16,
        PropertyType::Int => PropertyInner::Int,
        PropertyType::Int64 => PropertyInner::Int64,
        PropertyType::Object => PropertyInner::Object,
        PropertyType::Class => PropertyInner::Object,
        PropertyType::WeakObject => PropertyInner::WeakObject,
        PropertyType::SoftObject => PropertyInner::SoftObject,
        PropertyType::SoftClass => PropertyInner::SoftObject,
        PropertyType::LazyObject => PropertyInner::LazyObject,
        PropertyType::Interface => PropertyInner::Interface,
        PropertyType::FieldPath => PropertyInner::FieldPath,
        PropertyType::Optional { inner } => PropertyInner::Optional {
            inner: Box::new(into_usmap_prop_inner(&inner.prop_type)),
        },
        PropertyType::Utf8Str => PropertyInner::Utf8Str,
        PropertyType::AnsiStr => PropertyInner::AnsiStr,
    }
}

/// The schema property for `prop` at serialization index `index`.
pub fn into_usmap_prop(index: usize, prop: &Property) -> (r: UsmapProperty)
    requires
        index <= u16::MAX,
        prop.array_dim <= u8::MAX,
    ensures
        property_matches(index as int, *prop, r),
{
    UsmapProperty {
        name: prop.name.clone(),
        array_dim: prop.array_dim as u8,
        index: index as u16,
        inner: into_usmap_prop_inner(&prop.prop_type),
    }
}

/// The schema struct for the struct `s` at `path`; each property's index is
/// the sum of the array dimensions before it.
fn into_usmap_struct(path: &String, s: &StructData) -> (r: UsmapStruct)
    requires
        properties_fit(s.properties@),
    ensures
        struct_matches(path@, *s, r),
{
    let mut properties: Vec<UsmapProperty> = Vec::new();
    let mut index: usize = 0;
    let n = s.properties.len();
    let mut j: usize = 0;
    while j < n
        invariant
            n == s.properties@.len(),
            j <= n,
            properties_fit(s.properties@),
            index == property_index(s.properties@, j as int),
            properties@.len() == j,
            forall|i: int|
                0 <= i < j ==> property_matches(
                    property_index(s.properties@, i),
                    s.properties@[i],
                    #[trigger] properties@[i],
                ),
        decreases n - j,
    {
        let prop = &s.properties[j];
        assert(property_fits(s.properties@, j as int));
        properties.push(into_usmap_prop(index, prop));
        index = index + prop.array_dim;
        j = j + 1;
    }
    let super_struct = match &s.super_struct {
        Some(p) => Some(obj_name(p.as_str()).to_owned()),
        None => None,
    };
    UsmapStruct { name: obj_name(path.as_str()).to_owned(), super_struct, properties }
}

/// The schema enum for the enum `e` at `path`: each variant value maps to
/// the variant's name without the `ShortName::` prefix; of two variants with
/// one value the later one stays.
fn into_usmap_enum(path: &String, e: &EnumData) -> (r: UsmapEnum)
    requires
        variant_names_plain(enum_prefix(path@), e.names@),
    ensures
        enum_matches(path@, *e, r),
{
    let mut prefix = obj_name(path.as_str()).to_owned();
    prefix.append("::");
    let ghost pre = enum_prefix(path@);
    assert(prefix@ == pre);
    let mut entries: BTreeMap<i64, String> = BTreeMap::new();
    let n = e.names.len();
    let mut j: usize = 0;
    while j < n
        invariant
            n == e.names@.len(),
            j <= n,
            prefix@ == pre,
            entries_match(entries@, enum_entries(pre, e.names@.take(j as int))),
        decreases n - j,
    {
        let (name, value) = &e.names[j];
        let variant = match strip_prefix(name.as_str(), prefix.as_str()) {
            Some(v) => v.to_owned(),
            None => name.clone(),
        };
        assert(variant@ == variant_text(pre, name@));
        entries.insert(*value, variant);
        proof {
            assert(e.names@.take(j + 1).drop_last() =~= e.names@.take(j as int));
            assert(e.names@.take(j + 1).last() == e.names@[j as int]);
            let want = enum_entries(pre, e.names@.take(j + 1));
            assert(entries@.dom() =~= want.dom());
        }
        j = j + 1;
    }
    assert(e.names@.take(n as int) =~= e.names@);
    UsmapEnum { name: obj_name(path.as_str()).to_owned(), entries }
}

/// The property schema of a dump: one schema struct per script struct or
/// class and one schema enum per enum, each in the dump's object order.
pub fn into_usmap(reflection_data: &Jmap) -> (r: Usmap)
    requires
        translatable(reflection_data.objects@),
    ensures
        r.structs@.len() == struct_objects(reflection_data.objects@).len(),
        forall|i: int|
            0 <= i < r.structs@.len() ==> struct_matches(
                struct_objects(reflection_data.objects@)[i].0@,
                struct_objects(reflection_data.objects@)[i].1,
                #[trigger] r.structs@[i],
            ),
        r.enums@.len() == enum_objects(reflection_data.objects@).len(),
        forall|i: int|
            0 <= i < r.enums@.len() ==> enum_matches(
                enum_objects(reflection_data.objects@)[i].0@,
                enum_objects(reflection_data.objects@)[i].1,
                #[trigger] r.enums@[i],
            ),
{
    let objs = &reflection_data.objects;
    let mut enums: Vec<UsmapEnum> = Vec::new();
    let mut structs: Vec<UsmapStruct> = Vec::new();
    let n = objs.len();
    let mut j: usize = 0;
    while j < n
        invariant
            n == objs@.len(),
            j <= n,
            translatable(objs@),
            structs@.len() == struct_objects(objs@.take(j as int)).len(),
            forall|i: int|
                0 <= i < structs@.len() ==> struct_matches(
                    struct_objects(objs@.take(j as int))[i].0@,
                    struct_objects(objs@.take(j as int))[i].1,
                    #[trigger] structs@[i],
                ),
            enums@.len() == enum_objects(objs@.take(j as int)).len(),
            forall|i: int|
                0 <= i < enums@.len() ==> enum_matches(
                    enum_objects(objs@.take(j as int))[i].0@,
                    enum_objects(objs@.take(j as int))[i].1,
                    #[trigger] enums@[i],
                ),
        decreases n - j,
    {
        let (path, obj) = &objs[j];
        proof {
            assert(objs@.take(j + 1).drop_last() =~= objs@.take(j as int));
            assert(objs@.take(j + 1).last() == objs@[j as int]);
        }
        match obj {
            ObjectType::ScriptStruct(s) => {
                structs.push(into_usmap_struct(path, s));
            },
            ObjectType::Class(s) => {
                structs.push(into_usmap_struct(path, s));
            },
            ObjectType::Enum(e) => {
                enums.push(into_usmap_enum(path, e));
            },
            ObjectType::Other => {},
        }
        j = j + 1;
    }
    assert(objs@.take(n as int) =~= objs@);
    Usmap { enums, structs }
}

/// Every variant's value is a key of the enum's table, and the key names
/// the variant unless a later variant carries the same value.
pub proof fn law_enum_table_keeps_last_variant(prefix: Seq<char>, names: Seq<(String, i64)>, i: int)
    requires
        0 <= i < names.len(),
    ensures
        enum_entries(prefix, names).contains_key(names[i].1),
        (forall|j: int| i < j < names.len() ==> #[trigger] names[j].1 != names[i].1)
            ==> enum_entries(prefix, names)[names[i].1] == variant_text(prefix, names[i].0@),
    decreases names.len(),
{
    if i < names.len() - 1 {
        let rest = names.drop_last();
        assert(rest[i] == names[i]);
        if forall|j: int| i < j < names.len() ==> #[trigger] names[j].1 != names[i].1 {
            assert forall|j: int| i < j < rest.len() implies #[trigger] rest[j].1 != rest[i].1 by {
                assert(rest[j] == names[j]);
            }
            assert(names[names.len() - 1].1 != names[i].1);
        }
        law_enum_table_keeps_last_variant(prefix, rest, i);
    }
}

/// Every key of an enum's table is the value of one of its variants.
pub proof fn law_enum_table_keys_are_values(prefix: Seq<char>, names: Seq<(String, i64)>, k: i64)
    requires
        enum_entries(prefix, names).contains_key(k),
    ensures
        exists|i: int| 0 <= i < names.len() && (#[trigger] names[i]).1 == k,
    decreases names.len(),
{
    if names.len() > 0 {
        let rest = names.drop_last();
        if names.last().1 == k {
            assert(names[names.len() - 1].1 == k);
        } else {
            law_enum_table_keys_are_values(prefix, rest, k);
            let i = choose|i: int| 0 <= i < rest.len() && (#[trigger] rest[i]).1 == k;
            assert(names[i] == rest[i]);
        }
    }
}

/// Each scalar property type is recorded as the schema kind of the same
/// name; the three multicast delegate kinds become `MulticastDelegate`,
/// class references `Object`, soft class references `SoftObject`, and a byte
/// without an enum `Byte`.
pub proof fn law_scalar_kinds_keep_their_names(t: PropertyType, o: PropertyInner)
    requires
        inner_matches(t, o),
    ensures
        t is Str ==> o is Str,
        t is Name ==> o is Name,
        t is Text ==> o is Text,
        t is MulticastInlineDelegate ==> o is MulticastDelegate,
        t is MulticastSparseDelegate ==> o is MulticastDelegate,
        t is MulticastDelegate ==> o is MulticastDelegate,
        t is Delegate ==> o is Delegate,
        t is Bool ==> o is Bool,
        t is Float ==> o is Float,
        t is Double ==> o is Double,
        t == (PropertyType::Byte { enum_path: None }) ==> o is Byte,
        t is UInt16 ==> o is UInt16,
        t is UInt32 ==> o is UInt32,
        t is UInt64 ==> o is UInt64,
        t is Int8 ==> o is Int8,
        t is Int16 ==> o is Int16,
        t is Int ==> o is Int,
        t is Int64 ==> o is Int64,
        t is Object ==> o is Object,
        t is Class ==> o is Object,
        t is WeakObject ==> o is WeakObject,
        t is SoftObject ==> o is SoftObject,
        t is SoftClass ==> o is SoftObject,
        t is LazyObject ==> o is LazyObject,
        t is Interface ==> o is Interface,
        t is FieldPath ==> o is FieldPath,
        t is Utf8Str ==> o is Utf8Str,
        t is AnsiStr ==> o is AnsiStr,
{
}

/// The serialization index starts at 0 and grows by exactly each
/// property's array dimension, whatever the property's type.
pub proof fn law_index_grows_by_array_dim(ps: Seq<Property>, i: int)
    requires
        0 <= i < ps.len(),
    ensures
        property_index(ps, 0) == 0,
        property_index(ps, i + 1) == property_index(ps, i) + ps[i].array_dim,
{
}

/// An object that is neither a script struct, a class nor an enum never
/// stops a dump from being translated: adding one changes nothing, and a
/// dump of nothing else translates.
pub proof fn law_other_objects_never_block(
    objs: Seq<(String, ObjectType)>,
    path: String,
)
    ensures
        object_translatable(path@, ObjectType::Other),
        translatable(objs.push((path, ObjectType::Other))) == translatable(objs),
        (forall|i: int| 0 <= i < objs.len() ==> (#[trigger] objs[i].1) is Other) ==> translatable(
            objs,
        ),
{
    let more = objs.push((path, ObjectType::Other));
    assert forall|i: int| 0 <= i < objs.len() implies more[i] == objs[i] by {}
    if translatable(more) {
        assert forall|i: int| 0 <= i < objs.len() implies object_translatable(
            objs[i].0@,
            #[trigger] objs[i].1,
        ) by {
            assert(more[i] == objs[i]);
            assert(object_translatable(more[i].0@, more[i].1));
        }
    }
    if translatable(objs) {
        assert forall|i: int| 0 <= i < more.len() implies object_translatable(
            more[i].0@,
            #[trigger] more[i].1,
        ) by {
            if i < objs.len() {
                assert(more[i] == objs[i]);
                assert(object_translatable(objs[i].0@, objs[i].1));
            }
        }
    }
}

/// Composite property types keep their shape: references to structs and
/// enums become records of the same kind carrying the referenced object's
/// short name (`None` for an enum property without an enum), a byte backed
/// by an enum becomes an enum over a byte, and containers stay containers.
pub proof fn law_composite_kinds_keep_their_shape(t: PropertyType, o: PropertyInner)
    requires
        inner_matches(t, o),
    ensures
        t matches PropertyType::Struct { struct_path } ==> o matches PropertyInner::Struct { name }
            && name@ == spec_obj_name(struct_path@),
        t matches PropertyType::Byte { enum_path: Some(e) } ==> o matches PropertyInner::Enum {
            inner,
            name,
        } && *inner is Byte && name@ == spec_obj_name(e@),
        t matches PropertyType::Enum { enum_path: Some(e), .. } ==> o matches PropertyInner::Enum {
            name,
            ..
        } && name@ == spec_obj_name(e@),
        t matches PropertyType::Enum { enum_path: None, .. } ==> o matches PropertyInner::Enum {
            name,
            ..
        } && name@ == seq!['N', 'o', 'n', 'e'],
        t is Array ==> o is Array,
        t is MapOf ==> o is MapOf,
        t is SetOf ==> o is SetOf,
        t is Optional ==> o is Optional,
{
    reveal_strlit("None");
}

/// A variant name that carries the enum's prefix loses exactly that prefix;
/// any other name is kept whole.
pub proof fn law_variant_text_strips_prefix(prefix: Seq<char>, rest: Seq<char>, name: Seq<char>)
    ensures
        variant_text(prefix, prefix + rest) == rest,
        (name.len() < prefix.len() || name.subrange(0, prefix.len() as int) != prefix)
            ==> variant_text(prefix, name) == name,
{
    assert((prefix + rest).subrange(0, prefix.len() as int) =~= prefix);
    assert((prefix + rest).skip(prefix.len() as int) =~= rest);
}

/// The prefix of an enum's variant names is its short name followed by `::`.
pub proof fn law_enum_prefix_is_short_name_and_colons(path: Seq<char>)
    ensures
        enum_prefix(path) == spec_obj_name(path) + seq![':', ':'],
{
    reveal_strlit("::");
}

// ---------------------------------------------------------------------------
// Checking that a dump can be translated.

/// Whether `s` holds `::`.
fn holds_double_colon(s: &str) -> (b: bool)
    ensures
        b == holds_scope_separator(s@),
{
    let n = s.unicode_len();
    let mut i: usize = 0;
    while n > 0 && i < n - 1
        invariant
            n == s@.len(),
            i <= n,
            forall|j: int| 0 <= j < i && j + 1 < n ==> !(s@[j] == ':' && #[trigger] s@[j + 1] == ':'),
        decreases n - i,
    {
        if s.get_char(i) == ':' && s.get_char(i + 1) == ':' {
            return true;
        }
        i = i + 1;
    }
    false
}

/// Whether the properties' dimensions and indices fit the schema's widths.
fn properties_fit_schema(ps: &Vec<Property>) -> (b: bool)
    ensures
        b == properties_fit(ps@),
{
    let n = ps.len();
    let mut index: usize = 0;
    let mut j: usize = 0;
    while j < n
        invariant
            n == ps@.len(),
            j <= n,
            index == property_index(ps@, j as int),
            index <= u16::MAX + u8::MAX,
            forall|i: int| 0 <= i < j ==> #[trigger] property_fits(ps@, i),
        decreases n - j,
    {
        let dim = ps[j].array_dim;
        if dim > 255 || index > 65535 {
            assert(!property_fits(ps@, j as int));
            return false;
        }
        assert(property_fits(ps@, j as int));
        assert(property_index(ps@, j + 1) == index + dim);
        index = index + dim;
        j = j + 1;
    }
    true
}

/// Whether every variant name either carries `prefix` or holds no `::`.
fn variant_names_checked(prefix: &str, names: &Vec<(String, i64)>) -> (b: bool)
    ensures
        b == variant_names_plain(prefix@, names@),
{
    let n = names.len();
    let mut j: usize = 0;
    while j < n
        invariant
            n == names@.len(),
            j <= n,
            forall|i: int|
                0 <= i < j ==> has_prefix(#[trigger] names@[i].0@, prefix@)
                    || !holds_scope_separator(names@[i].0@),
        decreases n - j,
    {
        let name = names[j].0.as_str();
        if strip_prefix(name, prefix).is_none() && holds_double_colon(name) {
            return false;
        }
        j = j + 1;
    }
    true
}

/// Whether `into_usmap` can translate the dump: every struct's property
/// dimensions fit a byte and indices 16 bits, and every enum variant name
/// either starts with `ShortName::` or holds no `::`.
pub fn is_translatable(reflection_data: &Jmap) -> (b: bool)
    ensures
        b == translatable(reflection_data.objects@),
{
    let objs = &reflection_data.objects;
    let n = objs.len();
    let mut j: usize = 0;
    while j < n
        invariant
            n == objs@.len(),
            j <= n,
            objs@ == reflection_data.objects@,
            forall|i: int| 0 <= i < j ==> object_translatable(objs@[i].0@, #[trigger] objs@[i].1),
        decreases n - j,
    {
        let (path, obj) = &objs[j];
        let ok = match obj {
            ObjectType::ScriptStruct(s) => properties_fit_schema(&s.properties),
            ObjectType::Class(s) => properties_fit_schema(&s.properties),
            ObjectType::Enum(e) => {
                let mut prefix = obj_name(path.as_str()).to_owned();
                prefix.append("::");
                assert(prefix@ == enum_prefix(path@));
                variant_names_checked(prefix.as_str(), &e.names)
            },
            ObjectType::Other => true,
        };
        assert(ok == object_translatable(objs@[j as int].0@, objs@[j as int].1));
        if !ok {
            return false;
        }
        j = j + 1;
    }
    true
}

} // verus!

use std::collections::BTreeMap;

use jmap_dumper::usmap::{
    into_usmap, into_usmap_prop, into_usmap_prop_inner, is_translatable, EnumData, Jmap, ObjectType, Property,
    PropertyInner, PropertyType, StructData, UsmapProperty,
};

fn prop(name: &str, array_dim: usize, prop_type: PropertyType) -> Property {
    Property { name: name.to_string(), array_dim, prop_type }
}

#[test]
fn simple_types_map_one_for_one() {
    assert_eq!(into_usmap_prop_inner(&PropertyType::Str), PropertyInner::Str);
    assert_eq!(into_usmap_prop_inner(&PropertyType::Int), PropertyInner::Int);
    assert_eq!(into_usmap_prop_inner(&PropertyType::Bool), PropertyInner::Bool);
    assert_eq!(into_usmap_prop_inner(&PropertyType::FieldPath), PropertyInner::FieldPath);
}

#[test]
fn merged_kinds() {
    assert_eq!(
        into_usmap_prop_inner(&PropertyType::MulticastInlineDelegate),
        PropertyInner::MulticastDelegate
    );
    assert_eq!(
        into_usmap_prop_inner(&PropertyType::MulticastSparseDelegate),
        PropertyInner::MulticastDelegate
    );
    assert_eq!(into_usmap_prop_inner(&PropertyType::Class), PropertyInner::Object);
    assert_eq!(into_usmap_prop_inner(&PropertyType::SoftClass), PropertyInner::SoftObject);
}

#[test]
fn struct_and_enum_references_use_short_names() {
    assert_eq!(
        into_usmap_prop_inner(&PropertyType::Struct {
            struct_path: "/Script/CoreUObject.Vector".to_string()
        }),
        PropertyInner::Struct { name: "Vector".to_string() }
    );
    assert_eq!(
        into_usmap_prop_inner(&PropertyType::Enum {
            container: Box::new(prop("UnderlyingType", 1, PropertyType::Byte { enum_path: None })),
            enum_path: Some("/Script/Engine.ECollisionChannel".to_string()),
        }),
        PropertyInner::Enum {
            inner: Box::new(PropertyInner::Byte),
            name: "ECollisionChannel".to_string()
        }
    );
    assert_eq!(
        into_usmap_prop_inner(&PropertyType::Enum {
            container: Box::new(prop("UnderlyingType", 1, PropertyType::Int)),
            enum_path: None,
        }),
        PropertyInner::Enum { inner: Box::new(PropertyInner::Int), name: "None".to_string() }
    );
}

#[test]
fn byte_with_enum_becomes_enum_over_byte() {
    assert_eq!(
        into_usmap_prop_inner(&PropertyType::Byte {
            enum_path: Some("/Script/Engine.EMovementMode".to_string())
        }),
        PropertyInner::Enum {
            inner: Box::new(PropertyInner::Byte),
            name: "EMovementMode".to_string()
        }
    );
    assert_eq!(
        into_usmap_prop_inner(&PropertyType::Byte { enum_path: None }),
        PropertyInner::Byte
    );
}

#[test]
fn containers_translate_their_elements() {
    let t = PropertyType::MapOf {
        key_prop: Box::new(prop("Key", 1, PropertyType::Name)),
        value_prop: Box::new(prop(
            "Value",
            1,
            PropertyType::Array { inner: Box::new(prop("Inner", 1, PropertyType::SoftClass)) },
        )),
    };
    assert_eq!(
        into_usmap_prop_inner(&t),
        PropertyInner::MapOf {
            key: Box::new(PropertyInner::Name),
            value: Box::new(PropertyInner::Array { inner: Box::new(PropertyInner::SoftObject) }),
        }
    );
    let t = PropertyType::Optional {
        inner: Box::new(prop(
            "Inner",
            1,
            PropertyType::SetOf { key_prop: Box::new(prop("Key", 1, PropertyType::Class)) },
        )),
    };
    assert_eq!(
        into_usmap_prop_inner(&t),
        PropertyInner::Optional {
            inner: Box::new(PropertyInner::SetOf { key: Box::new(PropertyInner::Object) })
        }
    );
}

#[test]
fn property_record() {
    assert_eq!(
        into_usmap_prop(7, &prop("Health", 2, PropertyType::Float)),
        UsmapProperty {
            name: "Health".to_string(),
            array_dim: 2,
            index: 7,
            inner: PropertyInner::Float
        }
    );
}

#[test]
fn whole_schema() {
    let objects = vec![
        (
            "/Script/Engine.Actor".to_string(),
            ObjectType::Class(StructData {
                super_struct: Some("/Script/CoreUObject.Object".to_string()),
                properties: vec![
                    prop("Tags", 1, PropertyType::Array {
                        inner: Box::new(prop("Tags", 1, PropertyType::Name)),
                    }),
                    prop("Slots", 3, PropertyType::Int),
                    prop("Owner", 1, PropertyType::Object),
                ],
            }),
        ),
        ("/Script/Engine".to_string(), ObjectType::Other),
        (
            "/Script/Engine.EMovementMode".to_string(),
            ObjectType::Enum(EnumData {
                names: vec![
                    ("EMovementMode::MOVE_None".to_string(), 0),
                    ("MOVE_Walking".to_string(), 1),
                    ("EMovementMode::MOVE_MAX".to_string(), 2),
                    ("EMovementMode::MOVE_Falling".to_string(), 2),
                ],
            }),
        ),
        (
            "/Script/Engine.HitResult".to_string(),
            ObjectType::ScriptStruct(StructData { super_struct: None, properties: vec![] }),
        ),
    ];
    let usmap = into_usmap(&Jmap { objects });

    assert_eq!(usmap.structs.len(), 2);
    let actor = &usmap.structs[0];
    assert_eq!(actor.name, "Actor");
    assert_eq!(actor.super_struct, Some("Object".to_string()));
    let indices: Vec<u16> = actor.properties.iter().map(|p| p.index).collect();
    assert_eq!(indices, vec![0, 1, 4]);
    assert_eq!(
        actor.properties[0].inner,
        PropertyInner::Array { inner: Box::new(PropertyInner::Name) }
    );
    assert_eq!(actor.properties[1].array_dim, 3);
    let hit = &usmap.structs[1];
    assert_eq!(hit.name, "HitResult");
    assert_eq!(hit.super_struct, None);
    assert!(hit.properties.is_empty());

    assert_eq!(usmap.enums.len(), 1);
    let e = &usmap.enums[0];
    assert_eq!(e.name, "EMovementMode");
    let mut expected = BTreeMap::new();
    expected.insert(0, "MOVE_None".to_string());
    expected.insert(1, "MOVE_Walking".to_string());
    expected.insert(2, "MOVE_Falling".to_string());
    assert_eq!(e.entries, expected);
}

#[test]
fn empty_dump_gives_empty_schema() {
    let usmap = into_usmap(&Jmap { objects: vec![] });
    assert!(usmap.enums.is_empty());
    assert!(usmap.structs.is_empty());
}

#[test]
fn translatable_dumps() {
    let ok = Jmap {
        objects: vec![
            (
                "/Script/Engine.EFoo".to_string(),
                ObjectType::Enum(EnumData {
                    names: vec![("EFoo::A".to_string(), 0), ("B".to_string(), 1)],
                }),
            ),
            (
                "/Script/Engine.Big".to_string(),
                ObjectType::ScriptStruct(StructData {
                    super_struct: None,
                    properties: vec![prop("A", 255, PropertyType::Int), prop("B", 1, PropertyType::Int)],
                }),
            ),
        ],
    };
    assert!(is_translatable(&ok));
    assert!(is_translatable(&Jmap { objects: vec![] }));
}

#[test]
fn untranslatable_dumps() {
    let wide = Jmap {
        objects: vec![(
            "/Script/Engine.Wide".to_string(),
            ObjectType::Class(StructData {
                super_struct: None,
                properties: vec![prop("A", 256, PropertyType::Int)],
            }),
        )],
    };
    assert!(!is_translatable(&wide));

    let mut many = Vec::new();
    for i in 0..259 {
        many.push(prop(&format!("P{i}"), 255, PropertyType::Int));
    }
    let deep = Jmap {
        objects: vec![(
            "/Script/Engine.Deep".to_string(),
            ObjectType::ScriptStruct(StructData { super_struct: None, properties: many }),
        )],
    };
    assert!(!is_translatable(&deep));

    let foreign = Jmap {
        objects: vec![(
            "/Script/Engine.EFoo".to_string(),
            ObjectType::Enum(EnumData { names: vec![("EBar::A".to_string(), 0)] }),
        )],
    };
    assert!(!is_translatable(&foreign));
}

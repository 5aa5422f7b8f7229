//! Tests of types and of the layout engine.

use spirv_bindgen::error::LayoutError;
use spirv_bindgen::types::{Array, Field, Layout, Member, Scalar, Structure, Type, Vector};

fn scalar(scalar: Scalar) -> Type {
    Type::Scalar(scalar)
}

fn vector(component_type: Scalar, component_count: u32) -> Type {
    Type::Vector(Vector { component_type, component_count })
}

fn bytes(length: u32) -> Type {
    Type::Array(Array::new(Type::Scalar(Scalar::U8), length))
}

fn natural(fields: Vec<(Scalar, &str)>) -> Vec<(Type, String)> {
    fields.into_iter().map(|(kind, name)| (scalar(kind), name.to_string())).collect()
}

fn declared(field_type: Type, name: &str, offset: u32, location: u32) -> Field {
    Field { field_type, name: name.to_string(), offset: Some(offset), location: Some(location) }
}

fn summary(structure: &Structure) -> Vec<(String, u32, usize)> {
    structure
        .members
        .iter()
        .map(|member| (member.name.clone(), member.offset, member.member_type.size()))
        .collect()
}

#[test]
fn scalar_sizes_and_alignments() {
    let expected = vec![
        (Scalar::U8, 1),
        (Scalar::I8, 1),
        (Scalar::U16, 2),
        (Scalar::I16, 2),
        (Scalar::U32, 4),
        (Scalar::I32, 4),
        (Scalar::F32, 4),
        (Scalar::U64, 8),
        (Scalar::I64, 8),
        (Scalar::F64, 8),
    ];
    for (kind, size) in expected {
        assert_eq!(kind.size(), size);
        assert_eq!(kind.alignment(), size);
        assert_eq!(scalar(kind).layout(), Layout { size, align: size });
    }
}

#[test]
fn vector_and_array_sizes() {
    let three_floats = vector(Scalar::F32, 3);
    assert_eq!(three_floats.size(), 12);
    assert_eq!(three_floats.alignment(), 4);
    let array = Array::new(vector(Scalar::F64, 2), 5);
    assert_eq!(array.size(), 80);
    assert_eq!(array.alignment(), 8);
    assert_eq!(Type::Array(array).checked_size(), Some(80));
    let empty = Array::new(scalar(Scalar::U64), 0);
    assert_eq!(empty.size(), 0);
}

#[test]
fn sizes_beyond_32_bits_are_not_placeable() {
    let huge = Type::Array(Array::new(scalar(Scalar::U64), u32::MAX));
    assert_eq!(huge.checked_size(), None);
    assert_eq!(huge.checked_layout(), None);
    let nested = Type::Array(Array::new(bytes(65536), 65536));
    assert_eq!(nested.checked_size(), None);
    let fits = Type::Array(Array::new(bytes(65535), 65536));
    assert_eq!(fits.checked_size(), Some(65535 * 65536));
    assert_eq!(fits.checked_layout(), Some(Layout { size: 65535 * 65536, align: 1 }));
}

#[test]
fn padding_member_is_named_by_its_index() {
    let padding = Member::padding(20, 4, 7);
    assert_eq!(padding.name, "_padding_7");
    assert_eq!(padding.offset, 20);
    assert_eq!(padding.location, None);
    assert_eq!(*padding.member_type, bytes(4));
    let large = Member::padding(0, 1, 4294967295);
    assert_eq!(large.name, "_padding_4294967295");
    let ten = Member::padding(0, 1, 10);
    assert_eq!(ten.name, "_padding_10");
}

#[test]
fn natural_layout_follows_alignment() {
    let fields = natural(vec![
        (Scalar::F32, "name_a"),
        (Scalar::I8, "name_b"),
        (Scalar::U32, "name_c"),
        (Scalar::F64, "name_d"),
        (Scalar::U8, "name_e"),
    ]);
    let structure = Structure::from_fields(fields, "SpecializationConstants".to_string()).unwrap();
    assert_eq!(structure.name, "SpecializationConstants");
    assert_eq!(structure.layout, Layout { size: 32, align: 8 });
    assert_eq!(structure.size(), 32);
    assert_eq!(structure.alignment(), 8);
    assert_eq!(
        summary(&structure),
        vec![
            ("name_a".to_string(), 0, 4),
            ("name_b".to_string(), 4, 1),
            ("_padding_0".to_string(), 5, 3),
            ("name_c".to_string(), 8, 4),
            ("_padding_1".to_string(), 12, 4),
            ("name_d".to_string(), 16, 8),
            ("name_e".to_string(), 24, 1),
            ("_padding_2".to_string(), 25, 7),
        ]
    );
    assert_eq!(*structure.members[2].member_type, bytes(3));
    assert_eq!(*structure.members[3].member_type, scalar(Scalar::U32));
    assert!(structure.members.iter().all(|member| member.location.is_none()));
}

#[test]
fn natural_layout_is_deterministic() {
    let make = || {
        natural(vec![(Scalar::U8, "a"), (Scalar::U64, "b"), (Scalar::U16, "c"), (Scalar::F32, "d")])
    };
    let first = Structure::from_fields(make(), "S".to_string()).unwrap();
    let second = Structure::from_fields(make(), "S".to_string()).unwrap();
    assert_eq!(first, second);
    let renamed = natural(vec![(Scalar::I8, "w"), (Scalar::F64, "x"), (Scalar::I16, "y"), (Scalar::U32, "z")]);
    let third = Structure::from_fields(renamed, "T".to_string()).unwrap();
    assert_eq!(first.layout, third.layout);
    let offsets = |structure: &Structure| -> Vec<u32> {
        structure.members.iter().map(|member| member.offset).collect()
    };
    assert_eq!(offsets(&first), vec![0, 1, 8, 16, 18, 20]);
    assert_eq!(offsets(&first), offsets(&third));
}

#[test]
fn members_cover_the_structure_without_overlap() {
    let fields = natural(vec![
        (Scalar::U8, "a"),
        (Scalar::U32, "b"),
        (Scalar::U16, "c"),
        (Scalar::F64, "d"),
        (Scalar::I8, "e"),
    ]);
    let structure = Structure::from_fields(fields, "S".to_string()).unwrap();
    assert_eq!(structure.layout.size % structure.layout.align, 0);
    let mut cursor: usize = 0;
    for member in &structure.members {
        assert_eq!(member.offset as usize, cursor);
        cursor += member.member_type.size();
    }
    assert_eq!(cursor, structure.layout.size);
    let largest = structure.members.iter().map(|member| member.member_type.alignment()).max();
    assert_eq!(largest, Some(structure.layout.align));
}

#[test]
fn empty_structure_has_no_size() {
    let structure = Structure::from_fields(Vec::new(), "Empty".to_string()).unwrap();
    assert!(structure.members.is_empty());
    assert_eq!(structure.layout, Layout { size: 0, align: 1 });
}

#[test]
fn declared_offsets_are_kept_with_padding_in_the_gaps() {
    let fields = vec![
        declared(vector(Scalar::F32, 3), "position", 0, 0),
        declared(scalar(Scalar::F32), "radius", 12, 1),
        declared(vector(Scalar::F32, 4), "color", 32, 2),
        declared(scalar(Scalar::U32), "index", 52, 3),
    ];
    let structure = Structure::compose(fields, "Block".to_string()).unwrap();
    assert_eq!(
        summary(&structure),
        vec![
            ("position".to_string(), 0, 12),
            ("radius".to_string(), 12, 4),
            ("_padding_0".to_string(), 16, 16),
            ("color".to_string(), 32, 16),
            ("_padding_1".to_string(), 48, 4),
            ("index".to_string(), 52, 4),
        ]
    );
    assert_eq!(structure.layout, Layout { size: 56, align: 4 });
    let locations: Vec<Option<u32>> = structure.members.iter().map(|member| member.location).collect();
    assert_eq!(locations, vec![Some(0), Some(1), None, Some(2), None, Some(3)]);
}

#[test]
fn declared_offset_at_the_cursor_needs_no_padding() {
    let fields = vec![
        declared(scalar(Scalar::U32), "a", 0, 0),
        declared(scalar(Scalar::U32), "b", 4, 1),
        declared(scalar(Scalar::U64), "c", 8, 2),
    ];
    let structure = Structure::compose(fields, "Packed".to_string()).unwrap();
    assert_eq!(structure.members.len(), 3);
    assert_eq!(
        summary(&structure),
        vec![("a".to_string(), 0, 4), ("b".to_string(), 4, 4), ("c".to_string(), 8, 8)]
    );
    assert_eq!(structure.layout, Layout { size: 16, align: 8 });
}

#[test]
fn declared_offset_gets_closing_padding() {
    let fields = vec![declared(scalar(Scalar::F64), "a", 0, 0), declared(scalar(Scalar::U8), "b", 9, 1)];
    let structure = Structure::compose(fields, "Tail".to_string()).unwrap();
    assert_eq!(
        summary(&structure),
        vec![
            ("a".to_string(), 0, 8),
            ("_padding_0".to_string(), 8, 1),
            ("b".to_string(), 9, 1),
            ("_padding_1".to_string(), 10, 6),
        ]
    );
    assert_eq!(structure.layout, Layout { size: 16, align: 8 });
}

#[test]
fn declared_offset_below_the_cursor_is_an_overlap() {
    let fields = vec![declared(scalar(Scalar::U32), "a", 0, 0), declared(scalar(Scalar::U32), "b", 2, 1)];
    assert_eq!(
        Structure::compose(fields, "Bad".to_string()),
        Err(LayoutError::Overlap { index: 1, offset: 2, cursor: 4 })
    );
}

#[test]
fn mixed_fields_follow_each_policy() {
    let fields = vec![
        Field { field_type: scalar(Scalar::U8), name: "a".to_string(), offset: None, location: None },
        declared(scalar(Scalar::U16), "b", 3, 9),
        Field { field_type: scalar(Scalar::U32), name: "c".to_string(), offset: None, location: None },
    ];
    let structure = Structure::compose(fields, "Mixed".to_string()).unwrap();
    assert_eq!(
        summary(&structure),
        vec![
            ("a".to_string(), 0, 1),
            ("_padding_0".to_string(), 1, 2),
            ("b".to_string(), 3, 2),
            ("_padding_1".to_string(), 5, 3),
            ("c".to_string(), 8, 4),
        ]
    );
    assert_eq!(structure.layout, Layout { size: 12, align: 4 });
}

#[test]
fn field_that_cannot_be_placed_is_invalid() {
    let fields = vec![
        (scalar(Scalar::U32), "a".to_string()),
        (Type::Array(Array::new(scalar(Scalar::U64), u32::MAX)), "b".to_string()),
    ];
    assert_eq!(
        Structure::from_fields(fields, "Huge".to_string()),
        Err(LayoutError::InvalidField { index: 1 })
    );
    let hollow = Structure {
        name: "Hollow".to_string(),
        members: Vec::new(),
        layout: Layout { size: 0, align: 0 },
    };
    let fields = vec![(Type::Struct(hollow), "a".to_string())];
    assert_eq!(
        Structure::from_fields(fields, "Outer".to_string()),
        Err(LayoutError::InvalidField { index: 0 })
    );
}

#[test]
fn structure_beyond_32_bits_is_too_large() {
    let fields = vec![(bytes(u32::MAX), "a".to_string()), (scalar(Scalar::U8), "b".to_string())];
    assert_eq!(
        Structure::from_fields(fields, "Long".to_string()),
        Err(LayoutError::TooLarge { index: 1 })
    );
    let fields = vec![(bytes(u32::MAX - 2), "a".to_string()), (scalar(Scalar::U32), "b".to_string())];
    assert_eq!(
        Structure::from_fields(fields, "Long".to_string()),
        Err(LayoutError::TooLarge { index: 1 })
    );
    let fields = vec![(scalar(Scalar::U64), "a".to_string()), (bytes(u32::MAX - 9), "b".to_string())];
    assert_eq!(
        Structure::from_fields(fields, "Long".to_string()),
        Err(LayoutError::TooLarge { index: 2 })
    );
    let fields = vec![(bytes(u32::MAX), "a".to_string())];
    let structure = Structure::from_fields(fields, "Full".to_string()).unwrap();
    assert_eq!(structure.layout, Layout { size: u32::MAX as usize, align: 1 });
}

#[test]
fn nested_structure_uses_its_own_layout() {
    let inner = Structure::from_fields(
        natural(vec![(Scalar::U8, "flag"), (Scalar::F64, "value")]),
        "Inner".to_string(),
    )
    .unwrap();
    assert_eq!(inner.layout, Layout { size: 16, align: 8 });
    let fields = vec![(scalar(Scalar::U32), "count".to_string()), (Type::Struct(inner), "inner".to_string())];
    let outer = Structure::from_fields(fields, "Outer".to_string()).unwrap();
    assert_eq!(
        summary(&outer),
        vec![
            ("count".to_string(), 0, 4),
            ("_padding_0".to_string(), 4, 4),
            ("inner".to_string(), 8, 16),
        ]
    );
    assert_eq!(outer.layout, Layout { size: 24, align: 8 });
}

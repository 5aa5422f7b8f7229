//! Tests of names, numbers and lookups.

use spirv_bindgen::module::{
    Decoration, ExecutionModel, Op, SpvInstruction, SpvModule, SpvOperand, StorageClass,
};
use spirv_bindgen::text::{numbered, prefix_before_last, suffix_after_last};
use spirv_bindgen::utilities::sort::sort_by_key;
use spirv_bindgen::utilities::{
    execution_model_to_string, find_decoration, find_duplicate_id, find_instruction_with_id,
    find_member_name, find_member_offset, find_name_for_id, has_decoration, variable_execution_models,
};

fn instruction(opcode: Op, result_type: Option<u32>, result_id: Option<u32>, operands: Vec<SpvOperand>) -> SpvInstruction {
    SpvInstruction::new(opcode, result_type, result_id, operands)
}

fn text(value: &str) -> SpvOperand {
    SpvOperand::LiteralString(value.to_string())
}

#[test]
fn numbers_are_written_in_decimal() {
    assert_eq!(numbered("field_", 0), "field_0");
    assert_eq!(numbered("field_", 7), "field_7");
    assert_eq!(numbered("Structure", 42), "Structure42");
    assert_eq!(numbered("", 1005), "1005");
    assert_eq!(numbered("_padding_", u32::MAX), "_padding_4294967295");
}

#[test]
fn suffix_after_the_last_symbol() {
    assert_eq!(suffix_after_last("input.position", '.'), "position");
    assert_eq!(suffix_after_last("a.b.c", '.'), "c");
    assert_eq!(suffix_after_last("plain", '.'), "plain");
    assert_eq!(suffix_after_last("trailing.", '.'), "");
    assert_eq!(suffix_after_last("", '.'), "");
    assert_eq!(suffix_after_last("größe.länge", '.'), "länge");
}

#[test]
fn prefix_before_the_last_occurrence() {
    assert_eq!(prefix_before_last("Camera_std430", "_std430"), "Camera");
    assert_eq!(prefix_before_last("Camera", "_std430"), "Camera");
    assert_eq!(prefix_before_last("A_std430_B_std430", "_std430"), "A_std430_B");
    assert_eq!(prefix_before_last("_std430", "_std430"), "");
    assert_eq!(prefix_before_last("std", "_std430"), "std");
    assert_eq!(prefix_before_last("abc", ""), "abc");
}

#[test]
fn stage_names() {
    assert_eq!(execution_model_to_string(&ExecutionModel::Vertex), "vertex");
    assert_eq!(execution_model_to_string(&ExecutionModel::GLCompute), "compute");
    assert_eq!(execution_model_to_string(&ExecutionModel::TessellationControl), "tessellation_control");
    assert_eq!(execution_model_to_string(&ExecutionModel::RayGenerationNV), "ray_generation_nv");
    assert_eq!(execution_model_to_string(&ExecutionModel::MeshEXT), "mesh_ext");
}

#[test]
fn numbers_of_enumerants() {
    assert_eq!(Op::from_word(21), Op::TypeInt);
    assert_eq!(Op::from_word(59), Op::Variable);
    assert_eq!(Op::from_word(5341), Op::TypeAccelerationStructureKHR);
    assert_eq!(Op::from_word(54), Op::Other(54));
    assert_eq!(ExecutionModel::from_word(5), Some(ExecutionModel::GLCompute));
    assert_eq!(ExecutionModel::from_word(5365), Some(ExecutionModel::MeshEXT));
    assert_eq!(ExecutionModel::from_word(7), None);
    assert_eq!(StorageClass::from_word(12), StorageClass::StorageBuffer);
    assert_eq!(StorageClass::from_word(2), StorageClass::Other(2));
    assert_eq!(Decoration::from_word(35), Decoration::Offset);
    assert_eq!(Decoration::from_word(34), Decoration::DescriptorSet);
    assert_eq!(Decoration::from_word(2), Decoration::Other(2));
}

#[test]
fn sorting_is_stable() {
    let items = vec![(3, "c"), (1, "a"), (3, "d"), (0, "z"), (1, "b"), (2, "m")];
    assert_eq!(
        sort_by_key(items),
        vec![(0, "z"), (1, "a"), (1, "b"), (2, "m"), (3, "c"), (3, "d")]
    );
    assert_eq!(sort_by_key(Vec::<(u32, u8)>::new()), Vec::new());
    assert_eq!(sort_by_key(vec![(5, 'x')]), vec![(5, 'x')]);
}

fn sample() -> SpvModule {
    let mut module = SpvModule::new();
    module.types_global_values = vec![
        instruction(Op::TypeInt, None, Some(1), vec![SpvOperand::LiteralBit32(32), SpvOperand::LiteralBit32(0)]),
        instruction(Op::TypePointer, None, Some(2), vec![SpvOperand::StorageClass(StorageClass::Input), SpvOperand::IdRef(1)]),
        instruction(Op::Variable, Some(2), Some(3), vec![SpvOperand::StorageClass(StorageClass::Input)]),
        instruction(Op::Other(43), Some(1), None, vec![SpvOperand::LiteralBit32(5)]),
    ];
    module.annotations = vec![
        instruction(Op::Decorate, None, None, vec![SpvOperand::IdRef(3), SpvOperand::Decoration(Decoration::Location), SpvOperand::LiteralBit32(4)]),
        instruction(Op::Decorate, None, None, vec![SpvOperand::IdRef(3), SpvOperand::Decoration(Decoration::Location), SpvOperand::LiteralBit32(9)]),
        instruction(Op::Decorate, None, None, vec![SpvOperand::IdRef(1), SpvOperand::Decoration(Decoration::BuiltIn), SpvOperand::LiteralBit32(0)]),
        instruction(Op::MemberDecorate, None, None, vec![SpvOperand::IdRef(7), SpvOperand::LiteralBit32(1), SpvOperand::Decoration(Decoration::Offset), SpvOperand::LiteralBit32(16)]),
        instruction(Op::Decorate, None, None, vec![SpvOperand::IdRef(8), SpvOperand::Decoration(Decoration::Binding)]),
        instruction(Op::Decorate, None, None, vec![SpvOperand::IdRef(8), SpvOperand::Decoration(Decoration::Binding), SpvOperand::LiteralBit32(2)]),
    ];
    module.debug_names = vec![
        instruction(Op::Name, None, None, vec![SpvOperand::IdRef(3), text("in.position")]),
        instruction(Op::MemberName, None, None, vec![SpvOperand::IdRef(7), SpvOperand::LiteralBit32(1), text("color")]),
        instruction(Op::Name, None, None, vec![SpvOperand::IdRef(3), text("second")]),
    ];
    module.entry_points = vec![
        instruction(Op::EntryPoint, None, None, vec![SpvOperand::ExecutionModel(ExecutionModel::Vertex), SpvOperand::IdRef(10), text("vs"), SpvOperand::IdRef(3)]),
        instruction(Op::EntryPoint, None, None, vec![SpvOperand::ExecutionModel(ExecutionModel::Fragment), SpvOperand::IdRef(11), text("fs"), SpvOperand::IdRef(8), SpvOperand::IdRef(3)]),
        instruction(Op::EntryPoint, None, None, vec![SpvOperand::ExecutionModel(ExecutionModel::Vertex), SpvOperand::IdRef(3), text("other"), SpvOperand::IdRef(3)]),
        instruction(Op::EntryPoint, None, None, vec![SpvOperand::ExecutionModel(ExecutionModel::Geometry), SpvOperand::IdRef(3), text("none")]),
    ];
    module
}

#[test]
fn lookups_by_id() {
    let module = sample();
    assert_eq!(find_instruction_with_id(2, &module), Some(&module.types_global_values[1]));
    assert_eq!(find_instruction_with_id(3, &module), Some(&module.types_global_values[2]));
    assert_eq!(find_instruction_with_id(4, &module), None);
    assert_eq!(find_duplicate_id(&module), None);
    let mut twice = sample();
    twice.types_global_values.push(instruction(Op::TypeFloat, None, Some(2), vec![SpvOperand::LiteralBit32(32)]));
    assert_eq!(find_duplicate_id(&twice), Some(2));
    assert_eq!(find_instruction_with_id(2, &twice), Some(&twice.types_global_values[1]));
}

#[test]
fn lookups_of_decorations_and_names() {
    let module = sample();
    assert_eq!(find_decoration(&module, 3, Decoration::Location), Some(4));
    assert_eq!(find_decoration(&module, 3, Decoration::Binding), None);
    assert_eq!(find_decoration(&module, 8, Decoration::Binding), Some(2));
    assert!(has_decoration(&module, 1, Decoration::BuiltIn));
    assert!(!has_decoration(&module, 3, Decoration::BuiltIn));
    assert!(has_decoration(&module, 8, Decoration::Binding));
    assert_eq!(find_member_offset(&module, 7, 1), Some(16));
    assert_eq!(find_member_offset(&module, 7, 0), None);
    assert_eq!(find_name_for_id(3, &module), Some("in.position".to_string()));
    assert_eq!(find_name_for_id(1, &module), None);
    assert_eq!(find_member_name(7, 1, &module), Some("color".to_string()));
    assert_eq!(find_member_name(7, 2, &module), None);
}

#[test]
fn stages_are_listed_once_in_order() {
    let module = sample();
    assert_eq!(
        variable_execution_models(3, &module),
        vec![ExecutionModel::Vertex, ExecutionModel::Fragment]
    );
    assert_eq!(variable_execution_models(8, &module), vec![ExecutionModel::Fragment]);
    assert_eq!(variable_execution_models(10, &module), Vec::new());
}

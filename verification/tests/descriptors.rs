//! Tests of descriptor bindings: classification, stages and merging.

use spirv_bindgen::components::descriptors::merge_bindings;
use spirv_bindgen::components::{DescriptorBinding, DescriptorSets};
use spirv_bindgen::module::{
    Decoration, Dim, ExecutionModel, Op, SpvInstruction, SpvModule, SpvOperand, StorageClass,
};
use spirv_bindgen::types::DescriptorType;

const POINTEE: u32 = 10;
const POINTER: u32 = 11;
const VARIABLE: u32 = 12;

fn instruction(opcode: Op, result_type: Option<u32>, result_id: Option<u32>, operands: Vec<SpvOperand>) -> SpvInstruction {
    SpvInstruction::new(opcode, result_type, result_id, operands)
}

fn decorate(target: u32, decoration: Decoration, values: Vec<u32>) -> SpvInstruction {
    let mut operands = vec![SpvOperand::IdRef(target), SpvOperand::Decoration(decoration)];
    operands.extend(values.into_iter().map(SpvOperand::LiteralBit32));
    instruction(Op::Decorate, None, None, operands)
}

fn image(dim: Dim, sampled: u32) -> SpvInstruction {
    instruction(
        Op::TypeImage,
        None,
        Some(POINTEE),
        vec![
            SpvOperand::IdRef(1),
            SpvOperand::Dim(dim),
            SpvOperand::LiteralBit32(0),
            SpvOperand::LiteralBit32(0),
            SpvOperand::LiteralBit32(0),
            SpvOperand::LiteralBit32(sampled),
            SpvOperand::Other,
        ],
    )
}

fn pointee(opcode: Op) -> SpvInstruction {
    instruction(opcode, None, Some(POINTEE), Vec::new())
}

fn variable_of(pointee: SpvInstruction, class: StorageClass, annotations: Vec<SpvInstruction>) -> SpvModule {
    let mut module = SpvModule::new();
    module.types_global_values = vec![
        instruction(Op::TypeFloat, None, Some(1), vec![SpvOperand::LiteralBit32(32)]),
        pointee,
        instruction(Op::TypePointer, None, Some(POINTER), vec![SpvOperand::StorageClass(class), SpvOperand::IdRef(POINTEE)]),
        instruction(Op::Variable, Some(POINTER), Some(VARIABLE), vec![SpvOperand::StorageClass(class)]),
    ];
    module.annotations = annotations;
    module
}

fn classify(pointee: SpvInstruction, class: StorageClass, annotations: Vec<SpvInstruction>) -> Option<DescriptorType> {
    let module = variable_of(pointee, class, annotations);
    DescriptorType::from_instruction(&module.types_global_values[3], &module)
}

const UNIFORM_CONSTANT: StorageClass = StorageClass::Other(0);
const UNIFORM: StorageClass = StorageClass::Other(2);

#[test]
fn sampler_is_a_sampler() {
    assert_eq!(classify(pointee(Op::TypeSampler), UNIFORM_CONSTANT, Vec::new()), Some(DescriptorType::Sampler));
}

#[test]
fn sampled_image_type_is_a_combined_image_sampler() {
    let sampled = instruction(Op::TypeSampledImage, None, Some(POINTEE), vec![SpvOperand::IdRef(1)]);
    assert_eq!(classify(sampled, UNIFORM_CONSTANT, Vec::new()), Some(DescriptorType::CombinedImageSampler));
}

#[test]
fn buffer_image_is_a_texel_buffer() {
    assert_eq!(classify(image(Dim::DimBuffer, 1), UNIFORM_CONSTANT, Vec::new()), Some(DescriptorType::UniformTexelBuffer));
    assert_eq!(classify(image(Dim::DimBuffer, 2), UNIFORM_CONSTANT, Vec::new()), Some(DescriptorType::StorageTexelBuffer));
    assert_eq!(classify(image(Dim::DimBuffer, 0), UNIFORM_CONSTANT, Vec::new()), None);
}

#[test]
fn subpass_image_is_an_input_attachment() {
    assert_eq!(classify(image(Dim::DimSubpassData, 2), UNIFORM_CONSTANT, Vec::new()), Some(DescriptorType::InputAttachment));
    assert_eq!(classify(image(Dim::DimSubpassData, 0), UNIFORM_CONSTANT, Vec::new()), Some(DescriptorType::InputAttachment));
}

#[test]
fn other_image_is_sampled_or_storage() {
    assert_eq!(classify(image(Dim::Other(1), 1), UNIFORM_CONSTANT, Vec::new()), Some(DescriptorType::SampledImage));
    assert_eq!(classify(image(Dim::Other(1), 2), UNIFORM_CONSTANT, Vec::new()), Some(DescriptorType::StorageImage));
    assert_eq!(classify(image(Dim::Other(3), 0), UNIFORM_CONSTANT, Vec::new()), None);
    let short = instruction(Op::TypeImage, None, Some(POINTEE), vec![SpvOperand::IdRef(1), SpvOperand::Dim(Dim::Other(1))]);
    assert_eq!(classify(short, UNIFORM_CONSTANT, Vec::new()), None);
}

#[test]
fn structure_is_a_storage_or_uniform_buffer() {
    assert_eq!(classify(pointee(Op::TypeStruct), StorageClass::StorageBuffer, Vec::new()), Some(DescriptorType::StorageBuffer));
    assert_eq!(
        classify(pointee(Op::TypeStruct), UNIFORM, vec![decorate(POINTEE, Decoration::BufferBlock, Vec::new())]),
        Some(DescriptorType::StorageBuffer)
    );
    assert_eq!(classify(pointee(Op::TypeStruct), UNIFORM, Vec::new()), Some(DescriptorType::UniformBuffer));
    assert_eq!(
        classify(pointee(Op::TypeStruct), UNIFORM, vec![decorate(VARIABLE, Decoration::BufferBlock, Vec::new())]),
        Some(DescriptorType::UniformBuffer)
    );
}

#[test]
fn acceleration_structure_is_one() {
    assert_eq!(
        classify(pointee(Op::TypeAccelerationStructureKHR), UNIFORM_CONSTANT, Vec::new()),
        Some(DescriptorType::AccelerationStructure)
    );
}

#[test]
fn other_shapes_are_no_descriptors() {
    assert_eq!(classify(pointee(Op::TypeVector), UNIFORM, Vec::new()), None);
    assert_eq!(classify(pointee(Op::Other(19)), UNIFORM, Vec::new()), None);
    let module = variable_of(pointee(Op::TypeSampler), UNIFORM_CONSTANT, Vec::new());
    assert_eq!(DescriptorType::from_instruction(&module.types_global_values[2], &module), None);
    let loose = instruction(Op::Variable, Some(99), Some(VARIABLE), vec![SpvOperand::StorageClass(UNIFORM)]);
    assert_eq!(DescriptorType::from_instruction(&loose, &module), None);
    let classless = instruction(Op::Variable, Some(POINTER), Some(VARIABLE), Vec::new());
    assert_eq!(DescriptorType::from_instruction(&classless, &module), None);
}

fn binding(set: u32, binding: u32, binding_type: DescriptorType, stages: Vec<ExecutionModel>) -> DescriptorBinding {
    DescriptorBinding { set, binding, binding_type, stages }
}

#[test]
fn bindings_of_one_number_merge_into_one() {
    let bindings = vec![
        binding(0, 2, DescriptorType::UniformBuffer, vec![ExecutionModel::Vertex]),
        binding(0, 2, DescriptorType::UniformBuffer, vec![ExecutionModel::Fragment, ExecutionModel::Vertex]),
        binding(0, 2, DescriptorType::UniformBuffer, vec![ExecutionModel::Geometry]),
    ];
    assert_eq!(
        merge_bindings(&bindings),
        vec![binding(
            0,
            2,
            DescriptorType::UniformBuffer,
            vec![ExecutionModel::Vertex, ExecutionModel::Fragment, ExecutionModel::Geometry]
        )]
    );
}

#[test]
fn merging_keeps_first_occurrences_in_order() {
    let bindings = vec![
        binding(1, 4, DescriptorType::Sampler, vec![ExecutionModel::Fragment]),
        binding(1, 0, DescriptorType::StorageBuffer, vec![ExecutionModel::GLCompute, ExecutionModel::GLCompute]),
        binding(1, 4, DescriptorType::SampledImage, vec![ExecutionModel::Vertex]),
        binding(1, 7, DescriptorType::StorageImage, Vec::new()),
        binding(1, 0, DescriptorType::StorageBuffer, vec![ExecutionModel::Fragment]),
    ];
    let merged = merge_bindings(&bindings);
    assert_eq!(
        merged,
        vec![
            binding(1, 4, DescriptorType::Sampler, vec![ExecutionModel::Fragment, ExecutionModel::Vertex]),
            binding(1, 0, DescriptorType::StorageBuffer, vec![ExecutionModel::GLCompute, ExecutionModel::Fragment]),
            binding(1, 7, DescriptorType::StorageImage, Vec::new()),
        ]
    );
    assert_eq!(merge_bindings(&merged), merged);
    let mut doubled = merge_bindings(&bindings);
    doubled.extend(merge_bindings(&bindings));
    assert_eq!(merge_bindings(&doubled), merged);
    assert_eq!(merge_bindings(&Vec::new()), Vec::new());
}

fn resource(module: &mut SpvModule, base: u32, class: StorageClass, set: u32, number: u32) -> u32 {
    module.types_global_values.push(instruction(Op::TypeStruct, None, Some(base), Vec::new()));
    module.types_global_values.push(instruction(
        Op::TypePointer,
        None,
        Some(base + 1),
        vec![SpvOperand::StorageClass(class), SpvOperand::IdRef(base)],
    ));
    module.types_global_values.push(instruction(Op::Variable, Some(base + 1), Some(base + 2), vec![SpvOperand::StorageClass(class)]));
    module.annotations.push(decorate(base + 2, Decoration::DescriptorSet, vec![set]));
    module.annotations.push(decorate(base + 2, Decoration::Binding, vec![number]));
    base + 2
}

fn entry_point(model: ExecutionModel, id: u32, name: &str, interface: Vec<u32>) -> SpvInstruction {
    let mut operands = vec![
        SpvOperand::ExecutionModel(model),
        SpvOperand::IdRef(id),
        SpvOperand::LiteralString(name.to_string()),
    ];
    operands.extend(interface.into_iter().map(SpvOperand::IdRef));
    instruction(Op::EntryPoint, None, None, operands)
}

#[test]
fn binding_is_read_from_its_set_decoration() {
    let mut module = SpvModule::new();
    let variable = resource(&mut module, 20, StorageClass::StorageBuffer, 3, 5);
    module.entry_points.push(entry_point(ExecutionModel::Fragment, 1, "fs", vec![variable]));
    module.entry_points.push(entry_point(ExecutionModel::Vertex, 2, "vs", vec![7, variable]));
    module.entry_points.push(entry_point(ExecutionModel::Fragment, 3, "fs2", vec![variable]));
    module.entry_points.push(entry_point(ExecutionModel::Geometry, 4, "gs", vec![7]));
    assert_eq!(
        DescriptorBinding::from_instruction(&module.annotations[0], &module),
        Some(binding(3, 5, DescriptorType::StorageBuffer, vec![ExecutionModel::Fragment, ExecutionModel::Vertex]))
    );
    assert_eq!(DescriptorBinding::from_instruction(&module.annotations[1], &module), None);
    let unbound = decorate(40, Decoration::DescriptorSet, vec![0]);
    assert_eq!(DescriptorBinding::from_instruction(&unbound, &module), None);
}

#[test]
fn variable_without_binding_or_kind_is_left_out() {
    let mut module = SpvModule::new();
    let variable = resource(&mut module, 20, UNIFORM, 0, 0);
    module.annotations.remove(1);
    assert_eq!(DescriptorBinding::from_instruction(&module.annotations[0], &module), None);
    assert_eq!(DescriptorSets::from_spirv(&module), None);
    let mut module = SpvModule::new();
    resource(&mut module, 20, UNIFORM, 0, 0);
    module.types_global_values[0] = instruction(Op::TypeVector, None, Some(20), Vec::new());
    assert_eq!(DescriptorSets::from_spirv(&module), None);
    assert_eq!(variable, 22);
}

#[test]
fn sets_hold_their_merged_bindings() {
    let mut module = SpvModule::new();
    let first = resource(&mut module, 20, UNIFORM, 2, 1);
    let second = resource(&mut module, 30, StorageClass::StorageBuffer, 0, 0);
    let third = resource(&mut module, 40, UNIFORM, 2, 1);
    let fourth = resource(&mut module, 50, UNIFORM, 2, 0);
    module.entry_points.push(entry_point(ExecutionModel::Vertex, 1, "vs", vec![first, second]));
    module.entry_points.push(entry_point(ExecutionModel::Fragment, 2, "fs", vec![third, fourth, second]));
    let sets = DescriptorSets::from_spirv(&module).unwrap();
    assert_eq!(sets.highest_set, 2);
    assert_eq!(sets.sets.len(), 3);
    assert_eq!(
        sets.get(0),
        Some(&vec![binding(
            0,
            0,
            DescriptorType::StorageBuffer,
            vec![ExecutionModel::Vertex, ExecutionModel::Fragment]
        )])
    );
    assert_eq!(sets.get(1), Some(&Vec::new()));
    assert_eq!(sets.get(3), None);
    assert_eq!(
        sets.get(2),
        Some(&vec![
            binding(2, 1, DescriptorType::UniformBuffer, vec![ExecutionModel::Vertex, ExecutionModel::Fragment]),
            binding(2, 0, DescriptorType::UniformBuffer, vec![ExecutionModel::Fragment]),
        ])
    );
}

#[test]
fn module_without_bindings_has_no_sets() {
    assert_eq!(DescriptorSets::from_spirv(&SpvModule::new()), None);
}

#[test]
fn sets_below_the_highest_are_present_and_empty() {
    let mut module = SpvModule::new();
    let variable = resource(&mut module, 20, UNIFORM, 3, 1);
    module.entry_points.push(entry_point(ExecutionModel::GLCompute, 1, "main", vec![variable]));
    let sets = DescriptorSets::from_spirv(&module).unwrap();
    assert_eq!(sets.highest_set, 3);
    assert_eq!(sets.sets.len(), 4);
    for set in 0..3 {
        assert_eq!(sets.get(set), Some(&Vec::new()));
    }
    assert_eq!(
        sets.get(3),
        Some(&vec![binding(3, 1, DescriptorType::UniformBuffer, vec![ExecutionModel::GLCompute])])
    );
    assert_eq!(sets.get(4), None);
}

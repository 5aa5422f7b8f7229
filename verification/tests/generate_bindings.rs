//! Tests for reflecting binaries.

use rspirv::binary::Assemble;
use rspirv::dr::{Builder, Operand};
use rspirv::spirv;
use spirv_bindgen::components::{
    DescriptorBinding, Dispatch, EntryPoint, InputRate, SpecializationMapEntry,
};
use spirv_bindgen::decode::{decode, DecodeError};
use spirv_bindgen::frame::{check_frame, read_word, FrameFault};
use spirv_bindgen::module::{ExecutionModel, Op, SpvOperand, StorageClass};
use spirv_bindgen::types::{DescriptorType, Layout};
use spirv_bindgen::{Error, Spirv};

fn start() -> Builder {
    let mut builder = Builder::new();
    builder.set_version(1, 3);
    builder.capability(spirv::Capability::Shader);
    builder.memory_model(spirv::AddressingModel::Logical, spirv::MemoryModel::GLSL450);
    builder
}

fn function(builder: &mut Builder) -> u32 {
    let void = builder.type_void();
    let signature = builder.type_function(void, Vec::new());
    let id = builder.begin_function(void, None, spirv::FunctionControl::NONE, signature).unwrap();
    builder.begin_block(None).unwrap();
    builder.ret().unwrap();
    builder.end_function().unwrap();
    id
}

fn bytes(builder: Builder) -> Vec<u8> {
    builder.module().assemble().iter().flat_map(|word| word.to_le_bytes()).collect()
}

fn literal(value: u32) -> Vec<Operand> {
    vec![Operand::LiteralBit32(value)]
}

fn buffer(builder: &mut Builder, class: spirv::StorageClass, set: u32, binding: u32, name: &str) -> u32 {
    let uint = builder.type_int(32, 0);
    let block = builder.type_struct_id(None, vec![uint]);
    builder.name(block, name);
    builder.member_decorate(block, 0, spirv::Decoration::Offset, literal(0));
    let pointer = builder.type_pointer(None, class, block);
    let variable = builder.variable(pointer, None, class, None);
    builder.decorate(variable, spirv::Decoration::DescriptorSet, literal(set));
    builder.decorate(variable, spirv::Decoration::Binding, literal(binding));
    variable
}

#[test]
fn generate_bindings_spec_constants() {
    let mut builder = start();
    let float = builder.type_float(32, None);
    let char = builder.type_int(8, 1);
    let uint = builder.type_int(32, 0);
    let double = builder.type_float(64, None);
    let byte = builder.type_int(8, 0);
    let a = builder.spec_constant_bit32(float, 0x3f800000);
    let b = builder.spec_constant_bit32(char, 2);
    let c = builder.spec_constant_bit32(uint, 3);
    let d = builder.spec_constant_bit64(double, 0x4010000000000000);
    let e = builder.spec_constant_bit32(byte, 5);
    for (constant, id, name) in [(e, 4, "name_e"), (a, 0, "name_a"), (d, 3, "name_d"), (b, 1, "name_b"), (c, 2, "name_c")] {
        builder.decorate(constant, spirv::Decoration::SpecId, literal(id));
        builder.name(constant, name);
    }
    let main = function(&mut builder);
    builder.entry_point(spirv::ExecutionModel::GLCompute, main, "main", Vec::<u32>::new());
    builder.execution_mode(main, spirv::ExecutionMode::LocalSize, vec![1, 1, 1]);
    let spirv = Spirv::try_from_bytes(bytes(builder).as_slice()).unwrap();
    println!("{:?}", spirv);

    let constants = spirv.specialization_constants.unwrap();
    assert_eq!(constants.structure.layout, Layout { size: 32, align: 8 });
    let names: Vec<&str> = constants.structure.members.iter().map(|member| member.name.as_str()).collect();
    assert_eq!(
        names,
        vec!["name_a", "name_b", "_padding_0", "name_c", "_padding_1", "name_d", "name_e", "_padding_2"]
    );
    assert_eq!(
        constants.specialization_map(),
        vec![
            SpecializationMapEntry { constant_id: 0, offset: 0, size: 4 },
            SpecializationMapEntry { constant_id: 1, offset: 4, size: 1 },
            SpecializationMapEntry { constant_id: 2, offset: 8, size: 4 },
            SpecializationMapEntry { constant_id: 3, offset: 16, size: 8 },
            SpecializationMapEntry { constant_id: 4, offset: 24, size: 1 },
        ]
    );
    assert_eq!(
        spirv.entry_points.unwrap().entry_points,
        vec![EntryPoint {
            name: "main".to_string(),
            execution_model: ExecutionModel::GLCompute,
            dispatch: Some(Dispatch { x: 1, y: 1, z: 1 }),
            vertex_inputs: None,
        }]
    );
    assert_eq!(spirv.push_constants, None);
    assert_eq!(spirv.descriptor_sets, None);
}

#[test]
fn generate_bindings_render_capture() {
    let mut builder = start();
    let float = builder.type_float(32, None);
    let image = builder.type_image(float, spirv::Dim::Dim2D, 0, 0, 0, 1, spirv::ImageFormat::Unknown, None);
    let sampled = builder.type_sampled_image(image);
    let pointer = builder.type_pointer(None, spirv::StorageClass::UniformConstant, sampled);
    let texture = builder.variable(pointer, None, spirv::StorageClass::UniformConstant, None);
    builder.decorate(texture, spirv::Decoration::DescriptorSet, literal(1));
    builder.decorate(texture, spirv::Decoration::Binding, literal(0));
    let camera = buffer(&mut builder, spirv::StorageClass::Uniform, 0, 0, "Camera");
    let vertex = function(&mut builder);
    let fragment = function(&mut builder);
    builder.entry_point(spirv::ExecutionModel::Vertex, vertex, "vertex_main", vec![camera]);
    builder.entry_point(spirv::ExecutionModel::Fragment, fragment, "fragment_main", vec![texture, camera]);
    builder.execution_mode(fragment, spirv::ExecutionMode::OriginUpperLeft, Vec::<u32>::new());
    let spirv = Spirv::try_from_bytes(bytes(builder).as_slice()).unwrap();
    println!("{:?}", spirv);

    let sets = spirv.descriptor_sets.unwrap();
    assert_eq!(sets.highest_set, 1);
    assert_eq!(
        sets.get(0),
        Some(&vec![DescriptorBinding {
            set: 0,
            binding: 0,
            binding_type: DescriptorType::UniformBuffer,
            stages: vec![ExecutionModel::Vertex, ExecutionModel::Fragment],
        }])
    );
    assert_eq!(
        sets.get(1),
        Some(&vec![DescriptorBinding {
            set: 1,
            binding: 0,
            binding_type: DescriptorType::CombinedImageSampler,
            stages: vec![ExecutionModel::Fragment],
        }])
    );
    let entry_points = spirv.entry_points.unwrap().entry_points;
    assert_eq!(entry_points.len(), 2);
    assert_eq!(entry_points[0].name, "vertex_main");
    assert_eq!(entry_points[0].vertex_inputs, None);
    assert_eq!(entry_points[1].execution_model, ExecutionModel::Fragment);
    assert_eq!(entry_points[1].dispatch, None);
}

#[test]
fn generate_bindings_render_line() {
    let mut builder = start();
    let float = builder.type_float(32, None);
    let vec2 = builder.type_vector(float, 2);
    let vec4 = builder.type_vector(float, 4);
    let mut inputs = Vec::new();
    for (kind, location, name) in [(vec4, 1, "in.color"), (vec2, 0, "in.position"), (float, 2, "in.width")] {
        let pointer = builder.type_pointer(None, spirv::StorageClass::Input, kind);
        let variable = builder.variable(pointer, None, spirv::StorageClass::Input, None);
        builder.decorate(variable, spirv::Decoration::Location, literal(location));
        builder.name(variable, name);
        inputs.push(variable);
    }
    let vec4_out = builder.type_pointer(None, spirv::StorageClass::Output, vec4);
    let position = builder.variable(vec4_out, None, spirv::StorageClass::Output, None);
    builder.decorate(position, spirv::Decoration::BuiltIn, vec![Operand::BuiltIn(spirv::BuiltIn::Position)]);
    inputs.push(position);
    let mat = builder.type_struct_id(None, vec![vec4, vec4, float]);
    builder.name(mat, "Transform_std430");
    builder.member_name(mat, 0, "row0");
    builder.member_name(mat, 1, "row1");
    builder.member_decorate(mat, 0, spirv::Decoration::Offset, literal(0));
    builder.member_decorate(mat, 1, spirv::Decoration::Offset, literal(16));
    builder.member_decorate(mat, 2, spirv::Decoration::Offset, literal(40));
    let push_pointer = builder.type_pointer(None, spirv::StorageClass::PushConstant, mat);
    let push = builder.variable(push_pointer, None, spirv::StorageClass::PushConstant, None);
    inputs.push(push);
    let main = function(&mut builder);
    builder.entry_point(spirv::ExecutionModel::Vertex, main, "main", inputs);
    let spirv = Spirv::try_from_bytes(bytes(builder).as_slice()).unwrap();
    println!("{:?}", spirv);

    let entry_points = spirv.entry_points.unwrap().entry_points;
    let group = entry_points[0].vertex_inputs.as_ref().unwrap().vertex_inputs.as_ref().unwrap();
    assert_eq!(group.input_rate, InputRate::Vertex);
    assert_eq!(group.binding, 0);
    let members: Vec<(&str, u32, Option<u32>)> =
        group.structure.members.iter().map(|member| (member.name.as_str(), member.offset, member.location)).collect();
    assert_eq!(members, vec![("position", 0, Some(0)), ("color", 8, Some(1)), ("width", 24, Some(2))]);
    assert_eq!(group.structure.layout, Layout { size: 28, align: 4 });
    assert_eq!(entry_points[0].vertex_inputs.as_ref().unwrap().instance_inputs, None);

    let blocks = spirv.push_constants.unwrap().push_constants;
    assert_eq!(blocks.len(), 1);
    assert_eq!(blocks[0].stages, vec![ExecutionModel::Vertex]);
    assert_eq!(blocks[0].structure.name, "Transform");
    let members: Vec<(&str, u32)> =
        blocks[0].structure.members.iter().map(|member| (member.name.as_str(), member.offset)).collect();
    assert_eq!(members, vec![("row0", 0), ("row1", 16), ("_padding_0", 32), ("field_2", 40)]);
    assert_eq!(blocks[0].structure.layout, Layout { size: 44, align: 4 });
    assert_eq!(spirv.descriptor_sets, None);
    assert_eq!(spirv.specialization_constants, None);
}

#[test]
fn generate_bindings_maximum_reduction() {
    let mut builder = start();
    let values = buffer(&mut builder, spirv::StorageClass::StorageBuffer, 0, 0, "Values");
    let main = function(&mut builder);
    builder.entry_point(spirv::ExecutionModel::GLCompute, main, "main", vec![values]);
    builder.execution_mode(main, spirv::ExecutionMode::LocalSize, vec![8, 4, 1]);
    let spirv = Spirv::try_from_bytes(bytes(builder).as_slice()).unwrap();
    println!("{:?}", spirv);

    assert_eq!(
        spirv.entry_points.unwrap().entry_points,
        vec![EntryPoint {
            name: "main".to_string(),
            execution_model: ExecutionModel::GLCompute,
            dispatch: Some(Dispatch { x: 8, y: 4, z: 1 }),
            vertex_inputs: None,
        }]
    );
    let sets = spirv.descriptor_sets.unwrap();
    assert_eq!(sets.sets.len(), 1);
    assert_eq!(
        sets.get(0),
        Some(&vec![DescriptorBinding {
            set: 0,
            binding: 0,
            binding_type: DescriptorType::StorageBuffer,
            stages: vec![ExecutionModel::GLCompute],
        }])
    );
    assert_eq!(spirv.push_constants, None);
    assert_eq!(spirv.specialization_constants, None);
}

#[test]
fn decoded_module_holds_the_sections_of_the_binary() {
    let mut builder = start();
    let values = buffer(&mut builder, spirv::StorageClass::StorageBuffer, 2, 7, "Values");
    let main = function(&mut builder);
    builder.entry_point(spirv::ExecutionModel::GLCompute, main, "main", vec![values]);
    builder.execution_mode(main, spirv::ExecutionMode::LocalSize, vec![2, 3, 4]);
    let module = decode(bytes(builder).as_slice()).unwrap();
    assert_eq!(module.entry_points.len(), 1);
    assert_eq!(module.entry_points[0].opcode, Op::EntryPoint);
    assert_eq!(
        module.entry_points[0].operands,
        vec![
            SpvOperand::ExecutionModel(ExecutionModel::GLCompute),
            SpvOperand::IdRef(main),
            SpvOperand::LiteralString("main".to_string()),
            SpvOperand::IdRef(values),
        ]
    );
    assert_eq!(module.execution_modes.len(), 1);
    assert_eq!(module.execution_modes[0].operands.len(), 5);
    assert_eq!(module.annotations.len(), 3);
    assert_eq!(module.annotations[0].opcode, Op::MemberDecorate);
    assert_eq!(module.debug_names.len(), 1);
    assert_eq!(module.debug_names[0].opcode, Op::Name);
    let variable = module.types_global_values.iter().find(|found| found.result_id == Some(values)).unwrap();
    assert_eq!(variable.opcode, Op::Variable);
    assert_eq!(variable.operands, vec![SpvOperand::StorageClass(StorageClass::StorageBuffer)]);
    assert!(variable.result_type.is_some());
    let opcodes: Vec<Op> = module.types_global_values.iter().map(|found| found.opcode).collect();
    assert!(opcodes.contains(&Op::TypeInt));
    assert!(opcodes.contains(&Op::TypeStruct));
    assert!(opcodes.contains(&Op::TypePointer));
    assert!(opcodes.contains(&Op::Other(19)));
}

#[test]
fn binaries_that_cannot_be_decoded_are_failures() {
    assert_eq!(Spirv::try_from_bytes(&[]), Err(Error::Decode(DecodeError::HeaderIncomplete)));
    assert_eq!(Spirv::try_from_bytes(&[1, 2, 3]), Err(Error::Decode(DecodeError::HeaderIncomplete)));
    assert_eq!(Spirv::try_from_bytes(&[0u8; 20]), Err(Error::Decode(DecodeError::HeaderIncorrect)));
    let mut swapped = vec![0x07, 0x23, 0x02, 0x03];
    swapped.extend([0u8; 16]);
    assert_eq!(Spirv::try_from_bytes(&swapped), Err(Error::Decode(DecodeError::EndiannessUnsupported)));
    let mut header = vec![0x03, 0x02, 0x23, 0x07];
    header.extend([0u8; 16]);
    assert_eq!(
        Spirv::try_from_bytes(&header),
        Ok(Spirv { specialization_constants: None, entry_points: None, push_constants: None, descriptor_sets: None })
    );
    let mut zero = header.clone();
    zero.extend([0u8; 4]);
    assert_eq!(Spirv::try_from_bytes(&zero), Err(Error::Decode(DecodeError::WordCountZero)));
    let mut unknown = header.clone();
    unknown.extend([0xff, 0xff, 0x01, 0x00]);
    assert_eq!(Spirv::try_from_bytes(&unknown), Err(Error::Decode(DecodeError::OpcodeUnknown)));
    let mut short = header.clone();
    short.extend([0x15, 0x00, 0x02, 0x00, 0x01, 0x00, 0x00, 0x00]);
    assert_eq!(Spirv::try_from_bytes(&short), Err(Error::Decode(DecodeError::OperandExpected)));
    let mut reflected = header.clone();
    reflected.extend([0x15, 0x00, 0x04, 0x00, 0x01, 0x00, 0x00, 0x00, 0x20, 0x00, 0x00, 0x00, 0x00, 0x00, 0x00, 0x00]);
    reflected.extend([0x16, 0x00, 0x03, 0x00, 0x01, 0x00, 0x00, 0x00, 0x20, 0x00, 0x00, 0x00]);
    assert_eq!(
        Spirv::try_from_bytes(&reflected),
        Err(Error::Reflect(spirv_bindgen::error::ReflectError::DuplicateId { id: 1 }))
    );
}

fn words(instructions: Vec<Vec<u32>>) -> Vec<u8> {
    let mut all: Vec<u32> = vec![0x07230203, 0x00010300, 0, 100, 0];
    for instruction in instructions {
        all.extend(instruction);
    }
    all.iter().flat_map(|word| word.to_le_bytes()).collect()
}

fn head(opcode: u32, count: u32) -> u32 {
    (count << 16) | opcode
}

#[test]
fn malformed_instructions_are_decoding_failures() {
    let extra = words(vec![vec![head(21, 5), 1, 32, 0, 7]]);
    assert_eq!(Spirv::try_from_bytes(&extra), Err(Error::Decode(DecodeError::OperandExceeded)));
    let detached = words(vec![vec![head(56, 1)]]);
    assert_eq!(Spirv::try_from_bytes(&detached), Err(Error::Decode(DecodeError::Rejected)));
    let odd = words(vec![vec![head(21, 4), 1, 24, 0], vec![head(43, 4), 1, 2, 5]]);
    assert_eq!(Spirv::try_from_bytes(&odd), Err(Error::Decode(DecodeError::TypeUnsupported)));
    let operation = words(vec![vec![head(21, 4), 1, 32, 0], vec![head(52, 4), 1, 2, 0xffff]]);
    assert_eq!(
        Spirv::try_from_bytes(&operation),
        Err(Error::Decode(DecodeError::SpecConstantOpIntegerIncorrect))
    );
    let model = words(vec![vec![head(14, 3), 99, 1]]);
    assert_eq!(Spirv::try_from_bytes(&model), Err(Error::Decode(DecodeError::OperandError)));
}

#[test]
fn instructions_beyond_the_end_are_not_decoded() {
    let string = words(vec![vec![head(4, 2)]]);
    assert_eq!(check_frame(&string), Some(FrameFault::Truncated { offset: 20 }));
    assert_eq!(
        Spirv::try_from_bytes(&string),
        Err(Error::Decode(DecodeError::Unframed(FrameFault::Truncated { offset: 20 })))
    );
    let later = words(vec![vec![head(21, 4), 1, 32, 0], vec![head(5, 9), 1, 0x6e69616d]]);
    assert_eq!(
        decode(&later).err(),
        Some(DecodeError::Unframed(FrameFault::Truncated { offset: 36 }))
    );
    let mut ragged = words(vec![vec![head(21, 4), 1, 32, 0], vec![head(5, 3), 1, 0x6e69]]);
    assert_eq!(check_frame(&ragged), None);
    ragged.pop();
    assert_eq!(check_frame(&ragged), Some(FrameFault::Truncated { offset: 36 }));
    let mut trailing = words(vec![vec![head(21, 4), 1, 32, 0]]);
    trailing.extend([1, 2, 3]);
    assert_eq!(check_frame(&trailing), None);
    assert_eq!(decode(&trailing).unwrap().types_global_values.len(), 1);
}

#[test]
fn operations_on_unsuitable_instructions_are_not_decoded() {
    for named in [43, 50, 52, 251] {
        let operation = words(vec![vec![head(21, 4), 1, 32, 0], vec![head(52, 6), 1, 2, named, 3, 4]]);
        assert_eq!(check_frame(&operation), Some(FrameFault::UnsuitableOperation { offset: 36 }));
        assert_eq!(
            Spirv::try_from_bytes(&operation),
            Err(Error::Decode(DecodeError::Unframed(FrameFault::UnsuitableOperation { offset: 36 })))
        );
    }
    let addition = words(vec![vec![head(21, 4), 1, 32, 0], vec![head(52, 6), 1, 2, 128, 3, 4]]);
    assert_eq!(check_frame(&addition), None);
    let module = decode(&addition).unwrap();
    assert_eq!(module.types_global_values.len(), 2);
    assert_eq!(module.types_global_values[1].opcode, Op::Other(52));
    let short = words(vec![vec![head(52, 3), 1, 2]]);
    assert_eq!(check_frame(&short), None);
    assert_eq!(decode(&short).err(), Some(DecodeError::OperandExpected));
}

#[test]
fn binaries_without_a_header_have_no_frame_fault() {
    assert_eq!(check_frame(&[]), None);
    assert_eq!(check_frame(&[0xff; 64]), None);
    let mut other = vec![0u8; 20];
    other.extend([4, 0, 2, 0]);
    assert_eq!(check_frame(&other), None);
    assert_eq!(read_word(&[0x03, 0x02, 0x23, 0x07], 0), 0x07230203);
    assert_eq!(read_word(&[0, 1, 2, 3, 4], 1), 0x04030201);
}

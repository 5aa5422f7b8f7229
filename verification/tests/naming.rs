//! Tests of rendered names and formats.

use spirv_bindgen::components::entry_points::vertex_inputs::vertex_input_group::{format_name, VertexAttribute};
use spirv_bindgen::components::{EntryPoint, InputRate, VertexInput, VertexInputGroup};
use spirv_bindgen::module::ExecutionModel;
use spirv_bindgen::naming::module_name;
use spirv_bindgen::types::{Array, DescriptorType, Layout, Member, Scalar, SizedType, Structure, Type, Vector};
use spirv_bindgen::utilities::execution_model_to_flag;

fn entry_point(name: &str, execution_model: ExecutionModel) -> EntryPoint {
    EntryPoint { name: name.to_string(), execution_model, dispatch: None, vertex_inputs: None }
}

fn measure<T: SizedType>(value: &T) -> (usize, usize) {
    (value.size(), value.alignment())
}

#[test]
fn sizes_through_the_trait() {
    assert_eq!(measure(&Scalar::I16), (2, 2));
    assert_eq!(measure(&Vector { component_type: Scalar::F64, component_count: 3 }), (24, 8));
    assert_eq!(measure(&Array::new(Type::Scalar(Scalar::U32), 6)), (24, 4));
    assert_eq!(measure(&Type::Array(Array::new(Type::Scalar(Scalar::U8), 5))), (5, 1));
    let structure = Structure { name: "S".to_string(), members: Vec::new(), layout: Layout { size: 48, align: 16 } };
    assert_eq!(measure(&structure), (48, 16));
    assert_eq!(measure(&Type::Struct(structure)), (48, 16));
}

#[test]
fn names_change_case() {
    let structure = Structure { name: "camera_data".to_string(), members: Vec::new(), layout: Layout { size: 0, align: 1 } };
    assert_eq!(structure.name_ident(), "CameraData");
    let member = Member::new(Type::Scalar(Scalar::U8), 0, "viewProjection".to_string(), None);
    assert_eq!(member.field_ident(), "view_projection");
    assert_eq!(Member::padding(0, 1, 3).field_ident(), "_padding_3");
}

#[test]
fn entry_point_module_has_the_stage_before_the_name() {
    assert_eq!(entry_point("main", ExecutionModel::GLCompute).module_ident(), "compute_main");
    assert_eq!(entry_point("vertexMain", ExecutionModel::Vertex).module_ident(), "vertex_main");
    assert_eq!(entry_point("shade", ExecutionModel::Fragment).module_ident(), "fragment_shade");
    assert_eq!(entry_point("vertex", ExecutionModel::Vertex).module_ident(), "vertex");
    assert_eq!(entry_point("v", ExecutionModel::Vertex).module_ident(), "vertex_v");
    assert_eq!(entry_point("computeSum", ExecutionModel::GLCompute).module_ident(), "compute_sum");
}

#[test]
fn file_module_is_an_identifier() {
    assert_eq!(module_name("render_line"), Some("render_line".to_string()));
    assert_eq!(module_name("render-line.vert"), Some("render_line_vert".to_string()));
    assert_eq!(module_name("MaximumReduction"), Some("maximum_reduction".to_string()));
    assert_eq!(module_name("a b"), Some("a_b".to_string()));
}

#[test]
fn formats_of_scalars_and_vectors() {
    assert_eq!(Scalar::U8.format_name(), "R8_UINT");
    assert_eq!(Scalar::I16.format_name(), "R16_SINT");
    assert_eq!(Scalar::F32.format_name(), "R32_SFLOAT");
    assert_eq!(Scalar::F64.format_name(), "R64_SFLOAT");
    assert_eq!(Scalar::U64.format_name(), "R64_UINT");
    let vector = |component_type: Scalar, component_count: u32| Vector { component_type, component_count };
    assert_eq!(vector(Scalar::F32, 1).format_name(), Some("R32_SFLOAT".to_string()));
    assert_eq!(vector(Scalar::F32, 2).format_name(), Some("R32G32_SFLOAT".to_string()));
    assert_eq!(vector(Scalar::I32, 3).format_name(), Some("R32G32B32_SINT".to_string()));
    assert_eq!(vector(Scalar::U8, 4).format_name(), Some("R8G8B8A8_UINT".to_string()));
    assert_eq!(vector(Scalar::F64, 4).format_name(), Some("R64G64B64A64_SFLOAT".to_string()));
    assert_eq!(vector(Scalar::F32, 0).format_name(), None);
    assert_eq!(vector(Scalar::F32, 5).format_name(), None);
    assert_eq!(format_name(&Type::Scalar(Scalar::U16)), Some("R16_UINT".to_string()));
    assert_eq!(format_name(&Type::Array(Array::new(Type::Scalar(Scalar::U16), 2))), None);
}

#[test]
fn names_of_rust_types_and_vulkan_constants() {
    assert_eq!(Scalar::U8.rust_type(), "u8");
    assert_eq!(Scalar::I64.rust_type(), "i64");
    assert_eq!(Scalar::F32.rust_type(), "f32");
    assert_eq!(DescriptorType::Sampler.vulkan_name(), "SAMPLER");
    assert_eq!(DescriptorType::StorageBuffer.vulkan_name(), "STORAGE_BUFFER");
    assert_eq!(DescriptorType::AccelerationStructure.vulkan_name(), "ACCELERATION_STRUCTURE_KHR");
    assert_eq!(DescriptorType::InlineUniformBlock.vulkan_name(), "INLINE_UNIFORM_BLOCK_EXT");
    assert_eq!(execution_model_to_flag(&ExecutionModel::GLCompute), Some("COMPUTE"));
    assert_eq!(execution_model_to_flag(&ExecutionModel::RayGenerationNV), Some("RAYGEN_NV"));
    assert_eq!(execution_model_to_flag(&ExecutionModel::Kernel), None);
}

#[test]
fn attributes_stand_at_the_offsets_of_their_members() {
    let inputs = vec![
        VertexInput { location: 0, input_type: Type::Scalar(Scalar::U8), name: "flag".to_string() },
        VertexInput {
            location: 1,
            input_type: Type::Vector(Vector { component_type: Scalar::F32, component_count: 3 }),
            name: "position".to_string(),
        },
        VertexInput {
            location: 2,
            input_type: Type::Array(Array::new(Type::Scalar(Scalar::F32), 2)),
            name: "weights".to_string(),
        },
        VertexInput { location: 3, input_type: Type::Scalar(Scalar::F64), name: "time".to_string() },
    ];
    let group = VertexInputGroup::from_inputs(inputs, "Vertex".to_string(), InputRate::Vertex, 1).unwrap();
    assert_eq!(group.attribute_count(), 4);
    assert_eq!(
        group.attributes(),
        vec![
            VertexAttribute { location: 0, binding: 1, format: "R8_UINT".to_string(), offset: 0 },
            VertexAttribute { location: 1, binding: 1, format: "R32G32B32_SFLOAT".to_string(), offset: 4 },
            VertexAttribute { location: 3, binding: 1, format: "R64_SFLOAT".to_string(), offset: 24 },
        ]
    );
}

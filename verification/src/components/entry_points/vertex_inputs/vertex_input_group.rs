//! The inputs of a vertex shader that are read at one rate.

use super::vertex_input::{VertexInput, VertexInputView};
use crate::error::LayoutError;
use crate::types::structure::member::MemberView;
use crate::types::structure::{composed, field_views, Field, FieldView};
use crate::types::vector::{format_of, Vector};
use crate::types::{Structure, StructureView, Type, TypeView};
use vstd::prelude::*;

verus! {

/// How often the inputs of a group advance: per vertex or per instance.
#[derive(Clone, Copy, Debug, PartialEq, Eq, Structural)]
pub enum InputRate {
    Vertex,
    Instance,
}

/// The inputs that are bound together, laid out as one structure.
#[derive(Debug, PartialEq, Eq)]
pub struct VertexInputGroup {
    pub structure: Structure,
    pub name: String,
    pub input_rate: InputRate,
    pub binding: u32,
}

/// What a [`VertexInputGroup`] holds.
pub struct VertexInputGroupView {
    pub structure: StructureView,
    pub name: Seq<char>,
    pub input_rate: InputRate,
    pub binding: u32,
}

impl View for VertexInputGroup {
    type V = VertexInputGroupView;

    open spec fn view(&self) -> VertexInputGroupView {
        VertexInputGroupView {
            structure: self.structure@,
            name: self.name@,
            input_rate: self.input_rate,
            binding: self.binding,
        }
    }
}

/// The views of a list of inputs, in order.
pub open spec fn input_views(inputs: Seq<VertexInput>) -> Seq<VertexInputView> {
    Seq::new(inputs.len(), |i: int| inputs[i]@)
}

/// The fields that stand for `inputs`: each has the type and the name of its
/// input, no declared offset, and the location of the input.
pub open spec fn input_fields(inputs: Seq<VertexInputView>) -> Seq<FieldView> {
    Seq::new(
        inputs.len(),
        |i: int|
            FieldView {
                field_type: inputs[i].input_type,
                name: inputs[i].name,
                offset: None,
                location: Some(inputs[i].location),
            },
    )
}

/// The group named `name` that `inputs` make, in their order: its structure lays
/// them out one after the other, each at the next multiple of its alignment.
pub open spec fn group_of(
    inputs: Seq<VertexInputView>,
    name: Seq<char>,
    input_rate: InputRate,
    binding: u32,
) -> Result<VertexInputGroupView, LayoutError> {
    match composed(input_fields(inputs), name) {
        Ok(structure) => Ok(VertexInputGroupView { structure, name, input_rate, binding }),
        Err(error) => Err(error),
    }
}

/// One attribute of a vertex input binding.
#[derive(Clone, Debug, PartialEq, Eq)]
pub struct VertexAttribute {
    pub location: u32,
    pub binding: u32,
    pub format: String,
    pub offset: u32,
}

/// What a [`VertexAttribute`] holds.
pub struct VertexAttributeView {
    pub location: u32,
    pub binding: u32,
    pub format: Seq<char>,
    pub offset: u32,
}

impl View for VertexAttribute {
    type V = VertexAttributeView;

    open spec fn view(&self) -> VertexAttributeView {
        VertexAttributeView {
            location: self.location,
            binding: self.binding,
            format: self.format@,
            offset: self.offset,
        }
    }
}

/// The views of a list of attributes, in order.
pub open spec fn attribute_views(attributes: Seq<VertexAttribute>) -> Seq<VertexAttributeView> {
    Seq::new(attributes.len(), |i: int| attributes[i]@)
}

/// The name of the Vulkan format of a vertex attribute of type `input_type`:
/// scalars and vectors of up to 4 components have one.
pub open spec fn attribute_format(input_type: TypeView) -> Option<Seq<char>> {
    match input_type {
        TypeView::Scalar(scalar) => format_of(Vector { component_type: scalar, component_count: 1 }),
        TypeView::Vector(vector) => format_of(vector),
        _ => None,
    }
}

/// The attribute of `member` in the binding `binding`, where the member has a
/// location and a type with a format.
pub open spec fn attribute_of(member: MemberView, binding: u32) -> Option<VertexAttributeView> {
    match (member.location, attribute_format(member.member_type)) {
        (Some(location), Some(format)) => Some(
            VertexAttributeView { location, binding, format, offset: member.offset },
        ),
        _ => None,
    }
}

/// The attributes of the first `count` of `members` in the binding `binding`.
pub open spec fn attributes_among(members: Seq<MemberView>, binding: u32, count: int) -> Seq<
    VertexAttributeView,
>
    decreases count,
{
    if count <= 0 || count > members.len() {
        Seq::empty()
    } else {
        let earlier = attributes_among(members, binding, count - 1);
        match attribute_of(members[count - 1], binding) {
            Some(attribute) => earlier.push(attribute),
            None => earlier,
        }
    }
}

/// Names the Vulkan format of a vertex attribute of type `input_type`, if it has one.
pub fn format_name(input_type: &Type) -> (name: Option<String>)
    ensures
        match attribute_format(input_type@) {
            Some(value) => name is Some && name->0@ == value,
            None => name is None,
        },
{
    match input_type {
        Type::Scalar(scalar) => Some(scalar.format_name()),
        Type::Vector(vector) => vector.format_name(),
        _ => None,
    }
}

/// The number of members among the first `count` of `members` that have a location.
pub open spec fn located(members: Seq<MemberView>, count: int) -> nat
    decreases count,
{
    if count <= 0 || count > members.len() {
        0
    } else if members[count - 1].location is Some {
        located(members, count - 1) + 1
    } else {
        located(members, count - 1)
    }
}

impl VertexInputGroup {
    /// Makes the group named `name` of `inputs`, in their order.
    pub fn from_inputs(inputs: Vec<VertexInput>, name: String, input_rate: InputRate, binding: u32) -> (result:
        Result<VertexInputGroup, LayoutError>)
        ensures
            match group_of(input_views(inputs@), name@, input_rate, binding) {
                Ok(group) => result is Ok && result->Ok_0@ == group
                    && group.structure.well_formed(),
                Err(error) => result == Err::<VertexInputGroup, LayoutError>(error),
            },
    {
        let ghost given = inputs@;
        let mut fields: Vec<Field> = Vec::new();
        for input in iter: inputs
            invariant
                iter.seq() == given,
                fields@.len() == iter.index(),
                forall|i: int|
                    0 <= i < fields@.len() ==> (#[trigger] fields@[i])@ == input_fields(
                        input_views(given),
                    )[i],
        {
            let VertexInput { location, input_type, name: input_name } = input;
            fields.push(
                Field { field_type: input_type, name: input_name, offset: None, location: Some(location) },
            );
        }
        assert(field_views(fields@) =~= input_fields(input_views(given)));
        match Structure::compose(fields, name.clone()) {
            Ok(structure) => Ok(VertexInputGroup { structure, name, input_rate, binding }),
            Err(error) => Err(error),
        }
    }

    /// Lists the attributes of the group: one for every member that has a
    /// location and a type with a format, at the offset of the member.
    pub fn attributes(&self) -> (attributes: Vec<VertexAttribute>)
        ensures
            attribute_views(attributes@) == attributes_among(
                self@.structure.members,
                self@.binding,
                self@.structure.members.len() as int,
            ),
    {
        let mut attributes: Vec<VertexAttribute> = Vec::new();
        let mut index: usize = 0;
        assert(attribute_views(attributes@) =~= Seq::<VertexAttributeView>::empty());
        while index < self.structure.members.len()
            invariant
                index <= self.structure.members.len(),
                attribute_views(attributes@) == attributes_among(
                    self@.structure.members,
                    self@.binding,
                    index as int,
                ),
            decreases self.structure.members.len() - index,
        {
            let ghost earlier = attribute_views(attributes@);
            let member = &self.structure.members[index];
            assert(self@.structure.members[index as int] == member@);
            match member.location {
                Some(location) => {
                    match format_name(&member.member_type) {
                        Some(format) => {
                            let attribute = VertexAttribute {
                                location,
                                binding: self.binding,
                                format,
                                offset: member.offset,
                            };
                            let ghost view = attribute@;
                            attributes.push(attribute);
                            assert(attribute_views(attributes@) =~= earlier.push(view));
                        },
                        None => {},
                    }
                },
                None => {},
            }
            index = index + 1;
        }
        attributes
    }

    /// The number of inputs in the group: the members that have a location.
    pub fn attribute_count(&self) -> (count: usize)
        ensures
            count == located(self@.structure.members, self@.structure.members.len() as int),
    {
        let mut count: usize = 0;
        let mut index: usize = 0;
        while index < self.structure.members.len()
            invariant
                index <= self.structure.members.len(),
                count <= index,
                count == located(self@.structure.members, index as int),
            decreases self.structure.members.len() - index,
        {
            assert(self@.structure.members[index as int] == self.structure.members@[index as int]@);
            if self.structure.members[index].location.is_some() {
                count = count + 1;
            }
            index = index + 1;
        }
        count
    }
}

} // verus!

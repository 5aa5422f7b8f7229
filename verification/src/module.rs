//! The decoded SPIR-V module that reflection works on.
//!
//! A module is a handful of instruction lists, one per section of the binary.
//! Every instruction carries its opcode, its optional result type and result
//! id, and its operands in the order in which they were decoded.

use vstd::prelude::*;

verus! {

/// The opcodes that reflection tells apart.
#[derive(Clone, Copy, Debug, PartialEq, Eq, Hash, Structural)]
pub enum Op {
    Name,
    MemberName,
    EntryPoint,
    ExecutionMode,
    TypeInt,
    TypeFloat,
    TypeVector,
    TypeImage,
    TypeSampler,
    TypeSampledImage,
    TypeArray,
    TypeStruct,
    TypePointer,
    SpecConstant,
    Variable,
    Decorate,
    MemberDecorate,
    TypeAccelerationStructureKHR,
    /// Any other opcode, by its number.
    Other(u32),
}

impl Op {
    /// The opcode that the SPIR-V opcode number `word` stands for.
    pub open spec fn of_word(word: u32) -> Op {
        if word == 5 {
            Op::Name
        } else if word == 6 {
            Op::MemberName
        } else if word == 15 {
            Op::EntryPoint
        } else if word == 16 {
            Op::ExecutionMode
        } else if word == 21 {
            Op::TypeInt
        } else if word == 22 {
            Op::TypeFloat
        } else if word == 23 {
            Op::TypeVector
        } else if word == 25 {
            Op::TypeImage
        } else if word == 26 {
            Op::TypeSampler
        } else if word == 27 {
            Op::TypeSampledImage
        } else if word == 28 {
            Op::TypeArray
        } else if word == 30 {
            Op::TypeStruct
        } else if word == 32 {
            Op::TypePointer
        } else if word == 50 {
            Op::SpecConstant
        } else if word == 59 {
            Op::Variable
        } else if word == 71 {
            Op::Decorate
        } else if word == 72 {
            Op::MemberDecorate
        } else if word == 5341 {
            Op::TypeAccelerationStructureKHR
        } else {
            Op::Other(word)
        }
    }

    /// Reads an opcode from its SPIR-V number.
    pub fn from_word(word: u32) -> (op: Op)
        ensures
            op == Op::of_word(word),
    {
        match word {
            5 => Op::Name,
            6 => Op::MemberName,
            15 => Op::EntryPoint,
            16 => Op::ExecutionMode,
            21 => Op::TypeInt,
            22 => Op::TypeFloat,
            23 => Op::TypeVector,
            25 => Op::TypeImage,
            26 => Op::TypeSampler,
            27 => Op::TypeSampledImage,
            28 => Op::TypeArray,
            30 => Op::TypeStruct,
            32 => Op::TypePointer,
            50 => Op::SpecConstant,
            59 => Op::Variable,
            71 => Op::Decorate,
            72 => Op::MemberDecorate,
            5341 => Op::TypeAccelerationStructureKHR,
            _ => Op::Other(word),
        }
    }
}

/// The execution model of an entry point: the shader stage it runs in.
#[derive(Clone, Copy, Debug, PartialEq, Eq, Hash, Structural)]
pub enum ExecutionModel {
    Vertex,
    TessellationControl,
    TessellationEvaluation,
    Geometry,
    Fragment,
    GLCompute,
    Kernel,
    TaskNV,
    MeshNV,
    RayGenerationNV,
    IntersectionNV,
    AnyHitNV,
    ClosestHitNV,
    MissNV,
    CallableNV,
    TaskEXT,
    MeshEXT,
}

impl ExecutionModel {
    /// The execution model that the SPIR-V number `word` stands for, if any.
    pub open spec fn of_word(word: u32) -> Option<ExecutionModel> {
        if word == 0 {
            Some(ExecutionModel::Vertex)
        } else if word == 1 {
            Some(ExecutionModel::TessellationControl)
        } else if word == 2 {
            Some(ExecutionModel::TessellationEvaluation)
        } else if word == 3 {
            Some(ExecutionModel::Geometry)
        } else if word == 4 {
            Some(ExecutionModel::Fragment)
        } else if word == 5 {
            Some(ExecutionModel::GLCompute)
        } else if word == 6 {
            Some(ExecutionModel::Kernel)
        } else if word == 5267 {
            Some(ExecutionModel::TaskNV)
        } else if word == 5268 {
            Some(ExecutionModel::MeshNV)
        } else if word == 5313 {
            Some(ExecutionModel::RayGenerationNV)
        } else if word == 5314 {
            Some(ExecutionModel::IntersectionNV)
        } else if word == 5315 {
            Some(ExecutionModel::AnyHitNV)
        } else if word == 5316 {
            Some(ExecutionModel::ClosestHitNV)
        } else if word == 5317 {
            Some(ExecutionModel::MissNV)
        } else if word == 5318 {
            Some(ExecutionModel::CallableNV)
        } else if word == 5364 {
            Some(ExecutionModel::TaskEXT)
        } else if word == 5365 {
            Some(ExecutionModel::MeshEXT)
        } else {
            None
        }
    }

    /// Reads an execution model from its SPIR-V number.
    pub fn from_word(word: u32) -> (model: Option<ExecutionModel>)
        ensures
            model == ExecutionModel::of_word(word),
    {
        match word {
            0 => Some(ExecutionModel::Vertex),
            1 => Some(ExecutionModel::TessellationControl),
            2 => Some(ExecutionModel::TessellationEvaluation),
            3 => Some(ExecutionModel::Geometry),
            4 => Some(ExecutionModel::Fragment),
            5 => Some(ExecutionModel::GLCompute),
            6 => Some(ExecutionModel::Kernel),
            5267 => Some(ExecutionModel::TaskNV),
            5268 => Some(ExecutionModel::MeshNV),
            5313 => Some(ExecutionModel::RayGenerationNV),
            5314 => Some(ExecutionModel::IntersectionNV),
            5315 => Some(ExecutionModel::AnyHitNV),
            5316 => Some(ExecutionModel::ClosestHitNV),
            5317 => Some(ExecutionModel::MissNV),
            5318 => Some(ExecutionModel::CallableNV),
            5364 => Some(ExecutionModel::TaskEXT),
            5365 => Some(ExecutionModel::MeshEXT),
            _ => None,
        }
    }
}

/// The execution modes that reflection tells apart.
#[derive(Clone, Copy, Debug, PartialEq, Eq, Hash, Structural)]
pub enum ExecutionMode {
    LocalSize,
    /// Any other execution mode, by its number.
    Other(u32),
}

impl ExecutionMode {
    /// The execution mode that the SPIR-V number `word` stands for.
    pub open spec fn of_word(word: u32) -> ExecutionMode {
        if word == 17 {
            ExecutionMode::LocalSize
        } else {
            ExecutionMode::Other(word)
        }
    }

    /// Reads an execution mode from its SPIR-V number.
    pub fn from_word(word: u32) -> (mode: ExecutionMode)
        ensures
            mode == ExecutionMode::of_word(word),
    {
        if word == 17 {
            ExecutionMode::LocalSize
        } else {
            ExecutionMode::Other(word)
        }
    }
}

/// The storage classes that reflection tells apart.
#[derive(Clone, Copy, Debug, PartialEq, Eq, Hash, Structural)]
pub enum StorageClass {
    Input,
    PushConstant,
    StorageBuffer,
    /// Any other storage class, by its number.
    Other(u32),
}

impl StorageClass {
    /// The storage class that the SPIR-V number `word` stands for.
    pub open spec fn of_word(word: u32) -> StorageClass {
        if word == 1 {
            StorageClass::Input
        } else if word == 9 {
            StorageClass::PushConstant
        } else if word == 12 {
            StorageClass::StorageBuffer
        } else {
            StorageClass::Other(word)
        }
    }

    /// Reads a storage class from its SPIR-V number.
    pub fn from_word(word: u32) -> (class: StorageClass)
        ensures
            class == StorageClass::of_word(word),
    {
        match word {
            1 => StorageClass::Input,
            9 => StorageClass::PushConstant,
            12 => StorageClass::StorageBuffer,
            _ => StorageClass::Other(word),
        }
    }
}

/// The decorations that reflection tells apart.
#[derive(Clone, Copy, Debug, PartialEq, Eq, Hash, Structural)]
pub enum Decoration {
    SpecId,
    BufferBlock,
    BuiltIn,
    Location,
    Binding,
    DescriptorSet,
    Offset,
    /// Any other decoration, by its number.
    Other(u32),
}

impl Decoration {
    /// The decoration that the SPIR-V number `word` stands for.
    pub open spec fn of_word(word: u32) -> Decoration {
        if word == 1 {
            Decoration::SpecId
        } else if word == 3 {
            Decoration::BufferBlock
        } else if word == 11 {
            Decoration::BuiltIn
        } else if word == 30 {
            Decoration::Location
        } else if word == 33 {
            Decoration::Binding
        } else if word == 34 {
            Decoration::DescriptorSet
        } else if word == 35 {
            Decoration::Offset
        } else {
            Decoration::Other(word)
        }
    }

    /// Reads a decoration from its SPIR-V number.
    pub fn from_word(word: u32) -> (decoration: Decoration)
        ensures
            decoration == Decoration::of_word(word),
    {
        match word {
            1 => Decoration::SpecId,
            3 => Decoration::BufferBlock,
            11 => Decoration::BuiltIn,
            30 => Decoration::Location,
            33 => Decoration::Binding,
            34 => Decoration::DescriptorSet,
            35 => Decoration::Offset,
            _ => Decoration::Other(word),
        }
    }
}

/// The image dimensionalities that reflection tells apart.
#[derive(Clone, Copy, Debug, PartialEq, Eq, Hash, Structural)]
pub enum Dim {
    DimBuffer,
    DimSubpassData,
    /// Any other dimensionality, by its number.
    Other(u32),
}

impl Dim {
    /// The dimensionality that the SPIR-V number `word` stands for.
    pub open spec fn of_word(word: u32) -> Dim {
        if word == 5 {
            Dim::DimBuffer
        } else if word == 6 {
            Dim::DimSubpassData
        } else {
            Dim::Other(word)
        }
    }

    /// Reads a dimensionality from its SPIR-V number.
    pub fn from_word(word: u32) -> (dim: Dim)
        ensures
            dim == Dim::of_word(word),
    {
        match word {
            5 => Dim::DimBuffer,
            6 => Dim::DimSubpassData,
            _ => Dim::Other(word),
        }
    }
}

/// One operand of an instruction.
#[derive(Clone, Debug, PartialEq, Eq)]
pub enum SpvOperand {
    IdRef(u32),
    LiteralBit32(u32),
    LiteralString(String),
    ExecutionModel(ExecutionModel),
    ExecutionMode(ExecutionMode),
    StorageClass(StorageClass),
    Decoration(Decoration),
    Dim(Dim),
    /// An operand of a kind that reflection never reads.
    Other,
}

/// What an [`SpvOperand`] holds, with text as a sequence of characters.
pub enum OperandView {
    IdRef(u32),
    LiteralBit32(u32),
    LiteralString(Seq<char>),
    ExecutionModel(ExecutionModel),
    ExecutionMode(ExecutionMode),
    StorageClass(StorageClass),
    Decoration(Decoration),
    Dim(Dim),
    Other,
}

impl View for SpvOperand {
    type V = OperandView;

    open spec fn view(&self) -> OperandView {
        match self {
            SpvOperand::IdRef(id) => OperandView::IdRef(*id),
            SpvOperand::LiteralBit32(value) => OperandView::LiteralBit32(*value),
            SpvOperand::LiteralString(text) => OperandView::LiteralString(text@),
            SpvOperand::ExecutionModel(model) => OperandView::ExecutionModel(*model),
            SpvOperand::ExecutionMode(mode) => OperandView::ExecutionMode(*mode),
            SpvOperand::StorageClass(class) => OperandView::StorageClass(*class),
            SpvOperand::Decoration(decoration) => OperandView::Decoration(*decoration),
            SpvOperand::Dim(dim) => OperandView::Dim(*dim),
            SpvOperand::Other => OperandView::Other,
        }
    }
}

/// One decoded instruction.
#[derive(Clone, Debug, PartialEq, Eq)]
pub struct SpvInstruction {
    pub opcode: Op,
    pub result_type: Option<u32>,
    pub result_id: Option<u32>,
    pub operands: Vec<SpvOperand>,
}

/// What an [`SpvInstruction`] holds.
pub struct InstructionView {
    pub opcode: Op,
    pub result_type: Option<u32>,
    pub result_id: Option<u32>,
    pub operands: Seq<OperandView>,
}

impl View for SpvInstruction {
    type V = InstructionView;

    open spec fn view(&self) -> InstructionView {
        InstructionView {
            opcode: self.opcode,
            result_type: self.result_type,
            result_id: self.result_id,
            operands: self.operands@.map_values(|operand: SpvOperand| operand@),
        }
    }
}

impl InstructionView {
    /// The operand at `index`, if the instruction has that many.
    pub open spec fn operand(self, index: int) -> Option<OperandView> {
        if 0 <= index < self.operands.len() {
            Some(self.operands[index])
        } else {
            None
        }
    }

    /// Whether one of the operands from position `from` on is a reference to `id`.
    pub open spec fn refers_to(self, id: u32, from: int) -> bool {
        exists|k: int| from <= k < self.operands.len() && self.operands[k] == OperandView::IdRef(id)
    }
}

impl SpvInstruction {
    /// Creates an instruction.
    pub fn new(
        opcode: Op,
        result_type: Option<u32>,
        result_id: Option<u32>,
        operands: Vec<SpvOperand>,
    ) -> (instruction: SpvInstruction)
        ensures
            instruction.opcode == opcode,
            instruction.result_type == result_type,
            instruction.result_id == result_id,
            instruction.operands == operands,
    {
        SpvInstruction { opcode, result_type, result_id, operands }
    }

    /// The id held by the operand at `index`, if that operand is an id reference.
    pub fn id_ref_at(&self, index: usize) -> (id: Option<u32>)
        ensures
            id == match self@.operand(index as int) {
                Some(OperandView::IdRef(value)) => Some(value),
                _ => None,
            },
    {
        if index < self.operands.len() {
            match &self.operands[index] {
                SpvOperand::IdRef(value) => Some(*value),
                _ => None,
            }
        } else {
            None
        }
    }

    /// The number held by the operand at `index`, if that operand is a 32-bit literal.
    pub fn literal_at(&self, index: usize) -> (value: Option<u32>)
        ensures
            value == match self@.operand(index as int) {
                Some(OperandView::LiteralBit32(literal)) => Some(literal),
                _ => None,
            },
    {
        if index < self.operands.len() {
            match &self.operands[index] {
                SpvOperand::LiteralBit32(literal) => Some(*literal),
                _ => None,
            }
        } else {
            None
        }
    }

    /// The decoration held by the operand at `index`, if that operand is one.
    pub fn decoration_at(&self, index: usize) -> (decoration: Option<Decoration>)
        ensures
            decoration == match self@.operand(index as int) {
                Some(OperandView::Decoration(value)) => Some(value),
                _ => None,
            },
    {
        if index < self.operands.len() {
            match &self.operands[index] {
                SpvOperand::Decoration(value) => Some(*value),
                _ => None,
            }
        } else {
            None
        }
    }

    /// The storage class held by the operand at `index`, if that operand is one.
    pub fn storage_class_at(&self, index: usize) -> (class: Option<StorageClass>)
        ensures
            class == match self@.operand(index as int) {
                Some(OperandView::StorageClass(value)) => Some(value),
                _ => None,
            },
    {
        if index < self.operands.len() {
            match &self.operands[index] {
                SpvOperand::StorageClass(value) => Some(*value),
                _ => None,
            }
        } else {
            None
        }
    }

    /// The dimensionality held by the operand at `index`, if that operand is one.
    pub fn dim_at(&self, index: usize) -> (dim: Option<Dim>)
        ensures
            dim == match self@.operand(index as int) {
                Some(OperandView::Dim(value)) => Some(value),
                _ => None,
            },
    {
        if index < self.operands.len() {
            match &self.operands[index] {
                SpvOperand::Dim(value) => Some(*value),
                _ => None,
            }
        } else {
            None
        }
    }

    /// The execution mode held by the operand at `index`, if that operand is one.
    pub fn execution_mode_at(&self, index: usize) -> (mode: Option<ExecutionMode>)
        ensures
            mode == match self@.operand(index as int) {
                Some(OperandView::ExecutionMode(value)) => Some(value),
                _ => None,
            },
    {
        if index < self.operands.len() {
            match &self.operands[index] {
                SpvOperand::ExecutionMode(value) => Some(*value),
                _ => None,
            }
        } else {
            None
        }
    }

    /// The execution model held by the operand at `index`, if that operand is one.
    pub fn execution_model_at(&self, index: usize) -> (model: Option<ExecutionModel>)
        ensures
            model == match self@.operand(index as int) {
                Some(OperandView::ExecutionModel(value)) => Some(value),
                _ => None,
            },
    {
        if index < self.operands.len() {
            match &self.operands[index] {
                SpvOperand::ExecutionModel(value) => Some(*value),
                _ => None,
            }
        } else {
            None
        }
    }

    /// A copy of the text held by the operand at `index`, if that operand is a string.
    pub fn string_at(&self, index: usize) -> (text: Option<String>)
        ensures
            match self@.operand(index as int) {
                Some(OperandView::LiteralString(value)) => text is Some && text->0@ == value,
                _ => text is None,
            },
    {
        if index < self.operands.len() {
            match &self.operands[index] {
                SpvOperand::LiteralString(value) => Some(value.clone()),
                _ => None,
            }
        } else {
            None
        }
    }

    /// Whether one of the operands from position `from` on is a reference to `id`.
    pub fn refers_to(&self, id: u32, from: usize) -> (found: bool)
        ensures
            found == self@.refers_to(id, from as int),
    {
        let mut index: usize = from;
        while index < self.operands.len()
            invariant
                from <= index,
                forall|k: int|
                    from <= k < index && k < self.operands.len() ==> self@.operands[k]
                        != OperandView::IdRef(id),
            decreases self.operands.len() - index,
        {
            match &self.operands[index] {
                SpvOperand::IdRef(value) => {
                    if *value == id {
                        assert(self@.operands[index as int] == OperandView::IdRef(id));
                        return true;
                    }
                },
                _ => {},
            }
            index = index + 1;
        }
        false
    }
}

/// A decoded module, section by section.
#[derive(Clone, Debug, Default)]
pub struct SpvModule {
    /// Types, constants and global variables.
    pub types_global_values: Vec<SpvInstruction>,
    /// Decorations and member decorations.
    pub annotations: Vec<SpvInstruction>,
    /// Entry point declarations.
    pub entry_points: Vec<SpvInstruction>,
    /// Execution mode declarations.
    pub execution_modes: Vec<SpvInstruction>,
    /// Debug names of ids and of structure members.
    pub debug_names: Vec<SpvInstruction>,
}

/// What a [`SpvModule`] holds.
pub struct ModuleView {
    pub types_global_values: Seq<InstructionView>,
    pub annotations: Seq<InstructionView>,
    pub entry_points: Seq<InstructionView>,
    pub execution_modes: Seq<InstructionView>,
    pub debug_names: Seq<InstructionView>,
}

/// The views of a list of instructions, in order.
pub open spec fn instruction_views(instructions: Seq<SpvInstruction>) -> Seq<InstructionView> {
    instructions.map_values(|instruction: SpvInstruction| instruction@)
}

impl View for SpvModule {
    type V = ModuleView;

    open spec fn view(&self) -> ModuleView {
        ModuleView {
            types_global_values: instruction_views(self.types_global_values@),
            annotations: instruction_views(self.annotations@),
            entry_points: instruction_views(self.entry_points@),
            execution_modes: instruction_views(self.execution_modes@),
            debug_names: instruction_views(self.debug_names@),
        }
    }
}

impl SpvModule {
    /// Creates a module without instructions.
    pub fn new() -> (module: SpvModule)
        ensures
            module@.types_global_values.len() == 0,
            module@.annotations.len() == 0,
            module@.entry_points.len() == 0,
            module@.execution_modes.len() == 0,
            module@.debug_names.len() == 0,
    {
        SpvModule {
            types_global_values: Vec::new(),
            annotations: Vec::new(),
            entry_points: Vec::new(),
            execution_modes: Vec::new(),
            debug_names: Vec::new(),
        }
    }
}

} // verus!

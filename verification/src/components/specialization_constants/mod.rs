//! The specialization constants of a module.

pub mod specialization_constant;

use crate::error::ReflectError;
use crate::module::{SpvModule, ModuleView};
use crate::types::structure::laws::{
    fields_ascend, lemma_composed_ascends, lemma_member_within, locations_ascend,
};
use crate::types::structure::member::MemberView;
use crate::types::structure::{composed, field_views, Field, FieldView};
use crate::types::{Structure, StructureView};
use crate::utilities::sort::{
    lemma_sorted_keeps, lemma_sorted_with_values, lemma_stable_sorted, sort_by_key, stable_sorted,
    with_values,
};
use specialization_constant::{
    specialization_constant_of, SpecializationConstant, SpecializationConstantView,
};
use vstd::prelude::*;

verus! {

/// The specialization constants of a module, laid out as one structure in
/// ascending order of their constant ids. The location of a member is the
/// constant id of its constant.
#[derive(Debug, PartialEq, Eq)]
pub struct SpecializationConstants {
    pub structure: Structure,
}

impl View for SpecializationConstants {
    type V = StructureView;

    open spec fn view(&self) -> StructureView {
        self.structure@
    }
}

/// Where the data of one specialization constant lies.
#[derive(Clone, Copy, Debug, PartialEq, Eq, Structural)]
pub struct SpecializationMapEntry {
    pub constant_id: u32,
    pub offset: u32,
    pub size: usize,
}

/// The function that takes a constant to its view.
pub open spec fn viewing() -> spec_fn(SpecializationConstant) -> SpecializationConstantView {
    |constant: SpecializationConstant| constant@
}

/// The constants that the first `count` declarations of the module declare, each
/// with its constant id as key, or the failure of the first that fails.
pub open spec fn constants_among(module: ModuleView, count: int) -> Result<
    Seq<(u32, SpecializationConstantView)>,
    ReflectError,
>
    decreases count,
{
    if count <= 0 || count > module.types_global_values.len() {
        Ok(Seq::empty())
    } else {
        match constants_among(module, count - 1) {
            Ok(earlier) => match specialization_constant_of(
                module,
                module.types_global_values[count - 1],
            ) {
                Ok(Some(constant)) => Ok(earlier.push((constant.id, constant))),
                Ok(None) => Ok(earlier),
                Err(error) => Err(error),
            },
            Err(error) => Err(error),
        }
    }
}

/// The fields that stand for `constants`: each has the type and the name of its
/// constant, no declared offset, and the constant id as location.
pub open spec fn constant_fields(constants: Seq<(u32, SpecializationConstantView)>) -> Seq<FieldView> {
    Seq::new(
        constants.len(),
        |i: int|
            FieldView {
                field_type: constants[i].1.constant_type,
                name: constants[i].1.name,
                offset: None,
                location: Some(constants[i].1.id),
            },
    )
}

/// The structure of the specialization constants of the module: the constants in
/// ascending order of their constant ids, each at the next multiple of its
/// alignment; none where the module declares no constant.
pub open spec fn specialization_constants_of(module: ModuleView) -> Result<
    Option<StructureView>,
    ReflectError,
> {
    match constants_among(module, module.types_global_values.len() as int) {
        Ok(found) => if found.len() == 0 {
            Ok(None)
        } else {
            match composed(constant_fields(stable_sorted(found)), "SpecializationConstants"@) {
                Ok(structure) => Ok(Some(structure)),
                Err(error) => Err(ReflectError::SyntheticLayout { error }),
            }
        },
        Err(error) => Err(error),
    }
}

/// The entry of `member`: its location, its offset and its size, where it has a
/// location and a size that fits in 32 bits.
pub open spec fn map_entry(member: MemberView) -> Option<SpecializationMapEntry> {
    match member.location {
        Some(constant_id) => if member.member_type.size() <= u32::MAX {
            Some(
                SpecializationMapEntry {
                    constant_id,
                    offset: member.offset,
                    size: member.member_type.size() as usize,
                },
            )
        } else {
            None
        },
        None => None,
    }
}

/// The entries of the first `count` of `members`, in order.
pub open spec fn map_entries(members: Seq<MemberView>, count: int) -> Seq<SpecializationMapEntry>
    decreases count,
{
    if count <= 0 || count > members.len() {
        Seq::empty()
    } else {
        let earlier = map_entries(members, count - 1);
        match map_entry(members[count - 1]) {
            Some(entry) => earlier.push(entry),
            None => earlier,
        }
    }
}

/// In a well-formed structure every member with a location has an entry.
pub proof fn lemma_map_entry_present(structure: StructureView, position: int)
    requires
        structure.well_formed(),
        0 <= position < structure.members.len(),
        structure.members[position].location is Some,
    ensures
        map_entry(structure.members[position]) is Some,
{
    lemma_member_within(structure.members, structure.layout.size as nat, position);
}

/// Whether a constant is keyed by its constant id.
pub open spec fn keyed_by_id(item: (u32, SpecializationConstantView)) -> bool {
    item.0 == item.1.id
}

/// Every constant read from the module is keyed by its constant id.
pub proof fn lemma_constants_keyed(module: ModuleView, count: int)
    requires
        0 <= count <= module.types_global_values.len(),
        constants_among(module, count) is Ok,
    ensures
        forall|i: int|
            0 <= i < constants_among(module, count)->Ok_0.len() ==> keyed_by_id(
                #[trigger] constants_among(module, count)->Ok_0[i],
            ),
    decreases count,
{
    if count > 0 {
        lemma_constants_keyed(module, count - 1);
        let earlier = constants_among(module, count - 1)->Ok_0;
        let now = constants_among(module, count)->Ok_0;
        assert forall|i: int| 0 <= i < now.len() implies keyed_by_id(#[trigger] now[i]) by {
            if i < earlier.len() {
                assert(now[i] == earlier[i]);
            }
        }
    }
}

/// The members of the structure of the specialization constants stand in
/// ascending order of their constant ids.
pub proof fn lemma_constants_ascend(module: ModuleView)
    requires
        specialization_constants_of(module) matches Ok(Some(_)),
    ensures
        locations_ascend(specialization_constants_of(module)->Ok_0->0.members),
{
    let found = constants_among(module, module.types_global_values.len() as int)->Ok_0;
    let sorted = stable_sorted(found);
    lemma_constants_keyed(module, module.types_global_values.len() as int);
    lemma_stable_sorted(found);
    lemma_sorted_keeps(found, |item: (u32, SpecializationConstantView)| keyed_by_id(item), found.len() as int);
    let fields = constant_fields(sorted);
    assert forall|i: int, j: int| 0 <= i < j < fields.len() implies (
    #[trigger] fields[i]).location->0 <= (#[trigger] fields[j]).location->0 by {
        assert(keyed_by_id(sorted[i]));
        assert(keyed_by_id(sorted[j]));
        assert(sorted[i].0 <= sorted[j].0);
    }
    assert(fields_ascend(fields));
    lemma_composed_ascends(fields, "SpecializationConstants"@);
}

/// Once a declaration fails, the failure stays whatever follows.
proof fn lemma_constants_fail(module: ModuleView, count: int, later: int)
    requires
        0 < count <= later <= module.types_global_values.len(),
        constants_among(module, count) is Err,
    ensures
        constants_among(module, later) == constants_among(module, count),
    decreases later - count,
{
    if count < later {
        lemma_constants_fail(module, count, later - 1);
    }
}

fn read_constants(module: &SpvModule) -> (outcome: Result<Vec<(u32, SpecializationConstant)>, ReflectError>)
    ensures
        match constants_among(module@, module@.types_global_values.len() as int) {
            Ok(found) => outcome matches Ok(constants) && with_values(constants@, viewing())
                == found,
            Err(error) => outcome matches Err(failure) && failure == error,
        },
{
    let mut constants: Vec<(u32, SpecializationConstant)> = Vec::new();
    let total: usize = module.types_global_values.len();
    let mut index: usize = 0;
    assert(with_values(constants@, viewing()) =~= Seq::<(u32, SpecializationConstantView)>::empty());
    while index < total
        invariant
            index <= total,
            total == module.types_global_values.len(),
            total == module@.types_global_values.len(),
            constants_among(module@, index as int) == Ok::<
                Seq<(u32, SpecializationConstantView)>,
                ReflectError,
            >(with_values(constants@, viewing())),
        decreases total - index,
    {
        let ghost earlier = with_values(constants@, viewing());
        let instruction = &module.types_global_values[index];
        assert(module@.types_global_values[index as int] == instruction@);
        match SpecializationConstant::from_instruction(instruction, module) {
            Ok(Some(constant)) => {
                let ghost view = constant@;
                constants.push((constant.id, constant));
                assert(with_values(constants@, viewing()) =~= earlier.push((view.id, view)));
            },
            Ok(None) => {},
            Err(error) => {
                proof {
                    lemma_constants_fail(module@, index + 1, total as int);
                }
                return Err(error);
            },
        }
        index = index + 1;
    }
    Ok(constants)
}

impl SpecializationConstants {
    /// Reflects the specialization constants of the module.
    pub fn from_spirv(module: &SpvModule) -> (outcome: Result<
        Option<SpecializationConstants>,
        ReflectError,
    >)
        ensures
            crate::types::resolve::agrees(outcome, specialization_constants_of(module@)),
            outcome matches Ok(Some(constants)) ==> constants@.well_formed(),
    {
        let found = match read_constants(module) {
            Ok(constants) => constants,
            Err(error) => {
                return Err(error);
            },
        };
        if found.len() == 0 {
            return Ok(None);
        }
        let ghost unsorted = found@;
        let sorted = sort_by_key(found);
        let ghost keyed = with_values(sorted@, viewing());
        proof {
            lemma_sorted_with_values(unsorted, viewing(), unsorted.len() as int);
            assert(keyed == stable_sorted(with_values(unsorted, viewing())));
        }
        let ghost all = sorted@;
        let mut fields: Vec<Field> = Vec::new();
        for item in iter: sorted
            invariant
                iter.seq() == all,
                keyed == with_values(all, viewing()),
                fields@.len() == iter.index(),
                forall|i: int|
                    0 <= i < fields@.len() ==> (#[trigger] fields@[i])@ == constant_fields(keyed)[i],
        {
            let ghost position = fields@.len() as int;
            let (_, constant) = item;
            assert(keyed[position].1 == constant@);
            let SpecializationConstant { id, constant_type, name } = constant;
            fields.push(Field { field_type: constant_type, name, offset: None, location: Some(id) });
        }
        assert(field_views(fields@) =~= constant_fields(keyed));
        match Structure::compose(fields, String::from_str("SpecializationConstants")) {
            Ok(structure) => Ok(Some(SpecializationConstants { structure })),
            Err(error) => Err(ReflectError::SyntheticLayout { error }),
        }
    }

    /// Lists where the data of each constant lies: for every member that has a
    /// location, in member order, the constant id, the offset and the size. A
    /// member whose size does not fit in 32 bits has no entry; a well-formed
    /// structure has no such member.
    pub fn specialization_map(&self) -> (entries: Vec<SpecializationMapEntry>)
        ensures
            entries@ == map_entries(self@.members, self@.members.len() as int),
    {
        let mut entries: Vec<SpecializationMapEntry> = Vec::new();
        let mut index: usize = 0;
        while index < self.structure.members.len()
            invariant
                index <= self.structure.members.len(),
                entries@ == map_entries(self@.members, index as int),
            decreases self.structure.members.len() - index,
        {
            let member = &self.structure.members[index];
            assert(self@.members[index as int] == member@);
            match member.location {
                Some(constant_id) => {
                    match member.member_type.checked_size() {
                        Some(size) => {
                            entries.push(
                                SpecializationMapEntry {
                                    constant_id,
                                    offset: member.offset,
                                    size: size as usize,
                                },
                            );
                        },
                        None => {},
                    }
                },
                None => {},
            }
            index = index + 1;
        }
        entries
    }
}

} // verus!

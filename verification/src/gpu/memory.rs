//! The choice of a queue and of memory.

use vstd::prelude::*;

use super::ComputeError;

verus! {

/// As many kinds of memory as a device can have.
pub const MAX_MEMORY_TYPES: usize = 32;

pub const MEMORY_DEVICE_LOCAL: u32 = 1;

pub const MEMORY_HOST_VISIBLE: u32 = 2;

pub const MEMORY_HOST_COHERENT: u32 = 4;

/// Memory that the processor can read while it is mapped.
pub const MEMORY_HOST_READABLE: u32 = 6;

pub const QUEUE_COMPUTE: u32 = 2;

/// Whether all of `wanted` is set in `flags`.
pub open spec fn has_flags(flags: u32, wanted: u32) -> bool {
    flags & wanted == wanted
}

/// Whether memory of kind `index` can be used: its bit is set, and it has the
/// properties.
pub open spec fn suits(properties: Seq<u32>, type_bits: u32, flags: u32, index: int) -> bool {
    &&& type_bits & (1u32 << (index as u32)) != 0
    &&& has_flags(properties[index], flags)
}

/// The first kind of memory with the properties, among those whose bits are set.
pub fn find_memory_type(properties: &[u32], type_bits: u32, flags: u32) -> (found: Option<u32>)
    requires
        properties@.len() <= MAX_MEMORY_TYPES,
    ensures
        match found {
            Some(index) => {
                &&& index < properties@.len()
                &&& suits(properties@, type_bits, flags, index as int)
                &&& forall|i: int| 0 <= i < index ==> !suits(properties@, type_bits, flags, i)
            },
            None => forall|i: int|
                0 <= i < properties@.len() ==> !suits(properties@, type_bits, flags, i),
        },
{
    let mut index: u32 = 0;
    while (index as usize) < properties.len()
        invariant
            index <= properties@.len() <= MAX_MEMORY_TYPES,
            forall|i: int| 0 <= i < index ==> !suits(properties@, type_bits, flags, i),
        decreases properties@.len() - index,
    {
        if type_bits & (1u32 << index) != 0 && properties[index as usize] & flags == flags {
            return Some(index);
        }
        index += 1;
    }
    None
}

/// The first queue family that can compute. There must be a device, of which these are
/// the families.
pub fn select_queue_family(device_found: bool, families: &[u32]) -> (selected: Result<
    u32,
    ComputeError,
>)
    requires
        families@.len() <= u32::MAX,
    ensures
        match selected {
            Ok(index) => {
                &&& device_found
                &&& index < families@.len()
                &&& has_flags(families@[index as int], QUEUE_COMPUTE)
                &&& forall|i: int|
                    0 <= i < index ==> !has_flags(#[trigger] families@[i], QUEUE_COMPUTE)
            },
            Err(error) => if !device_found {
                error == ComputeError::NoPhysicalDevice
            } else {
                &&& error == ComputeError::NoComputeQueue
                &&& forall|i: int|
                    0 <= i < families@.len() ==> !has_flags(#[trigger] families@[i], QUEUE_COMPUTE)
            },
        },
{
    if !device_found {
        return Err(ComputeError::NoPhysicalDevice);
    }
    let mut index: u32 = 0;
    while (index as usize) < families.len()
        invariant
            device_found,
            index <= families@.len() <= u32::MAX,
            forall|i: int| 0 <= i < index ==> !has_flags(#[trigger] families@[i], QUEUE_COMPUTE),
        decreases families@.len() - index,
    {
        if families[index as usize] & QUEUE_COMPUTE == QUEUE_COMPUTE {
            return Ok(index);
        }
        index += 1;
    }
    Err(ComputeError::NoComputeQueue)
}

/// Memory that can be read while it is mapped is visible and coherent, and no more is
/// asked of it.
pub proof fn readable_memory_is_visible_and_coherent(flags: u32)
    ensures
        has_flags(flags, MEMORY_HOST_READABLE) <==> has_flags(flags, MEMORY_HOST_VISIBLE)
            && has_flags(flags, MEMORY_HOST_COHERENT),
{
    assert(flags & 6 == 6 <==> flags & 2 == 2 && flags & 4 == 4) by (bit_vector);
}

/// Each kind of memory has its own bit: where one bit is set, no other kind suits.
pub proof fn each_kind_of_memory_has_its_bit(properties: Seq<u32>, flags: u32, kind: u32, index: u32)
    requires
        kind < 32,
        index < 32,
    ensures
        suits(properties, 1u32 << kind, flags, index as int) ==> index == kind,
        has_flags(properties[kind as int], flags) ==> suits(
            properties,
            1u32 << kind,
            flags,
            kind as int,
        ),
        !suits(properties, 0, flags, index as int),
{
    assert((1u32 << kind) & (1u32 << index) != 0 <==> kind == index) by (bit_vector)
        requires
            kind < 32,
            index < 32,
    ;
    assert((1u32 << kind) & (1u32 << kind) != 0) by (bit_vector)
        requires
            kind < 32,
    ;
    assert(0u32 & (1u32 << index) == 0) by (bit_vector);
}

} // verus!

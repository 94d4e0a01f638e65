//! The transform gizmo's draw pass: the metadata written for each batch of
//! indirect draws.
use vstd::prelude::*;

verus! {

/// The buffer of indirect parameters a batch writes into.
#[derive(Clone, Copy, PartialEq, Eq, Structural)]
pub enum IndirectBuffer {
    Indexed,
    NonIndexed,
}

/// The metadata of a batch of indirect draws.
#[derive(Clone, Copy, PartialEq, Eq, Structural)]
pub struct IndirectParametersCpuMetadata {
    pub base_output_index: u32,
    /// The batch set's index, or `u32::MAX` for none.
    pub batch_set_index: u32,
}

/// Where the metadata of a batch is written, and what.
#[derive(Clone, Copy, PartialEq, Eq, Structural)]
pub struct IndirectWrite {
    pub buffer: IndirectBuffer,
    pub offset: u32,
    pub metadata: IndirectParametersCpuMetadata,
}

/// The metadata of a batch: its base output index, and its batch set's index
/// (`u32::MAX` where it has none), written at `offset` in the indexed or the
/// non-indexed buffer. A batch set's index is never `u32::MAX`.
pub fn write_batch_indirect_parameters_metadata(
    indexed: bool,
    base_output_index: u32,
    batch_set_index: Option<u32>,
    indirect_parameters_offset: u32,
) -> (w: IndirectWrite)
    requires
        batch_set_index != Some(u32::MAX),
    ensures
        w.buffer == (if indexed {
            IndirectBuffer::Indexed
        } else {
            IndirectBuffer::NonIndexed
        }),
        w.offset == indirect_parameters_offset,
        w.metadata.base_output_index == base_output_index,
        w.metadata.batch_set_index == (match batch_set_index {
            Some(v) => v,
            None => u32::MAX,
        }),
{
    let batch = match batch_set_index {
        None => u32::MAX,
        Some(n) => n,
    };
    IndirectWrite {
        buffer: if indexed {
            IndirectBuffer::Indexed
        } else {
            IndirectBuffer::NonIndexed
        },
        offset: indirect_parameters_offset,
        metadata: IndirectParametersCpuMetadata { base_output_index, batch_set_index: batch },
    }
}

} // verus!

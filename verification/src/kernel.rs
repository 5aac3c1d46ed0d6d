//! What the program cache needs to know of a workload: the key under which
//! its program is kept, and the source from which the program is compiled.

use crate::curve::{
    family_index, group_index, index_of_family, index_of_group, CurveFamily, CurveGroup,
};
use vstd::prelude::*;

verus! {

/// One of the two prime fields of a family.
#[derive(Clone, Copy, Debug, PartialEq, Eq, Structural)]
pub enum FieldRole {
    /// The field of the scalars.
    Scalar,
    /// The field of the coordinates.
    Base,
}

/// The identity of a workload's parameters. Two workloads share a compiled
/// program on a device exactly when they have the same key.
#[derive(Clone, Copy, Debug, PartialEq, Eq, Structural)]
pub enum WorkloadKey {
    /// The FFT over one prime field of a family.
    Fft(CurveFamily, FieldRole),
    /// Multi-scalar multiplication in a group.
    Multiexp(CurveGroup),
    /// The polynomial-commitment round reduction in a group.
    Polycommit(CurveGroup),
}

impl WorkloadKey {
    /// The number under which the cache keeps the workload's program.
    pub open spec fn spec_id(self) -> u64 {
        match self {
            WorkloadKey::Fft(family, FieldRole::Scalar) => (2 * family_index(family)) as u64,
            WorkloadKey::Fft(family, FieldRole::Base) => (2 * family_index(family) + 1) as u64,
            WorkloadKey::Multiexp(group) => (16 + group_index(group)) as u64,
            WorkloadKey::Polycommit(group) => (32 + group_index(group)) as u64,
        }
    }

    /// The number under which the cache keeps the workload's program.
    pub fn id(self) -> (id: u64)
        ensures
            id == self.spec_id(),
    {
        match self {
            WorkloadKey::Fft(family, FieldRole::Scalar) => 2 * index_of_family(family),
            WorkloadKey::Fft(family, FieldRole::Base) => 2 * index_of_family(family) + 1,
            WorkloadKey::Multiexp(group) => 16 + index_of_group(group),
            WorkloadKey::Polycommit(group) => 32 + index_of_group(group),
        }
    }
}

/// Different workloads are kept under different numbers: neither two kinds
/// of workload nor two fields or groups ever share a cached program.
pub proof fn lemma_ids_are_distinct(a: WorkloadKey, b: WorkloadKey)
    requires
        a != b,
    ensures
        a.spec_id() != b.spec_id(),
{
}

/// A workload whose device program can be written out and cached.
pub trait SingleKernel {
    /// The descriptors of the workload fit the machine, so that its source
    /// can be written.
    spec fn ready(&self) -> bool;

    /// The source of the workload's device program.
    spec fn program_text(&self) -> Seq<char>;

    /// The key of the workload.
    spec fn spec_workload_key(&self) -> WorkloadKey;

    /// Writes the source of the workload's device program.
    fn get_program_src(&self) -> (src: String)
        requires
            self.ready(),
        ensures
            src@ == self.program_text(),
    ;

    /// The key under which the program is cached.
    fn workload_key(&self) -> (key: WorkloadKey)
        ensures
            key == self.spec_workload_key(),
    ;
}

} // verus!

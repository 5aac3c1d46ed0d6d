//! The host side of one round of the inner-product argument of a
//! polynomial commitment: the kernel folds two vectors of scalars and one
//! of points, each onto its left half.

use crate::cache::{can_compile, compiled, handed_out, ProgramCache};
use crate::curve::CurveGroup;
use crate::devices::{grown_for, kernels_made, make_kernels, selected, Device, KernelMaker};
use crate::error::{GPUError, GPUResult};
use crate::kernel::{SingleKernel, WorkloadKey};
use crate::knobs::{length_knob, length_or};
use crate::sources::{
    curve_source, get_prefix_map, kernel_polycommit, prefix_map_of, CurveParams, PrefixMap,
    Workload,
};
use crate::templates::Templates;
use vstd::prelude::*;

verus! {

/// The name of the knob that holds the least length for which the round
/// reduction is run on the GPU.
pub const GPU_MIN_LENGTH_KNOB: &'static str = "POLYCOMMIT_GPU_MIN_LENGTH";

/// The least length where the knob says nothing.
pub const DEFAULT_GPU_MIN_LENGTH: usize = 1024;

/// The least length of the vectors for which the round reduction is run on
/// the GPU, from the text of its knob: 1024 where the knob is not set or
/// its text is no length.
pub fn get_gpu_min_length(knob: Option<&str>) -> (min_length: usize)
    ensures
        min_length == length_knob(
            match knob {
                Some(text) => Some(text@),
                None => None,
            },
            DEFAULT_GPU_MIN_LENGTH,
        ),
{
    length_or(knob, DEFAULT_GPU_MIN_LENGTH)
}

/// The round reduction in one group, as the cache sees it.
pub struct PolycommitProgram<'a> {
    pub templates: &'a Templates,
    pub curve: &'a CurveParams,
    pub group: CurveGroup,
}

impl<'a> SingleKernel for PolycommitProgram<'a> {
    open spec fn ready(&self) -> bool {
        self.curve.wf() && self.group.spec_family() == self.curve.family
    }

    open spec fn program_text(&self) -> Seq<char> {
        curve_source(self.templates@, self.curve@, Workload::PolycommitRoundReduce, true)
    }

    open spec fn spec_workload_key(&self) -> WorkloadKey {
        WorkloadKey::Polycommit(self.group)
    }

    fn get_program_src(&self) -> (src: String) {
        kernel_polycommit(self.templates, self.curve, true)
    }

    fn workload_key(&self) -> (key: WorkloadKey) {
        WorkloadKey::Polycommit(self.group)
    }
}

/// The round reduction kernel of a single device.
pub struct PolycommitSingleKernel<P> {
    pub program: P,
    /// The symbol prefixes of the groups of the kernel's family.
    pub prefix_map: PrefixMap,
    /// The group in which the kernel works.
    pub group: CurveGroup,
}

/// One argument of the round reduction kernel.
#[derive(Clone, Copy, Debug, PartialEq, Eq, Structural)]
pub enum RoundArg {
    /// The buffer of the challenge and its inverse, as field elements.
    Challenges,
    /// The buffer of the challenge and its inverse, as big integers.
    ChallengeReprs,
    /// The length of the vector that follows.
    Length(u32),
    CLeft,
    CRight,
    ZLeft,
    ZRight,
    KLeft,
    KRight,
}

/// The shape of one launch of the round reduction kernel.
pub struct RoundLaunch {
    /// The symbol of the kernel on the device.
    pub kernel_name: String,
    /// The number of work items: one for each index of the longest vector.
    pub global_work_size: usize,
    /// The length of the two buffers that hold the challenge and its
    /// inverse.
    pub challenge_buffer_len: usize,
    /// The arguments of the kernel, in order.
    pub args: Vec<RoundArg>,
    /// The vectors that the host reads back when the kernel is done, in
    /// order: each holds the folded vector.
    pub read_back: Vec<RoundArg>,
}

/// The largest of three numbers.
pub open spec fn largest(a: nat, b: nat, c: nat) -> nat {
    let ab = if a >= b {
        a
    } else {
        b
    };
    if ab >= c {
        ab
    } else {
        c
    }
}

/// The arguments of the kernel for left vectors of the given lengths.
pub open spec fn round_args(c_len: u32, z_len: u32, k_len: u32) -> Seq<RoundArg> {
    seq![
        RoundArg::Challenges,
        RoundArg::ChallengeReprs,
        RoundArg::Length(c_len),
        RoundArg::CLeft,
        RoundArg::CRight,
        RoundArg::Length(z_len),
        RoundArg::ZLeft,
        RoundArg::ZRight,
        RoundArg::Length(k_len),
        RoundArg::KLeft,
        RoundArg::KRight,
    ]
}

impl RoundLaunch {
    /// The launch for left vectors of the given lengths, under the symbol
    /// prefix `prefix`.
    pub open spec fn is_launch_of(&self, prefix: Seq<char>, c_len: nat, z_len: nat, k_len: nat) -> bool {
        &&& self.kernel_name@ == prefix + "polycommit_round_reduce"@
        &&& self.global_work_size == largest(c_len, z_len, k_len)
        &&& self.challenge_buffer_len == 2
        &&& self.args@ == round_args(c_len as u32, z_len as u32, k_len as u32)
        &&& self.read_back@ == seq![RoundArg::CLeft, RoundArg::ZLeft, RoundArg::KLeft]
    }
}

impl<P: Copy> PolycommitSingleKernel<P> {
    /// The kernel knows the symbol prefix of its own group.
    pub open spec fn wf(&self) -> bool {
        self.prefix_map@ == prefix_map_of(self.group.spec_family())
    }

    /// The kernel that runs `program` for `group`.
    fn with_program(program: P, group: CurveGroup) -> (kernel: Self)
        ensures
            kernel.program == program,
            kernel.group == group,
            kernel.wf(),
    {
        PolycommitSingleKernel { program, prefix_map: get_prefix_map(group), group }
    }

    /// Makes the kernel of the program's group on `device`. The device's
    /// program is taken from the cache, which compiles it from the source
    /// for 64-bit limbs where it holds none.
    pub fn create<C>(
        cache: &mut ProgramCache<P>,
        device: &Device,
        round: &PolycommitProgram,
        compile: &C,
    ) -> (kernel: GPUResult<PolycommitSingleKernel<P>>) where
        C: Fn(u64, String) -> Result<P, GPUError>,

        requires
            round.ready(),
            can_compile(compile, device.id, round.program_text()),
        ensures
            match kernel {
                Ok(k) => handed_out(
                    old(cache)@,
                    final(cache)@,
                    device.id,
                    round.spec_workload_key().spec_id(),
                    k.program,
                ) && (old(cache)@.contains_key((device.id, round.spec_workload_key().spec_id()))
                    || compiled(compile, device.id, round.program_text(), Ok(k.program)))
                    && k.group == round.group && k.wf(),
                Err(e) => !old(cache)@.contains_key(
                    (device.id, round.spec_workload_key().spec_id()),
                ) && final(cache)@ == old(cache)@ && compiled(
                    compile,
                    device.id,
                    round.program_text(),
                    Err(e),
                ),
            },
    {
        match cache.get_program(device.id, round, compile) {
            Ok(program) => Ok(Self::with_program(*program, round.group)),
            Err(e) => Err(e),
        }
    }

    /// The launch that folds left vectors of `c_len`, `z_len` and `k_len`
    /// elements: the kernel of the group, one work item for each index of
    /// the longest vector, and the arguments in the kernel's order.
    pub fn polycommit_round_reduce(&self, c_len: usize, z_len: usize, k_len: usize) -> (launch: RoundLaunch)
        requires
            self.wf(),
            c_len <= u32::MAX,
            z_len <= u32::MAX,
            k_len <= u32::MAX,
        ensures
            launch.is_launch_of(self.group.prefix_text(), c_len as nat, z_len as nat, k_len as nat),
    {
        let mut global_work_size = if c_len >= z_len {
            c_len
        } else {
            z_len
        };
        if k_len > global_work_size {
            global_work_size = k_len;
        }
        let kernel_name = self.prefix_map.kernel_name(self.group, "polycommit_round_reduce");
        let mut args: Vec<RoundArg> = Vec::new();
        args.push(RoundArg::Challenges);
        args.push(RoundArg::ChallengeReprs);
        args.push(RoundArg::Length(c_len as u32));
        args.push(RoundArg::CLeft);
        args.push(RoundArg::CRight);
        args.push(RoundArg::Length(z_len as u32));
        args.push(RoundArg::ZLeft);
        args.push(RoundArg::ZRight);
        args.push(RoundArg::Length(k_len as u32));
        args.push(RoundArg::KLeft);
        args.push(RoundArg::KRight);
        let mut read_back: Vec<RoundArg> = Vec::new();
        read_back.push(RoundArg::CLeft);
        read_back.push(RoundArg::ZLeft);
        read_back.push(RoundArg::KLeft);
        assert(args@ =~= round_args(c_len as u32, z_len as u32, k_len as u32));
        assert(read_back@ =~= seq![RoundArg::CLeft, RoundArg::ZLeft, RoundArg::KLeft]);
        RoundLaunch { kernel_name, global_work_size, challenge_buffer_len: 2, args, read_back }
    }
}

/// Makes round reduction kernels for one group.
pub struct PolycommitMaker {
    pub group: CurveGroup,
}

impl<P: Copy> KernelMaker<P> for PolycommitMaker {
    type Kernel = PolycommitSingleKernel<P>;

    open spec fn can_make(&self, device: Device) -> bool {
        true
    }

    open spec fn made(&self, program: P, device: Device, kernel: PolycommitSingleKernel<P>) -> bool {
        kernel.program == program && kernel.group == self.group && kernel.wf()
    }

    fn make(&self, program: P, device: &Device) -> (kernel: PolycommitSingleKernel<P>) {
        PolycommitSingleKernel::with_program(program, self.group)
    }
}

/// Makes the kernels of the round reduction: one for the first device, the
/// others are not used. The program comes from the cache, which compiles
/// it where it holds none. The call fails only where the first device has
/// no program and `compile` fails for it, or where there is no device.
pub fn get_kernels<P: Copy, C>(
    cache: &mut ProgramCache<P>,
    devices: Vec<Device>,
    round: &PolycommitProgram,
    compile: &C,
) -> (kernels: GPUResult<Vec<PolycommitSingleKernel<P>>>) where
    C: Fn(u64, String) -> Result<P, GPUError>,

    requires
        round.ready(),
        forall|i: int|
            0 <= i < devices@.len() ==> can_compile(
                compile,
                (#[trigger] devices@[i]).id,
                round.program_text(),
            ),
    ensures
        grown_for(
            old(cache)@,
            final(cache)@,
            selected(devices@, true),
            selected(devices@, true).len() as int,
            round,
            compile,
        ),
        kernels_made(
            kernels,
            old(cache)@,
            final(cache)@,
            selected(devices@, true),
            round,
            &(PolycommitMaker { group: round.group }),
            compile,
        ),
{
    let maker = PolycommitMaker { group: round.group };
    make_kernels(cache, devices, true, round, &maker, compile)
}

} // verus!

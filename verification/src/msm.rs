//! The host engine of multi-scalar multiplication by Pippenger's method:
//! the chunk size of a device, the shape of a kernel launch for a window
//! size, and the order in which the host folds the kernel's partial sums.

use crate::cache::{can_compile, compiled, handed_out, ProgramCache};
use crate::curve::CurveGroup;
use crate::devices::{grown_for, kernels_made, make_kernels, Device, KernelMaker};
use crate::error::{GPUError, GPUResult};
use crate::kernel::{SingleKernel, WorkloadKey};
use crate::knobs::{length_knob, length_or};
use crate::powers::{lemma_one_shifted_usize, lemma_pow2_fits};
use crate::sources::{
    curve_source, get_prefix_map, kernel_multiexp, prefix_map_of, CurveParams, PrefixMap, Workload,
};
use crate::templates::Templates;
use vstd::arithmetic::power2::{
    lemma2_to64, lemma_pow2_adds, lemma_pow2_strictly_increases, pow2,
};
use vstd::prelude::*;

verus! {

/// Windows are at most 10 bits wide.
pub const MAX_WINDOW_SIZE: usize = 10;

/// The number of work items is a multiple of 256.
pub const LOCAL_WORK_SIZE: usize = 256;

/// The name of the knob that holds the least number of points for which
/// the GPU is used.
pub const GPU_MIN_LENGTH_KNOB: &'static str = "MSM_GPU_MIN_LENGTH";

/// The name of the knob that holds the share of the points that the host
/// keeps for itself.
pub const CPU_UTILIZATION_KNOB: &'static str = "MSM_CPU_UTILIZATION";

/// The least number of points for which the GPU is used, from the text of
/// its knob: zero where the knob is not set or its text is no length.
pub fn get_gpu_min_length(knob: Option<&str>) -> (min_length: usize)
    ensures
        min_length == length_knob(
            match knob {
                Some(text) => Some(text@),
                None => None,
            },
            0,
        ),
{
    length_or(knob, 0)
}

/// The sizes in bytes of the host's values of one group.
#[derive(Clone, Copy, Debug, PartialEq, Eq, Structural)]
pub struct GroupLayout {
    /// The size of a point in affine form.
    pub affine_size: usize,
    /// The size of a point in projective form.
    pub projective_size: usize,
    /// The size of a scalar's big integer.
    pub scalar_size: usize,
}

/// Multi-scalar multiplication in one group, as the cache sees it.
pub struct MultiexpProgram<'a> {
    pub templates: &'a Templates,
    pub curve: &'a CurveParams,
    pub group: CurveGroup,
}

impl<'a> SingleKernel for MultiexpProgram<'a> {
    open spec fn ready(&self) -> bool {
        self.curve.wf() && self.group.spec_family() == self.curve.family
    }

    open spec fn program_text(&self) -> Seq<char> {
        curve_source(self.templates@, self.curve@, Workload::Multiexp, true)
    }

    open spec fn spec_workload_key(&self) -> WorkloadKey {
        WorkloadKey::Multiexp(self.group)
    }

    fn get_program_src(&self) -> (src: String) {
        kernel_multiexp(self.templates, self.curve, true)
    }

    fn workload_key(&self) -> (key: WorkloadKey) {
        WorkloadKey::Multiexp(self.group)
    }
}

/// The quotient of `a` by `b`, rounded up.
pub open spec fn ceil_div(a: nat, b: nat) -> nat {
    ((a + b - 1) / (b as int)) as nat
}

/// The part of a device's memory that the kernel may use: four fifths,
/// the rest is left free.
pub open spec fn usable_memory(mem: nat) -> nat {
    (mem * 4) / 5
}

/// The memory taken by the buckets and results of all threads: each of the
/// `2 * core_count` threads has a bucket for every value of a window of the
/// largest size, and one result.
pub open spec fn reserved_memory(core_count: nat, projective_size: nat) -> nat {
    2 * core_count * (pow2(MAX_WINDOW_SIZE as nat) + 1) * projective_size
}

/// The number of points, each with its scalar, that fit into the memory
/// that is left.
pub open spec fn chunk_size(mem: nat, core_count: nat, layout: GroupLayout) -> nat {
    ((usable_memory(mem) - reserved_memory(core_count, layout.projective_size as nat)) / (
    layout.affine_size + layout.scalar_size)) as nat
}

/// The chunk size is defined: the buckets fit into the usable memory, a
/// point with its scalar takes room, and every intermediate number is a
/// machine number.
pub open spec fn chunk_size_defined(mem: nat, core_count: nat, layout: GroupLayout) -> bool {
    &&& usable_memory(mem) <= usize::MAX
    &&& reserved_memory(core_count, layout.projective_size as nat) <= usable_memory(mem)
    &&& layout.affine_size + layout.scalar_size <= usize::MAX
    &&& layout.affine_size + layout.scalar_size > 0
}

/// The number of thread groups for windows that take `num_windows`
/// threads each: about `2 * core_count` threads in all.
pub open spec fn group_count(core_count: nat, num_windows: nat) -> nat {
    (2 * core_count) / num_windows
}

/// The smallest multiple of the local work size that is not below `count`.
pub open spec fn padded(count: nat) -> nat {
    count + ((LOCAL_WORK_SIZE - count % (LOCAL_WORK_SIZE as nat)) % (LOCAL_WORK_SIZE as int)) as nat
}

/// The width of window `i`, counted from the most significant: the window
/// size, or what is left of the scalar for the last window.
pub open spec fn window_width(scalar_bits: nat, window_size: nat, i: nat) -> nat {
    let done = i * window_size;
    if done >= scalar_bits {
        0
    } else if scalar_bits - done < window_size {
        (scalar_bits - done) as nat
    } else {
        window_size
    }
}

/// The bits covered by the first `count` windows.
pub open spec fn bits_covered(scalar_bits: nat, window_size: nat, count: nat) -> nat
    decreases count,
{
    if count == 0 {
        0
    } else {
        bits_covered(scalar_bits, window_size, (count - 1) as nat) + window_width(
            scalar_bits,
            window_size,
            (count - 1) as nat,
        )
    }
}

/// The quotient rounded up is the quotient, and one more where the
/// division leaves a remainder; it is the least number of parts of size
/// `b` that hold `a`.
proof fn lemma_ceil_div(a: nat, b: nat)
    requires
        b > 0,
    ensures
        ceil_div(a, b) == a / b + if a % b == 0 {
            0nat
        } else {
            1nat
        },
        (ceil_div(a, b) - 1) * b < a || a == 0,
        a <= ceil_div(a, b) * b,
{
    let q = a / b;
    let r = a % b;
    assert(a == q * b + r) by (nonlinear_arith)
        requires
            b > 0,
            q == a / b,
            r == a % b,
    ;
    if r == 0 {
        assert((a + b - 1) / (b as int) == q) by (nonlinear_arith)
            requires
                b > 0,
                a == q * b,
        ;
    } else {
        assert((a + b - 1) / (b as int) == q + 1) by (nonlinear_arith)
            requires
                b > 0,
                a == q * b + r,
                0 < r < b,
        ;
    }
    assert((ceil_div(a, b) - 1) * b < a || a == 0) by (nonlinear_arith)
        requires
            b > 0,
            a == q * b + r,
            0 <= r < b,
            ceil_div(a, b) == q + if r == 0 {
                0nat
            } else {
                1nat
            },
    ;
    assert(a <= ceil_div(a, b) * b) by (nonlinear_arith)
        requires
            b > 0,
            a == q * b + r,
            0 <= r < b,
            ceil_div(a, b) == q + if r == 0 {
                0nat
            } else {
                1nat
            },
    ;
}

/// The windows of a scalar cover each of its bits once: the widths of all
/// `ceil(scalar_bits / window_size)` windows add up to `scalar_bits`.
pub proof fn lemma_windows_cover_the_scalar(scalar_bits: nat, window_size: nat)
    requires
        window_size > 0,
    ensures
        bits_covered(scalar_bits, window_size, ceil_div(scalar_bits, window_size)) == scalar_bits,
{
    lemma_ceil_div(scalar_bits, window_size);
    lemma_covered_prefix(scalar_bits, window_size, ceil_div(scalar_bits, window_size));
    let count = ceil_div(scalar_bits, window_size);
    assert(count * window_size >= scalar_bits);
}

/// The first `count` windows cover `count * window_size` bits, or the whole
/// scalar where that is less.
proof fn lemma_covered_prefix(scalar_bits: nat, window_size: nat, count: nat)
    requires
        window_size > 0,
    ensures
        bits_covered(scalar_bits, window_size, count) == if count * window_size <= scalar_bits {
            count * window_size
        } else {
            scalar_bits
        },
    decreases count,
{
    if count > 0 {
        let before = (count - 1) as nat;
        lemma_covered_prefix(scalar_bits, window_size, before);
        assert(count * window_size == before * window_size + window_size) by (nonlinear_arith)
            requires
                count == before + 1,
        ;
    } else {
        assert(count * window_size == 0) by (nonlinear_arith)
            requires
                count == 0,
        ;
    }
}

/// The number of thread groups, for windows that take `num_windows`
/// threads each.
pub fn calc_num_groups(core_count: usize, num_windows: usize) -> (num_groups: usize)
    requires
        num_windows > 0,
        2 * core_count <= usize::MAX,
    ensures
        num_groups == group_count(core_count as nat, num_windows as nat),
{
    2 * core_count / num_windows
}

/// Whether the chunk size of a device is defined.
pub fn can_calc_chunk_size(mem: u64, core_count: usize, layout: &GroupLayout) -> (defined: bool)
    ensures
        defined == chunk_size_defined(mem as nat, core_count as nat, *layout),
{
    proof {
        lemma2_to64();
    }
    let usable: u64 = mem / 5 * 4 + (mem % 5) * 4 / 5;
    assert(usable == usable_memory(mem as nat));
    if usable > usize::MAX as u64 {
        return false;
    }
    let per_point = match layout.affine_size.checked_add(layout.scalar_size) {
        Some(s) => s,
        None => {
            return false;
        },
    };
    if per_point == 0 {
        return false;
    }
    if layout.projective_size == 0 {
        assert(reserved_memory(core_count as nat, 0) == 0) by (nonlinear_arith)
            requires
                reserved_memory(core_count as nat, 0) == 2 * core_count * 1025 * 0,
        ;
        return true;
    }
    proof {
        let reserved = reserved_memory(core_count as nat, layout.projective_size as nat);
        assert(2 * core_count * 1025 <= reserved && 2 * core_count <= reserved)
            by (nonlinear_arith)
            requires
                reserved == 2 * core_count * 1025 * layout.projective_size,
                layout.projective_size > 0,
        ;
    }
    let threads = match core_count.checked_mul(2) {
        Some(t) => t,
        None => {
            return false;
        },
    };
    let buckets = match threads.checked_mul(1025) {
        Some(b) => b,
        None => {
            return false;
        },
    };
    match buckets.checked_mul(layout.projective_size) {
        Some(reserved) => reserved as u64 <= usable,
        None => false,
    }
}

/// The largest number of points, each with its scalar, that the device can
/// hold beside the buckets and results of all its threads.
pub fn calc_chunk_size(mem: u64, core_count: usize, layout: &GroupLayout) -> (max_n: usize)
    requires
        chunk_size_defined(mem as nat, core_count as nat, *layout),
    ensures
        max_n == chunk_size(mem as nat, core_count as nat, *layout),
{
    proof {
        lemma2_to64();
        let reserved = reserved_memory(core_count as nat, layout.projective_size as nat);
        assert(reserved == 2 * core_count * 1025 * layout.projective_size);
        if layout.projective_size > 0 {
            assert(2 * core_count * 1025 <= reserved && 2 * core_count <= reserved)
                by (nonlinear_arith)
                requires
                    reserved == 2 * core_count * 1025 * layout.projective_size,
                    layout.projective_size > 0,
            ;
        }
    }
    let usable: usize = (mem / 5 * 4 + (mem % 5) * 4 / 5) as usize;
    if layout.projective_size == 0 {
        assert(reserved_memory(core_count as nat, 0) == 0) by (nonlinear_arith)
            requires
                reserved_memory(core_count as nat, 0) == 2 * core_count * 1025 * 0,
        ;
        return usable / (layout.affine_size + layout.scalar_size);
    }
    let reserved = 2 * core_count * 1025 * layout.projective_size;
    (usable - reserved) / (layout.affine_size + layout.scalar_size)
}

/// The multi-scalar multiplication kernel of a single device.
pub struct SingleMSMKernel<P> {
    pub program: P,
    /// The device on which the kernel runs.
    pub device: u64,
    /// The number of cores of the device.
    pub core_count: usize,
    /// The number of points that one launch handles.
    pub n: usize,
    /// The symbol prefixes of the groups of the kernel's family.
    pub prefix_map: PrefixMap,
    /// The group in which the kernel works.
    pub group: CurveGroup,
    /// The width of a scalar in bits.
    pub scalar_bits: usize,
}

/// One argument of the multi-scalar multiplication kernel.
#[derive(Clone, Copy, Debug, PartialEq, Eq, Structural)]
pub enum MsmArg {
    /// The buffer of the points.
    Bases,
    /// The buffer of the buckets of all threads.
    Buckets,
    /// The buffer of the results of all threads.
    Results,
    /// The buffer of the scalars.
    Scalars,
    /// The number of points.
    N(u32),
    NumGroups(u32),
    NumWindows(u32),
    WindowSize(u32),
}

/// The arguments of the kernel, in the kernel's order.
pub open spec fn msm_args(n: u32, num_groups: u32, num_windows: u32, window_size: u32) -> Seq<MsmArg> {
    seq![
        MsmArg::Bases,
        MsmArg::Buckets,
        MsmArg::Results,
        MsmArg::Scalars,
        MsmArg::N(n),
        MsmArg::NumGroups(num_groups),
        MsmArg::NumWindows(num_windows),
        MsmArg::WindowSize(window_size),
    ]
}

/// The shape of one launch of the multi-scalar multiplication kernel.
pub struct MsmLaunch {
    /// The arguments of the kernel, in order.
    pub args: Vec<MsmArg>,
    /// The symbol of the kernel on the device.
    pub kernel_name: String,
    /// The number of points and of scalars.
    pub n: usize,
    /// The width of a window in bits.
    pub window_size: usize,
    /// The number of windows of a scalar.
    pub num_windows: usize,
    /// The number of thread groups; each takes a share of the points.
    pub num_groups: usize,
    /// The number of buckets of a thread.
    pub bucket_len: usize,
    /// The length of the device buffer of buckets, in points.
    pub bucket_buffer_len: usize,
    /// The length of the device buffer of results, in points.
    pub result_buffer_len: usize,
    /// The number of work items of the launch.
    pub global_work_size: usize,
    /// The number of results that the host reads back: one for each thread.
    pub results_len: usize,
    /// The width of a scalar in bits.
    pub scalar_bits: usize,
}

/// One window of the host's fold over the results: the accumulator is
/// doubled `doublings` times, then the results `first_result`,
/// `first_result + stride`, ... are added to it, `count` of them.
#[derive(Clone, Copy, Debug, PartialEq, Eq, Structural)]
pub struct WindowStep {
    pub doublings: usize,
    pub first_result: usize,
    pub stride: usize,
    pub count: usize,
}

impl MsmLaunch {
    /// The launch of a kernel with `core_count` cores for `n` points,
    /// scalars of `scalar_bits` bits and windows of `window_size` bits,
    /// under the symbol prefix `prefix`.
    pub open spec fn is_launch_of(
        &self,
        core_count: nat,
        scalar_bits: nat,
        prefix: Seq<char>,
        n: nat,
        window_size: nat,
    ) -> bool {
        let num_windows = ceil_div(scalar_bits, window_size);
        let num_groups = group_count(core_count, num_windows);
        &&& self.kernel_name@ == prefix + "bellman_multiexp"@
        &&& self.args@ == msm_args(
            n as u32,
            num_groups as u32,
            num_windows as u32,
            window_size as u32,
        )
        &&& self.n == n
        &&& self.window_size == window_size
        &&& self.num_windows == num_windows
        &&& self.num_groups == num_groups
        &&& self.bucket_len == pow2(window_size)
        &&& self.bucket_buffer_len == 2 * core_count * pow2(window_size)
        &&& self.result_buffer_len == 2 * core_count
        &&& self.global_work_size == padded(num_windows * num_groups)
        &&& self.results_len == num_groups * num_windows
        &&& self.scalar_bits == scalar_bits
    }

    /// The step of window `i` of the fold.
    pub open spec fn step(&self, i: int) -> WindowStep {
        WindowStep {
            doublings: window_width(self.scalar_bits as nat, self.window_size as nat, i as nat) as usize,
            first_result: i as usize,
            stride: self.num_windows,
            count: self.num_groups,
        }
    }

    /// The launch has windows of at least one bit and as many of them as
    /// the scalar needs, and its results are one for each thread.
    pub open spec fn wf(&self) -> bool {
        &&& self.window_size >= 1
        &&& self.num_windows == ceil_div(self.scalar_bits as nat, self.window_size as nat)
        &&& self.results_len == self.num_groups * self.num_windows
    }

    /// The fold of the results on the host, window by window from the most
    /// significant: the doublings of all windows are as many as the scalar
    /// has bits, and every result that a step names has been read back.
    pub fn accumulation(&self) -> (steps: Vec<WindowStep>)
        requires
            self.wf(),
        ensures
            steps@.len() == self.num_windows,
            forall|i: int| 0 <= i < steps@.len() ==> #[trigger] steps@[i] == self.step(i),
            bits_covered(
                self.scalar_bits as nat,
                self.window_size as nat,
                self.num_windows as nat,
            ) == self.scalar_bits,
            forall|i: int, g: int|
                0 <= i < self.num_windows && 0 <= g < self.num_groups ==> 0 <= #[trigger] (i + g
                    * self.num_windows) < self.results_len,
    {
        proof {
            lemma_windows_cover_the_scalar(self.scalar_bits as nat, self.window_size as nat);
            assert forall|i: int, g: int|
                0 <= i < self.num_windows && 0 <= g < self.num_groups implies 0 <= #[trigger] (i + g
                * self.num_windows) < self.results_len by {
                assert(i + g * self.num_windows < self.num_groups * self.num_windows)
                    by (nonlinear_arith)
                    requires
                        0 <= i < self.num_windows,
                        0 <= g < self.num_groups,
                ;
            }
        }
        let mut steps: Vec<WindowStep> = Vec::new();
        let mut bits: usize = 0;
        let mut i: usize = 0;
        while i < self.num_windows
            invariant
                i <= self.num_windows,
                self.window_size >= 1,
                steps@.len() == i,
                bits <= self.scalar_bits,
                bits == bits_covered(self.scalar_bits as nat, self.window_size as nat, i as nat),
                forall|k: int| 0 <= k < i ==> #[trigger] steps@[k] == self.step(k),
            decreases self.num_windows - i,
        {
            let left = self.scalar_bits - bits;
            let w = if self.window_size < left {
                self.window_size
            } else {
                left
            };
            proof {
                lemma_covered_prefix(self.scalar_bits as nat, self.window_size as nat, i as nat);
                assert(w == window_width(self.scalar_bits as nat, self.window_size as nat, i as nat));
            }
            steps.push(
                WindowStep {
                    doublings: w,
                    first_result: i,
                    stride: self.num_windows,
                    count: self.num_groups,
                },
            );
            bits += w;
            i += 1;
        }
        steps
    }
}

/// `end` comes from `start` by `times` doublings.
pub open spec fn doubled<T, D: Fn(T) -> T>(double: &D, start: T, times: nat, end: T) -> bool
    decreases times,
{
    if times == 0 {
        end == start
    } else {
        exists|mid: T|
            doubled(double, start, (times - 1) as nat, mid) && #[trigger] double.ensures(
                (mid,),
                end,
            )
    }
}

/// `end` comes from `start` by adding the results `first`,
/// `first + stride`, ..., `count` of them, one after the other.
pub open spec fn summed<T, R, A: Fn(T, &R) -> T>(
    plus: &A,
    results: Seq<R>,
    first: int,
    stride: int,
    start: T,
    count: nat,
    end: T,
) -> bool
    decreases count,
{
    if count == 0 {
        end == start
    } else {
        exists|mid: T|
            summed(plus, results, first, stride, start, (count - 1) as nat, mid)
                && #[trigger] plus.ensures((mid, &results[first + (count - 1) * stride]), end)
    }
}

/// `end` comes from `zero` by the first `windows` steps of the fold: in
/// each, the accumulator is doubled once for every bit of the window, and
/// then the window's result of every group is added.
pub open spec fn folded<T, R, D: Fn(T) -> T, A: Fn(T, &R) -> T>(
    launch: &MsmLaunch,
    double: &D,
    plus: &A,
    results: Seq<R>,
    zero: T,
    windows: nat,
    end: T,
) -> bool
    decreases windows,
{
    if windows == 0 {
        end == zero
    } else {
        exists|before: T, shifted: T|
            folded(launch, double, plus, results, zero, (windows - 1) as nat, before)
                && #[trigger] doubled(
                double,
                before,
                window_width(
                    launch.scalar_bits as nat,
                    launch.window_size as nat,
                    (windows - 1) as nat,
                ),
                shifted,
            ) && summed(
                plus,
                results,
                windows - 1,
                launch.num_windows as int,
                shifted,
                launch.num_groups as nat,
                end,
            )
    }
}

/// One more doubling extends a run of doublings.
proof fn lemma_doubled_once_more<T, D: Fn(T) -> T>(double: &D, start: T, times: nat, mid: T, end: T)
    requires
        doubled(double, start, times, mid),
        double.ensures((mid,), end),
    ensures
        doubled(double, start, times + 1, end),
{
    let next = (times + 1) as nat;
    assert(doubled(double, start, (next - 1) as nat, mid));
}

/// One more addition extends a run of additions.
proof fn lemma_summed_once_more<T, R, A: Fn(T, &R) -> T>(
    plus: &A,
    results: Seq<R>,
    first: int,
    stride: int,
    start: T,
    count: nat,
    mid: T,
    end: T,
)
    requires
        summed(plus, results, first, stride, start, count, mid),
        plus.ensures((mid, &results[first + count * stride]), end),
    ensures
        summed(plus, results, first, stride, start, count + 1, end),
{
    let next = (count + 1) as nat;
    assert(summed(plus, results, first, stride, start, (next - 1) as nat, mid));
    assert(first + (next - 1) * stride == first + count * stride);
}

/// One more window extends the fold.
proof fn lemma_folded_once_more<T, R, D: Fn(T) -> T, A: Fn(T, &R) -> T>(
    launch: &MsmLaunch,
    double: &D,
    plus: &A,
    results: Seq<R>,
    zero: T,
    windows: nat,
    before: T,
    shifted: T,
    end: T,
)
    requires
        folded(launch, double, plus, results, zero, windows, before),
        doubled(
            double,
            before,
            window_width(launch.scalar_bits as nat, launch.window_size as nat, windows),
            shifted,
        ),
        summed(
            plus,
            results,
            windows as int,
            launch.num_windows as int,
            shifted,
            launch.num_groups as nat,
            end,
        ),
    ensures
        folded(launch, double, plus, results, zero, windows + 1, end),
{
    let next = (windows + 1) as nat;
    assert(folded(launch, double, plus, results, zero, (next - 1) as nat, before));
    assert(doubled(
        double,
        before,
        window_width(launch.scalar_bits as nat, launch.window_size as nat, (next - 1) as nat),
        shifted,
    ));
}

/// The sum of the weights `first`, `first + stride`, ..., `count` of them.
pub open spec fn column_sum(weights: Seq<int>, first: int, stride: int, count: nat) -> int
    decreases count,
{
    if count == 0 {
        0
    } else {
        column_sum(weights, first, stride, (count - 1) as nat) + weights[first + (count - 1)
            * stride]
    }
}

/// The sum over the first `windows` windows of the window's column of
/// weights, each column shifted left by the bits of the windows that follow
/// it up to bit `top`.
pub open spec fn shifted_columns(launch: &MsmLaunch, weights: Seq<int>, top: nat, windows: nat) -> int
    decreases windows,
{
    if windows == 0 {
        0
    } else {
        shifted_columns(launch, weights, top, (windows - 1) as nat) + pow2(
            (top - bits_covered(launch.scalar_bits as nat, launch.window_size as nat, windows)) as nat,
        ) * column_sum(
            weights,
            windows - 1,
            launch.num_windows as int,
            launch.num_groups as nat,
        )
    }
}

/// The weights of the results.
pub open spec fn weights_of<R>(results: Seq<R>, weight: spec_fn(R) -> int) -> Seq<int> {
    Seq::new(results.len(), |i: int| weight(results[i]))
}

/// A run of doublings multiplies the value by a power of two.
proof fn lemma_doubled_value<T, D: Fn(T) -> T>(
    double: &D,
    start: T,
    times: nat,
    end: T,
    value: spec_fn(T) -> int,
)
    requires
        forall|x: T, y: T| #[trigger] double.ensures((x,), y) ==> value(y) == 2 * value(x),
        doubled(double, start, times, end),
    ensures
        value(end) == pow2(times) * value(start),
    decreases times,
{
    lemma2_to64();
    if times > 0 {
        let mid = choose|mid: T|
            doubled(double, start, (times - 1) as nat, mid) && #[trigger] double.ensures(
                (mid,),
                end,
            );
        lemma_doubled_value(double, start, (times - 1) as nat, mid, value);
        vstd::arithmetic::power2::lemma_pow2_unfold(times);
        let below = pow2((times - 1) as nat) as int;
        let whole = pow2(times) as int;
        let v = value(start);
        assert(value(mid) == below * v);
        assert(value(end) == 2 * value(mid));
        assert(whole == 2 * below);
        assert(2 * (below * v) == whole * v) by (nonlinear_arith)
            requires
                whole == 2 * below,
        ;
    } else {
        assert(end == start);
        assert(pow2(0) * value(start) == value(start));
    }
}

/// A run of additions adds the weights of the results that it names.
proof fn lemma_summed_value<T, R, A: Fn(T, &R) -> T>(
    plus: &A,
    results: Seq<R>,
    first: int,
    stride: int,
    start: T,
    count: nat,
    end: T,
    value: spec_fn(T) -> int,
    weight: spec_fn(R) -> int,
)
    requires
        forall|x: T, r: &R, y: T| #[trigger]
            plus.ensures((x, r), y) ==> value(y) == value(x) + weight(*r),
        forall|g: int| 0 <= g < count ==> 0 <= #[trigger] (first + g * stride) < results.len(),
        summed(plus, results, first, stride, start, count, end),
    ensures
        value(end) == value(start) + column_sum(weights_of(results, weight), first, stride, count),
    decreases count,
{
    if count > 0 {
        let mid = choose|mid: T|
            summed(plus, results, first, stride, start, (count - 1) as nat, mid)
                && #[trigger] plus.ensures((mid, &results[first + (count - 1) * stride]), end);
        lemma_summed_value(
            plus,
            results,
            first,
            stride,
            start,
            (count - 1) as nat,
            mid,
            value,
            weight,
        );
        assert(0 <= first + (count - 1) * stride < results.len());
    }
}

/// Raising the top bit by `more` multiplies the shifted columns by
/// `2^more`.
proof fn lemma_shift_further(launch: &MsmLaunch, weights: Seq<int>, top: nat, more: nat, windows: nat)
    requires
        bits_covered(launch.scalar_bits as nat, launch.window_size as nat, windows) <= top,
        launch.window_size > 0,
    ensures
        shifted_columns(launch, weights, top + more, windows) == pow2(more) * shifted_columns(
            launch,
            weights,
            top,
            windows,
        ),
    decreases windows,
{
    if windows > 0 {
        let before = (windows - 1) as nat;
        lemma_shift_further(launch, weights, top, more, before);
        let covered = bits_covered(launch.scalar_bits as nat, launch.window_size as nat, windows);
        lemma_pow2_adds(more, (top - covered) as nat);
        let column = column_sum(
            weights,
            windows - 1,
            launch.num_windows as int,
            launch.num_groups as nat,
        );
        let rest = shifted_columns(launch, weights, top, before);
        let low = pow2((top - covered) as nat) as int;
        let factor = pow2(more) as int;
        assert((top + more - covered) as nat == more + (top - covered) as nat);
        assert(factor * rest + (factor * low) * column == factor * (rest + low * column))
            by (nonlinear_arith);
    } else {
        assert(pow2(more) * 0 == 0);
    }
}

/// What the fold computes, in any reading of the points as numbers in
/// which doubling doubles and adding adds: the sum over the windows of the
/// window's results, each window shifted left by the bits of the windows
/// below it.
pub proof fn lemma_fold_adds_the_shifted_windows<T, R, D: Fn(T) -> T, A: Fn(T, &R) -> T>(
    launch: &MsmLaunch,
    double: &D,
    plus: &A,
    results: Seq<R>,
    zero: T,
    windows: nat,
    end: T,
    value: spec_fn(T) -> int,
    weight: spec_fn(R) -> int,
)
    requires
        launch.wf(),
        windows <= launch.num_windows,
        results.len() >= launch.results_len,
        value(zero) == 0,
        forall|x: T, y: T| #[trigger] double.ensures((x,), y) ==> value(y) == 2 * value(x),
        forall|x: T, r: &R, y: T| #[trigger]
            plus.ensures((x, r), y) ==> value(y) == value(x) + weight(*r),
        folded(launch, double, plus, results, zero, windows, end),
    ensures
        value(end) == shifted_columns(
            launch,
            weights_of(results, weight),
            bits_covered(launch.scalar_bits as nat, launch.window_size as nat, windows),
            windows,
        ),
    decreases windows,
{
    if windows > 0 {
        let last = (windows - 1) as nat;
        let width = window_width(launch.scalar_bits as nat, launch.window_size as nat, last);
        let (before, shifted) = choose|before: T, shifted: T|
            folded(launch, double, plus, results, zero, (windows - 1) as nat, before)
                && #[trigger] doubled(
                double,
                before,
                window_width(
                    launch.scalar_bits as nat,
                    launch.window_size as nat,
                    (windows - 1) as nat,
                ),
                shifted,
            ) && summed(
                plus,
                results,
                windows - 1,
                launch.num_windows as int,
                shifted,
                launch.num_groups as nat,
                end,
            );
        lemma_fold_adds_the_shifted_windows(
            launch,
            double,
            plus,
            results,
            zero,
            last,
            before,
            value,
            weight,
        );
        lemma_doubled_value(double, before, width, shifted, value);
        assert forall|g: int| 0 <= g < launch.num_groups implies 0 <= #[trigger] (last + g
            * launch.num_windows) < results.len() by {
            assert(last + g * launch.num_windows < launch.num_groups * launch.num_windows)
                by (nonlinear_arith)
                requires
                    0 <= last < launch.num_windows,
                    0 <= g < launch.num_groups,
            ;
        }
        lemma_summed_value(
            plus,
            results,
            last as int,
            launch.num_windows as int,
            shifted,
            launch.num_groups as nat,
            end,
            value,
            weight,
        );
        let weights = weights_of(results, weight);
        let covered_before = bits_covered(
            launch.scalar_bits as nat,
            launch.window_size as nat,
            last,
        );
        let covered = bits_covered(launch.scalar_bits as nat, launch.window_size as nat, windows);
        assert(covered == covered_before + width);
        lemma_shift_further(launch, weights, covered_before, width, last);
        lemma2_to64();
        assert(pow2((covered - covered) as nat) == 1);
    }
}

impl MsmLaunch {
    /// Folds the results of the kernel into the sum, window by window from
    /// the most significant: the accumulator starts as `zero`, is doubled
    /// once for every bit of a window, and then takes the window's result
    /// of every group.
    pub fn accumulate<T, R, D, A>(&self, zero: T, results: &Vec<R>, double: &D, plus: &A) -> (acc: T) where
        D: Fn(T) -> T,
        A: Fn(T, &R) -> T,

        requires
            self.wf(),
            results@.len() >= self.results_len,
            forall|t: T| double.requires((t,)),
            forall|t: T, r: &R| plus.requires((t, r)),
        ensures
            folded(self, double, plus, results@, zero, self.num_windows as nat, acc),
    {
        let steps = self.accumulation();
        let mut acc = zero;
        let mut i: usize = 0;
        while i < steps.len()
            invariant
                i <= steps@.len(),
                steps@.len() == self.num_windows,
                results@.len() >= self.results_len,
                forall|k: int| 0 <= k < steps@.len() ==> #[trigger] steps@[k] == self.step(k),
                forall|k: int, g: int|
                    0 <= k < self.num_windows && 0 <= g < self.num_groups ==> 0 <= #[trigger] (k + g
                        * self.num_windows) < self.results_len,
                forall|t: T| double.requires((t,)),
                forall|t: T, r: &R| plus.requires((t, r)),
                folded(self, double, plus, results@, zero, i as nat, acc),
            decreases steps@.len() - i,
        {
            let step = steps[i];
            let ghost before = acc;
            assert(step == self.step(i as int));
            let mut d: usize = 0;
            while d < step.doublings
                invariant
                    d <= step.doublings,
                    forall|t: T| double.requires((t,)),
                    doubled(double, before, d as nat, acc),
                decreases step.doublings - d,
            {
                let ghost mid = acc;
                acc = double(acc);
                proof {
                    lemma_doubled_once_more(double, before, d as nat, mid, acc);
                }
                d += 1;
            }
            let ghost shifted = acc;
            let mut g: usize = 0;
            while g < step.count
                invariant
                    g <= step.count,
                    step == self.step(i as int),
                    i < self.num_windows,
                    results@.len() >= self.results_len,
                    forall|k: int, g: int|
                        0 <= k < self.num_windows && 0 <= g < self.num_groups ==> 0 <= #[trigger] (k
                            + g * self.num_windows) < self.results_len,
                    forall|t: T, r: &R| plus.requires((t, r)),
                    summed(plus, results@, i as int, self.num_windows as int, shifted, g as nat, acc),
                decreases step.count - g,
            {
                assert(0 <= i + g * self.num_windows < self.results_len);
                let ghost mid = acc;
                acc = plus(acc, &results[step.first_result + g * step.stride]);
                proof {
                    lemma_summed_once_more(
                        plus,
                        results@,
                        i as int,
                        self.num_windows as int,
                        shifted,
                        g as nat,
                        mid,
                        acc,
                    );
                }
                g += 1;
            }
            proof {
                lemma_folded_once_more(
                    self,
                    double,
                    plus,
                    results@,
                    zero,
                    i as nat,
                    before,
                    shifted,
                    acc,
                );
            }
            i += 1;
        }
        acc
    }
}

impl<P: Copy> SingleMSMKernel<P> {
    /// The kernel knows the symbol prefix of its own group.
    pub open spec fn wf(&self) -> bool {
        self.prefix_map@ == prefix_map_of(self.group.spec_family())
    }

    /// The kernel of `group` on `device` with the given program, for the
    /// given sizes of the host's values.
    pub open spec fn is_kernel_of(
        &self,
        program: P,
        device: Device,
        group: CurveGroup,
        layout: GroupLayout,
        best_n: usize,
    ) -> bool {
        let max_n = chunk_size(device.memory as nat, device.core_count as nat, layout);
        &&& self.program == program
        &&& self.device == device.id
        &&& self.core_count == device.core_count
        &&& self.n == if max_n <= best_n {
            max_n
        } else {
            best_n as nat
        }
        &&& self.group == group
        &&& self.scalar_bits == layout.scalar_size * 8
        &&& self.wf()
    }

    /// The kernel that runs `program` on `device`.
    fn with_program(program: P, device: &Device, group: CurveGroup, layout: &GroupLayout, best_n: usize) -> (kernel: Self)
        requires
            chunk_size_defined(device.memory as nat, device.core_count as nat, *layout),
            layout.scalar_size * 8 <= usize::MAX,
        ensures
            kernel.is_kernel_of(program, *device, group, *layout, best_n),
    {
        let prefix_map = get_prefix_map(group);
        let scalar_bits = layout.scalar_size * 8;
        let core_count = device.core_count;
        let max_n = calc_chunk_size(device.memory, core_count, layout);
        let n = if max_n <= best_n {
            max_n
        } else {
            best_n
        };
        SingleMSMKernel { program, device: device.id, core_count, n, prefix_map, group, scalar_bits }
    }

    /// Makes the kernel of the program's group on `device`. The device's
    /// program is taken from the cache, which compiles it from the source
    /// for 64-bit limbs where it holds none. The kernel handles the smaller
    /// of two numbers of points at a time: as many as fit into the device's
    /// memory, and `best_n`, the number that keeps the device's cores busy.
    pub fn create<C>(
        cache: &mut ProgramCache<P>,
        device: &Device,
        msm: &MultiexpProgram,
        layout: &GroupLayout,
        best_n: usize,
        compile: &C,
    ) -> (kernel: GPUResult<SingleMSMKernel<P>>) where C: Fn(u64, String) -> Result<P, GPUError>
        requires
            msm.ready(),
            can_compile(compile, device.id, msm.program_text()),
            chunk_size_defined(device.memory as nat, device.core_count as nat, *layout),
            layout.scalar_size * 8 <= usize::MAX,
        ensures
            match kernel {
                Ok(k) => handed_out(
                    old(cache)@,
                    final(cache)@,
                    device.id,
                    msm.spec_workload_key().spec_id(),
                    k.program,
                ) && (old(cache)@.contains_key((device.id, msm.spec_workload_key().spec_id()))
                    || compiled(compile, device.id, msm.program_text(), Ok(k.program)))
                    && k.is_kernel_of(k.program, *device, msm.group, *layout, best_n),
                Err(e) => !old(cache)@.contains_key((device.id, msm.spec_workload_key().spec_id()))
                    && final(cache)@ == old(cache)@ && compiled(
                    compile,
                    device.id,
                    msm.program_text(),
                    Err(e),
                ),
            },
    {
        match cache.get_program(device.id, msm, compile) {
            Ok(program) => Ok(Self::with_program(*program, device, msm.group, layout, best_n)),
            Err(e) => Err(e),
        }
    }

    /// A launch for `n` points with windows of `c` bits can be described
    /// in machine numbers: the windows are at least one bit wide, the
    /// scalar has bits, and the counts that the kernel takes fit 32 bits.
    pub open spec fn launch_defined(&self, n: usize, c: usize) -> bool {
        &&& 1 <= c < 32
        &&& 1 <= self.scalar_bits <= u32::MAX
        &&& n <= u32::MAX
        &&& 2 * self.core_count <= u32::MAX
        &&& 2 * self.core_count * pow2(c as nat) <= usize::MAX
    }

    /// Whether a launch for `n` points with windows of `c` bits is defined.
    pub fn can_launch(&self, n: usize, c: usize) -> (defined: bool)
        ensures
            defined == self.launch_defined(n, c),
    {
        if c < 1 || c >= 32 || self.scalar_bits < 1 || self.scalar_bits > 0xffff_ffff || n
            > 0xffff_ffff || self.core_count > 0x7fff_ffff {
            return false;
        }
        proof {
            lemma_pow2_fits(c as nat);
            lemma_one_shifted_usize(c);
        }
        let bucket_len: usize = 1usize << c;
        match (2 * self.core_count).checked_mul(bucket_len) {
            Some(_) => true,
            None => false,
        }
    }

    /// The launch of the kernel for `n` points with windows of `c` bits,
    /// whatever window the sizes of the problem would suggest.
    pub fn msm_c(&self, n: usize, c: usize) -> (launch: MsmLaunch)
        requires
            self.wf(),
            self.launch_defined(n, c),
        ensures
            launch.is_launch_of(
                self.core_count as nat,
                self.scalar_bits as nat,
                self.group.prefix_text(),
                n as nat,
                c as nat,
            ),
            launch.wf(),
            launch.results_len <= launch.result_buffer_len,
            launch.global_work_size % LOCAL_WORK_SIZE == 0,
            launch.results_len <= launch.global_work_size < launch.results_len + LOCAL_WORK_SIZE,
    {
        let scalar_bits = self.scalar_bits;
        let window_size = c;
        proof {
            lemma_ceil_div(scalar_bits as nat, window_size as nat);
            lemma_pow2_fits(c as nat);
            lemma_one_shifted_usize(c);
            lemma2_to64();
            lemma_pow2_strictly_increases(0, c as nat);
            let windows = ceil_div(scalar_bits as nat, window_size as nat);
            assert(windows <= scalar_bits) by (nonlinear_arith)
                requires
                    window_size >= 1,
                    scalar_bits >= 1,
                    (windows - 1) * window_size < scalar_bits,
            ;
            assert(4 * self.core_count <= 2 * self.core_count * pow2(c as nat))
                by (nonlinear_arith)
                requires
                    pow2(c as nat) >= 2,
            ;
        }
        let num_windows = scalar_bits / window_size + if scalar_bits % window_size != 0 {
            1
        } else {
            0
        };
        let num_groups = calc_num_groups(self.core_count, num_windows);
        let bucket_len: usize = 1usize << window_size;
        let bucket_buffer_len = 2 * self.core_count * bucket_len;
        let result_buffer_len = 2 * self.core_count;
        proof {
            assert(num_windows * num_groups <= 2 * self.core_count && num_windows * num_groups
                == num_groups * num_windows) by (nonlinear_arith)
                requires
                    num_windows > 0,
                    num_groups == (2 * self.core_count) / (num_windows as int),
            ;
        }
        let mut global_work_size = num_windows * num_groups;
        global_work_size += (LOCAL_WORK_SIZE - (global_work_size % LOCAL_WORK_SIZE))
            % LOCAL_WORK_SIZE;
        let kernel_name = self.prefix_map.kernel_name(self.group, "bellman_multiexp");
        let mut args: Vec<MsmArg> = Vec::new();
        args.push(MsmArg::Bases);
        args.push(MsmArg::Buckets);
        args.push(MsmArg::Results);
        args.push(MsmArg::Scalars);
        args.push(MsmArg::N(n as u32));
        args.push(MsmArg::NumGroups(num_groups as u32));
        args.push(MsmArg::NumWindows(num_windows as u32));
        args.push(MsmArg::WindowSize(window_size as u32));
        assert(args@ =~= msm_args(
            n as u32,
            num_groups as u32,
            num_windows as u32,
            window_size as u32,
        ));
        MsmLaunch {
            args,
            kernel_name,
            n,
            window_size,
            num_windows,
            num_groups,
            bucket_len,
            bucket_buffer_len,
            result_buffer_len,
            global_work_size,
            results_len: num_groups * num_windows,
            scalar_bits,
        }
    }

    /// The launch of the kernel for `n` points with the window size that
    /// the host has worked out for `n` points, this width of scalars and
    /// this number of cores.
    pub fn msm(&self, n: usize, window_size: usize) -> (launch: MsmLaunch)
        requires
            self.wf(),
            self.launch_defined(n, window_size),
            window_size <= MAX_WINDOW_SIZE,
        ensures
            launch.is_launch_of(
                self.core_count as nat,
                self.scalar_bits as nat,
                self.group.prefix_text(),
                n as nat,
                window_size as nat,
            ),
            launch.wf(),
            launch.results_len <= launch.result_buffer_len,
            launch.global_work_size % LOCAL_WORK_SIZE == 0,
            launch.results_len <= launch.global_work_size < launch.results_len + LOCAL_WORK_SIZE,
    {
        self.msm_c(n, window_size)
    }
}

/// Makes multi-scalar multiplication kernels for one group: the sizes of
/// the host's values, and the function that gives the chunk size that
/// keeps a device's cores busy.
pub struct MsmMaker<'a, B> {
    pub group: CurveGroup,
    pub layout: GroupLayout,
    pub best_chunk_size: &'a B,
}

impl<'a, P: Copy, B: Fn(usize, usize, usize) -> usize> KernelMaker<P> for MsmMaker<'a, B> {
    type Kernel = SingleMSMKernel<P>;

    open spec fn can_make(&self, device: Device) -> bool {
        &&& chunk_size_defined(device.memory as nat, device.core_count as nat, self.layout)
        &&& self.layout.scalar_size * 8 <= usize::MAX
        &&& self.best_chunk_size.requires(
            (MAX_WINDOW_SIZE, device.core_count, (self.layout.scalar_size * 8) as usize),
        )
    }

    open spec fn made(&self, program: P, device: Device, kernel: SingleMSMKernel<P>) -> bool {
        exists|best_n: usize|
            self.best_chunk_size.ensures(
                (MAX_WINDOW_SIZE, device.core_count, (self.layout.scalar_size * 8) as usize),
                best_n,
            ) && #[trigger] kernel.is_kernel_of(program, device, self.group, self.layout, best_n)
    }

    fn make(&self, program: P, device: &Device) -> (kernel: SingleMSMKernel<P>) {
        let best_n = (self.best_chunk_size)(
            MAX_WINDOW_SIZE,
            device.core_count,
            self.layout.scalar_size * 8,
        );
        SingleMSMKernel::with_program(program, device, self.group, &self.layout, best_n)
    }
}

/// Makes the kernels of multi-scalar multiplication, one for every device
/// for which a kernel can be made, in the order of the devices. Each
/// program comes from the cache, which compiles it where it holds none. A
/// device whose compilation fails is left out; the call fails only where
/// that happens for every device.
pub fn get_kernels<P: Copy, B, C>(
    cache: &mut ProgramCache<P>,
    devices: Vec<Device>,
    msm: &MultiexpProgram,
    layout: &GroupLayout,
    best_chunk_size: &B,
    compile: &C,
) -> (kernels: GPUResult<Vec<SingleMSMKernel<P>>>) where
    B: Fn(usize, usize, usize) -> usize,
    C: Fn(u64, String) -> Result<P, GPUError>,

    requires
        msm.ready(),
        layout.scalar_size * 8 <= usize::MAX,
        forall|i: int|
            0 <= i < devices@.len() ==> can_compile(
                compile,
                (#[trigger] devices@[i]).id,
                msm.program_text(),
            ) && chunk_size_defined(
                devices@[i].memory as nat,
                devices@[i].core_count as nat,
                *layout,
            ) && best_chunk_size.requires(
                (MAX_WINDOW_SIZE, devices@[i].core_count, (layout.scalar_size * 8) as usize),
            ),
    ensures
        grown_for(old(cache)@, final(cache)@, devices@, devices@.len() as int, msm, compile),
        kernels_made(
            kernels,
            old(cache)@,
            final(cache)@,
            devices@,
            msm,
            &(MsmMaker { group: msm.group, layout: *layout, best_chunk_size }),
            compile,
        ),
{
    let maker = MsmMaker { group: msm.group, layout: *layout, best_chunk_size };
    make_kernels(cache, devices, false, msm, &maker, compile)
}

} // verus!

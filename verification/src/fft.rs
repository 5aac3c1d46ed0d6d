//! The host engine of the radix FFT: the size of every buffer, the twiddle
//! tables, and the schedule of kernel rounds for a transform of `2^log_n`
//! elements.

use crate::cache::{can_compile, compiled, handed_out, ProgramCache};
use crate::curve::CurveFamily;
use crate::devices::{grown_for, kernels_made, make_kernels, selected, Device, KernelMaker};
use crate::error::{GPUError, GPUResult};
use crate::field::FieldParams;
use crate::kernel::{FieldRole, SingleKernel, WorkloadKey};
use crate::sources::{fft_source, kernel_fft};
use crate::templates::Templates;
use crate::powers::{lemma_one_shifted_u32, lemma_one_shifted_usize, lemma_pow2_fits};
use vstd::arithmetic::power2::{lemma_pow2_adds, lemma_pow2_subtracts, pow2};
use vstd::bits::lemma_u32_shr_is_div;
use vstd::prelude::*;

verus! {

/// The number of powers `omega^(2^i)` that the kernel is given, one for
/// each level of the largest transform that the device code can address.
pub const LOG2_MAX_ELEMENTS: usize = 32;

/// A round resolves at most 8 levels of the butterfly tree: radix 256.
pub const MAX_LOG2_RADIX: u32 = 8;

/// A work group has at most `2^7` items.
pub const MAX_LOG2_LOCAL_WORK_SIZE: u32 = 7;

/// The FFT over one prime field, as the cache sees it.
pub struct FftProgram<'a> {
    pub templates: &'a Templates,
    pub field: &'a FieldParams,
    pub family: CurveFamily,
    pub role: FieldRole,
}

impl<'a> SingleKernel for FftProgram<'a> {
    open spec fn ready(&self) -> bool {
        self.field.wf()
    }

    open spec fn program_text(&self) -> Seq<char> {
        fft_source(self.templates@, self.field@, true)
    }

    open spec fn spec_workload_key(&self) -> WorkloadKey {
        WorkloadKey::Fft(self.family, self.role)
    }

    fn get_program_src(&self) -> (src: String) {
        kernel_fft(self.templates, self.field, true)
    }

    fn workload_key(&self) -> (key: WorkloadKey) {
        WorkloadKey::Fft(self.family, self.role)
    }
}

/// The FFT kernel of a single device.
pub struct SingleFftKernel<P> {
    pub program: P,
}

/// One launch of the `radix_fft` kernel.
#[derive(Clone, Copy, Debug, PartialEq, Eq, Structural)]
pub struct FftRound {
    /// The number of elements, `2^log_n`.
    pub n: u32,
    /// The levels resolved before this round.
    pub log_p: u32,
    /// The levels that this round resolves.
    pub deg: u32,
    /// The largest degree that the twiddle tables serve.
    pub max_deg: u32,
    /// The number of items of one work group.
    pub local_work_size: usize,
    /// The number of work items of the launch.
    pub global_work_size: usize,
    /// The number of field elements of the group-local buffer.
    pub local_buffer_len: usize,
}

/// One argument of the `radix_fft` kernel.
#[derive(Clone, Copy, Debug, PartialEq, Eq, Structural)]
pub enum FftArg {
    /// The buffer that the round reads.
    Source,
    /// The buffer that the round writes.
    Destination,
    /// The buffer of the twiddle powers.
    Pq,
    /// The buffer of the powers `omega^(2^i)`.
    Omegas,
    /// A group-local buffer of so many field elements.
    Local(usize),
    /// The number of elements.
    N(u32),
    LogP(u32),
    Deg(u32),
    MaxDeg(u32),
}

impl FftRound {
    /// The arguments of the kernel for this round, in the kernel's order.
    pub open spec fn spec_args(self) -> Seq<FftArg> {
        seq![
            FftArg::Source,
            FftArg::Destination,
            FftArg::Pq,
            FftArg::Omegas,
            FftArg::Local(self.local_buffer_len),
            FftArg::N(self.n),
            FftArg::LogP(self.log_p),
            FftArg::Deg(self.deg),
            FftArg::MaxDeg(self.max_deg),
        ]
    }

    /// The arguments of the kernel for this round, in the kernel's order.
    pub fn args(&self) -> (args: Vec<FftArg>)
        ensures
            args@ == self.spec_args(),
    {
        let mut args: Vec<FftArg> = Vec::new();
        args.push(FftArg::Source);
        args.push(FftArg::Destination);
        args.push(FftArg::Pq);
        args.push(FftArg::Omegas);
        args.push(FftArg::Local(self.local_buffer_len));
        args.push(FftArg::N(self.n));
        args.push(FftArg::LogP(self.log_p));
        args.push(FftArg::Deg(self.deg));
        args.push(FftArg::MaxDeg(self.max_deg));
        assert(args@ =~= self.spec_args());
        args
    }
}

/// The smaller of two numbers.
pub open spec fn least(a: nat, b: nat) -> nat {
    if a <= b {
        a
    } else {
        b
    }
}

/// The largest radix degree used for a transform of `2^log_n` elements.
pub open spec fn max_degree(log_n: nat) -> nat {
    let capped = least(MAX_LOG2_RADIX as nat, log_n);
    if capped >= 1 {
        capped
    } else {
        1
    }
}

/// The launch that resolves `deg` levels after `log_p` levels of a
/// transform of `2^log_n` elements: each group has `2^min(deg - 1, 7)`
/// items, and there is one group for each block of `2^deg` elements.
pub open spec fn round_of(log_n: nat, log_p: nat, deg: nat, max_deg: nat) -> FftRound {
    let local = pow2(least((deg - 1) as nat, MAX_LOG2_LOCAL_WORK_SIZE as nat));
    FftRound {
        n: pow2(log_n) as u32,
        log_p: log_p as u32,
        deg: deg as u32,
        max_deg: max_deg as u32,
        local_work_size: local as usize,
        global_work_size: (pow2((log_n - deg) as nat) * local) as usize,
        local_buffer_len: pow2(deg) as usize,
    }
}

/// The rounds that remain once `log_p` levels are resolved: each resolves
/// as many levels as are left, up to `max_deg`.
pub open spec fn rounds_from(log_n: nat, max_deg: nat, log_p: nat) -> Seq<FftRound>
    decreases log_n - log_p,
{
    if log_p >= log_n || max_deg == 0 {
        Seq::empty()
    } else {
        let deg = least(max_deg, (log_n - log_p) as nat);
        seq![round_of(log_n, log_p, deg, max_deg)] + rounds_from(log_n, max_deg, log_p + deg)
    }
}

/// The levels that a sequence of rounds resolves in all.
pub open spec fn levels(rounds: Seq<FftRound>) -> nat
    decreases rounds.len(),
{
    if rounds.len() == 0 {
        0
    } else {
        rounds[0].deg as nat + levels(rounds.skip(1))
    }
}

/// Everything the host fixes before it runs a transform.
pub struct FftPlan {
    /// The number of elements, and the length of the two data buffers.
    pub n: usize,
    /// The largest radix degree of a round.
    pub max_deg: u32,
    /// The length of the device buffer of twiddle powers.
    pub pq_buffer_len: usize,
    /// The length of the device buffer of the powers `omega^(2^i)`.
    pub omegas_buffer_len: usize,
    /// The number of twiddle powers that the host computes.
    pub pq_len: usize,
    /// The exponent `e` of the twiddle factor `omega^e`.
    pub twiddle_exponent: u64,
    /// The kernel rounds, in order. After each round the two data buffers
    /// change roles.
    pub rounds: Vec<FftRound>,
}

impl FftPlan {
    /// The plan of a transform of `2^log_n` elements.
    pub open spec fn is_plan_of(&self, log_n: nat) -> bool {
        &&& self.n == pow2(log_n)
        &&& self.max_deg == max_degree(log_n)
        &&& self.pq_buffer_len == pow2((max_degree(log_n) - 1) as nat)
        &&& self.omegas_buffer_len == LOG2_MAX_ELEMENTS
        &&& self.pq_len == pow2((max_degree(log_n) - 1) as nat)
        &&& self.twiddle_exponent == pow2(log_n) / pow2(max_degree(log_n))
        &&& self.rounds@ == rounds_from(log_n, max_degree(log_n), 0)
    }
}

/// The rounds of a transform resolve every level that was left, and no
/// more: when the last round ends, `log_p` has reached `log_n`.
pub proof fn lemma_rounds_resolve_every_level(log_n: nat, max_deg: nat, log_p: nat)
    requires
        1 <= max_deg,
        log_p <= log_n < 32,
    ensures
        levels(rounds_from(log_n, max_deg, log_p)) == log_n - log_p,
    decreases log_n - log_p,
{
    if log_p < log_n {
        let deg = least(max_deg, (log_n - log_p) as nat);
        let rest = rounds_from(log_n, max_deg, log_p + deg);
        let all = rounds_from(log_n, max_deg, log_p);
        lemma_rounds_resolve_every_level(log_n, max_deg, log_p + deg);
        assert(all.skip(1) =~= rest);
        assert(all[0].deg == deg);
    }
}

impl<P: Copy> SingleFftKernel<P> {
    /// Makes the FFT kernel of `device`. The device's program is taken
    /// from the cache; where the cache has none, the source of the FFT is
    /// written for 64-bit limbs and compiled, and the program is kept.
    pub fn create<C>(
        cache: &mut ProgramCache<P>,
        device: &Device,
        fft: &FftProgram,
        compile: &C,
    ) -> (kernel: GPUResult<SingleFftKernel<P>>) where C: Fn(u64, String) -> Result<P, GPUError>
        requires
            fft.ready(),
            can_compile(compile, device.id, fft.program_text()),
        ensures
            match kernel {
                Ok(k) => handed_out(
                    old(cache)@,
                    final(cache)@,
                    device.id,
                    fft.spec_workload_key().spec_id(),
                    k.program,
                ) && (old(cache)@.contains_key((device.id, fft.spec_workload_key().spec_id()))
                    || compiled(compile, device.id, fft.program_text(), Ok(k.program))),
                Err(e) => !old(cache)@.contains_key((device.id, fft.spec_workload_key().spec_id()))
                    && final(cache)@ == old(cache)@ && compiled(
                    compile,
                    device.id,
                    fft.program_text(),
                    Err(e),
                ),
            },
    {
        match cache.get_program(device.id, fft, compile) {
            Ok(program) => Ok(SingleFftKernel { program: *program }),
            Err(e) => Err(e),
        }
    }

    /// The launch of one round: `deg` levels after `log_p` resolved ones,
    /// of a transform of `2^log_n` elements.
    pub fn radix_fft_round(&self, log_n: u32, log_p: u32, deg: u32, max_deg: u32) -> (round: FftRound)
        requires
            1 <= deg,
            log_p + deg <= log_n < 32,
        ensures
            round == round_of(log_n as nat, log_p as nat, deg as nat, max_deg as nat),
    {
        let local_log = if deg - 1 < MAX_LOG2_LOCAL_WORK_SIZE {
            deg - 1
        } else {
            MAX_LOG2_LOCAL_WORK_SIZE
        };
        proof {
            lemma_one_shifted_u32(log_n);
            lemma_one_shifted_u32(deg);
            lemma_one_shifted_u32(local_log);
            lemma_u32_shr_is_div(1u32 << log_n, deg);
            lemma_pow2_subtracts(deg as nat, log_n as nat);
            lemma_pow2_adds((log_n - deg) as nat, local_log as nat);
            lemma_pow2_fits((log_n - deg + local_log) as nat);
        }
        let n = 1u32 << log_n;
        let local_work_size = 1u32 << local_log;
        let global_work_size = (n >> deg) * local_work_size;
        let local_buffer_len = 1u32 << deg;
        FftRound {
            n,
            log_p,
            deg,
            max_deg,
            local_work_size: local_work_size as usize,
            global_work_size: global_work_size as usize,
            local_buffer_len: local_buffer_len as usize,
        }
    }

    /// Plans the transform of `2^log_n` elements: the buffers, the twiddle
    /// tables and the rounds. The rounds resolve `log_n` levels in all.
    pub fn radix_fft(&self, log_n: u32) -> (plan: FftPlan)
        requires
            log_n < 32,
        ensures
            plan.is_plan_of(log_n as nat),
            levels(plan.rounds@) == log_n,
    {
        let capped = if MAX_LOG2_RADIX < log_n {
            MAX_LOG2_RADIX
        } else {
            log_n
        };
        let max_deg = if capped > 1 {
            capped
        } else {
            1
        };
        let pq_log: usize = (max_deg - 1) as usize;
        proof {
            lemma_one_shifted_usize(log_n as usize);
            lemma_one_shifted_u32(log_n);
            lemma_one_shifted_usize(pq_log);
            lemma_u32_shr_is_div(1u32 << log_n, max_deg);
            lemma_rounds_resolve_every_level(log_n as nat, max_deg as nat, 0);
        }
        let n: usize = 1usize << (log_n as usize);
        let pq_len: usize = 1usize << pq_log;
        let twiddle_exponent = ((1u32 << log_n) >> max_deg) as u64;
        let mut rounds: Vec<FftRound> = Vec::new();
        let mut log_p: u32 = 0;
        while log_p < log_n
            invariant
                log_p <= log_n < 32,
                1 <= max_deg,
                rounds@ + rounds_from(log_n as nat, max_deg as nat, log_p as nat) == rounds_from(
                    log_n as nat,
                    max_deg as nat,
                    0,
                ),
            decreases log_n - log_p,
        {
            let deg = if max_deg < log_n - log_p {
                max_deg
            } else {
                log_n - log_p
            };
            let round = self.radix_fft_round(log_n, log_p, deg, max_deg);
            proof {
                let rest = rounds_from(log_n as nat, max_deg as nat, (log_p + deg) as nat);
                assert(rounds@.push(round) + rest =~= rounds@ + (seq![round] + rest));
            }
            rounds.push(round);
            log_p += deg;
        }
        assert(rounds@ + Seq::<FftRound>::empty() =~= rounds@);
        FftPlan {
            n,
            max_deg,
            pq_buffer_len: pq_len,
            omegas_buffer_len: LOG2_MAX_ELEMENTS,
            pq_len,
            twiddle_exponent,
            rounds,
        }
    }
}

/// The powers of the twiddle factor: `one`, `twiddle`, and then each power
/// times `twiddle`, `len` of them in all.
pub fn twiddle_powers<E: Copy, M>(one: E, twiddle: E, len: usize, times: &M) -> (pq: Vec<E>) where
    M: Fn(E, E) -> E,

    requires
        len >= 1,
        forall|a: E, b: E| times.requires((a, b)),
    ensures
        pq@.len() == len,
        pq@[0] == one,
        len > 1 ==> pq@[1] == twiddle,
        forall|i: int| 2 <= i < len ==> times.ensures((pq@[i - 1], twiddle), #[trigger] pq@[i]),
{
    let mut pq: Vec<E> = Vec::new();
    pq.push(one);
    if len > 1 {
        pq.push(twiddle);
        let mut i: usize = 2;
        while i < len
            invariant
                2 <= i <= len,
                pq@.len() == i,
                pq@[0] == one,
                pq@[1] == twiddle,
                forall|a: E, b: E| times.requires((a, b)),
                forall|k: int| 2 <= k < i ==> times.ensures((pq@[k - 1], twiddle), #[trigger] pq@[k]),
            decreases len - i,
        {
            let next = times(pq[i - 1], twiddle);
            pq.push(next);
            i += 1;
        }
    }
    pq
}

/// The powers `omega^(2^i)` for `i` below 32: `omega`, and then each the
/// square of the one before.
pub fn omega_powers<E: Copy, S>(omega: E, square: &S) -> (omegas: Vec<E>) where S: Fn(E) -> E
    requires
        forall|a: E| square.requires((a,)),
    ensures
        omegas@.len() == LOG2_MAX_ELEMENTS,
        omegas@[0] == omega,
        forall|i: int|
            1 <= i < LOG2_MAX_ELEMENTS ==> square.ensures((omegas@[i - 1],), #[trigger] omegas@[i]),
{
    let mut omegas: Vec<E> = Vec::new();
    omegas.push(omega);
    let mut i: usize = 1;
    while i < LOG2_MAX_ELEMENTS
        invariant
            1 <= i <= LOG2_MAX_ELEMENTS,
            omegas@.len() == i,
            omegas@[0] == omega,
            forall|a: E| square.requires((a,)),
            forall|k: int| 1 <= k < i ==> square.ensures((omegas@[k - 1],), #[trigger] omegas@[k]),
        decreases LOG2_MAX_ELEMENTS - i,
    {
        let next = square(omegas[i - 1]);
        omegas.push(next);
        i += 1;
    }
    omegas
}

/// Makes FFT kernels: a kernel is the device's program and nothing more.
pub struct FftMaker;

impl<P: Copy> KernelMaker<P> for FftMaker {
    type Kernel = SingleFftKernel<P>;

    open spec fn can_make(&self, device: Device) -> bool {
        true
    }

    open spec fn made(&self, program: P, device: Device, kernel: SingleFftKernel<P>) -> bool {
        kernel.program == program
    }

    fn make(&self, program: P, device: &Device) -> (kernel: SingleFftKernel<P>) {
        SingleFftKernel { program }
    }
}

/// Makes the FFT kernels: one for the first device, the others are not
/// used. The kernel's program comes from the cache, which compiles it where
/// it holds none. The call fails only where the first device has no
/// program and `compile` fails for it, or where there is no device.
pub fn get_kernels<P: Copy, C>(
    cache: &mut ProgramCache<P>,
    devices: Vec<Device>,
    fft: &FftProgram,
    compile: &C,
) -> (kernels: GPUResult<Vec<SingleFftKernel<P>>>) where C: Fn(u64, String) -> Result<P, GPUError>
    requires
        fft.ready(),
        forall|i: int|
            0 <= i < devices@.len() ==> can_compile(
                compile,
                (#[trigger] devices@[i]).id,
                fft.program_text(),
            ),
    ensures
        grown_for(
            old(cache)@,
            final(cache)@,
            selected(devices@, true),
            selected(devices@, true).len() as int,
            fft,
            compile,
        ),
        kernels_made(
            kernels,
            old(cache)@,
            final(cache)@,
            selected(devices@, true),
            fft,
            &FftMaker,
            compile,
        ),
{
    make_kernels(cache, devices, true, fft, &FftMaker, compile)
}

} // verus!

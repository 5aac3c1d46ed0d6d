//! The choice of devices, and of the kernels that could be made for them.

use crate::cache::{can_compile, compiled, ProgramCache};
use crate::error::{GPUError, GPUResult};
use crate::kernel::SingleKernel;
use vstd::prelude::*;

verus! {

/// A device as the host logic reads it.
#[derive(Clone, Copy, Debug, PartialEq, Eq, Structural)]
pub struct Device {
    /// A number that tells this device from every other.
    pub id: u64,
    /// The device's memory in bytes.
    pub memory: u64,
    /// The number of cores of the device.
    pub core_count: usize,
}

/// The devices that a workload uses: the first one only, or all of them.
pub open spec fn selected(devices: Seq<Device>, first_only: bool) -> Seq<Device> {
    if first_only && devices.len() > 1 {
        devices.take(1)
    } else {
        devices
    }
}

/// Picks the devices that a workload uses.
pub fn select_devices(devices: Vec<Device>, first_only: bool) -> (chosen: Vec<Device>)
    ensures
        chosen@ == selected(devices@, first_only),
{
    let mut chosen = devices;
    if first_only {
        chosen.truncate(1);
    }
    chosen
}

/// The kernels among the outcomes, in order.
pub open spec fn successes<K>(created: Seq<GPUResult<K>>) -> Seq<K>
    decreases created.len(),
{
    if created.len() == 0 {
        Seq::empty()
    } else {
        match created.last() {
            Ok(k) => successes(created.drop_last()).push(k),
            Err(_) => successes(created.drop_last()),
        }
    }
}

/// Keeps the kernels that could be made and drops the failures. A workload
/// needs at least one device that works.
pub fn working<K>(created: Vec<GPUResult<K>>) -> (kernels: GPUResult<Vec<K>>)
    ensures
        match kernels {
            Ok(ks) => ks@ == successes(created@) && ks@.len() > 0,
            Err(e) => successes(created@).len() == 0 && e == GPUError::Simple(
                "No working GPUs found!",
            ),
        },
{
    let mut kernels: Vec<K> = Vec::new();
    let mut created = created;
    let ghost all = created@;
    let mut rest: Vec<K> = Vec::new();
    // The outcomes are taken from the back, so the kernels come out reversed.
    while created.len() > 0
        invariant
            created@.len() <= all.len(),
            created@ == all.take(created@.len() as int),
            successes(all) == successes(created@) + rest@.reverse(),
        decreases created.len(),
    {
        let ghost before = created@;
        let last = created.pop();
        proof {
            assert(created@ =~= before.drop_last());
            assert(created@ =~= all.take(created@.len() as int));
        }
        match last {
            Some(Ok(k)) => {
                proof {
                    assert(rest@.push(k).reverse() =~= seq![k] + rest@.reverse());
                    assert(successes(before) == successes(created@).push(k));
                    assert(successes(created@).push(k) + rest@.reverse() =~= successes(created@)
                        + (seq![k] + rest@.reverse()));
                }
                rest.push(k);
            },
            _ => {},
        }
    }
    assert(successes(all) =~= rest@.reverse());
    while rest.len() > 0
        invariant
            successes(all) == kernels@ + rest@.reverse(),
        decreases rest.len(),
    {
        let ghost before = rest@;
        let k = rest.pop();
        match k {
            Some(k) => {
                proof {
                    assert(rest@ =~= before.drop_last());
                    assert(before.reverse() =~= seq![k] + rest@.reverse());
                    assert(kernels@.push(k) + rest@.reverse() =~= kernels@ + (seq![k]
                        + rest@.reverse()));
                }
                kernels.push(k);
            },
            None => {},
        }
    }
    assert(successes(all) =~= kernels@);
    if kernels.len() == 0 {
        return Err(GPUError::Simple("No working GPUs found!"));
    }
    Ok(kernels)
}

/// Every kernel among the successes is the kernel of one of the outcomes.
pub proof fn lemma_success_has_an_outcome<K>(created: Seq<GPUResult<K>>, j: int)
    requires
        0 <= j < successes(created).len(),
    ensures
        exists|i: int| 0 <= i < created.len() && #[trigger] created[i] == Ok::<K, GPUError>(successes(created)[j]),
    decreases created.len(),
{
    if created.len() > 0 {
        let before = created.drop_last();
        if j < successes(before).len() {
            lemma_success_has_an_outcome(before, j);
            let i = choose|i: int| 0 <= i < before.len() && #[trigger] before[i] == Ok::<K, GPUError>(successes(before)[j]);
            assert(created[i] == before[i]);
        } else {
            assert(created[created.len() - 1] == Ok::<K, GPUError>(successes(created)[j]));
        }
    }
}

/// There are no more successes than outcomes.
pub proof fn lemma_successes_are_few<K>(created: Seq<GPUResult<K>>)
    ensures
        successes(created).len() <= created.len(),
    decreases created.len(),
{
    if created.len() > 0 {
        lemma_successes_are_few(created.drop_last());
    }
}

/// Where one outcome is a kernel, the successes are not empty.
pub proof fn lemma_one_success_suffices<K>(created: Seq<GPUResult<K>>, i: int)
    requires
        0 <= i < created.len(),
        created[i] is Ok,
    ensures
        successes(created).len() > 0,
    decreases created.len(),
{
    if i < created.len() - 1 {
        lemma_one_success_suffices(created.drop_last(), i);
    }
}

/// How the kernels of one workload are made from a device's program.
pub trait KernelMaker<P> {
    /// The kernel of the workload.
    type Kernel;

    /// A kernel can be made for the device: the numbers that describe it
    /// are machine numbers.
    spec fn can_make(&self, device: Device) -> bool;

    /// `kernel` is the kernel that runs `program` on `device`.
    spec fn made(&self, program: P, device: Device, kernel: Self::Kernel) -> bool;

    /// Makes the kernel that runs `program` on `device`.
    fn make(&self, program: P, device: &Device) -> (kernel: Self::Kernel)
        requires
            self.can_make(*device),
        ensures
            self.made(program, *device, kernel),
    ;
}

/// How a cache grows while kernels are made for the first `upto` of
/// `devices`: nothing that was held is lost or changed, and what is new is
/// a program that `compile` gave for the workload's source on one of those
/// devices.
pub open spec fn grown_for<P, K: SingleKernel, C: Fn(u64, String) -> Result<P, GPUError>>(
    before: Map<(u64, u64), P>,
    after: Map<(u64, u64), P>,
    devices: Seq<Device>,
    upto: int,
    workload: &K,
    compile: &C,
) -> bool {
    &&& before.submap_of(after)
    &&& forall|k: (u64, u64)|
        after.contains_key(k) && !before.contains_key(k) ==> {
            &&& k.1 == workload.spec_workload_key().spec_id()
            &&& compiled(compile, k.0, workload.program_text(), Ok(after[k]))
            &&& exists|j: int| 0 <= j < upto && (#[trigger] devices[j]).id == k.0
        }
}

/// What became of the attempt to make a kernel for `device`. A kernel runs
/// the program that the cache holds for the device, which was held before
/// or is what `compile` gave for the workload's source. A failure is the
/// failure of `compile` on that source, and the cache held no program for
/// the device.
pub open spec fn outcome_of<
    P,
    K: SingleKernel,
    M: KernelMaker<P>,
    C: Fn(u64, String) -> Result<P, GPUError>,
>(
    outcome: GPUResult<M::Kernel>,
    before: Map<(u64, u64), P>,
    after: Map<(u64, u64), P>,
    device: Device,
    workload: &K,
    maker: &M,
    compile: &C,
) -> bool {
    let key = (device.id, workload.spec_workload_key().spec_id());
    match outcome {
        Ok(kernel) => {
            &&& after.contains_key(key)
            &&& maker.made(after[key], device, kernel)
            &&& before.contains_key(key) || compiled(
                compile,
                device.id,
                workload.program_text(),
                Ok(after[key]),
            )
        },
        Err(cause) => {
            &&& !before.contains_key(key)
            &&& compiled(compile, device.id, workload.program_text(), Err(cause))
        },
    }
}

/// `outcomes` are what became of the attempts for `devices`, one for each
/// device and in their order.
pub open spec fn outcomes_of<
    P,
    K: SingleKernel,
    M: KernelMaker<P>,
    C: Fn(u64, String) -> Result<P, GPUError>,
>(
    outcomes: Seq<GPUResult<M::Kernel>>,
    before: Map<(u64, u64), P>,
    after: Map<(u64, u64), P>,
    devices: Seq<Device>,
    workload: &K,
    maker: &M,
    compile: &C,
) -> bool {
    &&& outcomes.len() == devices.len()
    &&& forall|i: int|
        0 <= i < devices.len() ==> outcome_of(
            #[trigger] outcomes[i],
            before,
            after,
            devices[i],
            workload,
            maker,
            compile,
        )
}

/// `kernels` is the result of making a kernel for each of `devices`: the
/// kernels of the devices that work, one for each and in the order of the
/// devices, and a failure only where the attempt failed for every device.
pub open spec fn kernels_made<
    P,
    K: SingleKernel,
    M: KernelMaker<P>,
    C: Fn(u64, String) -> Result<P, GPUError>,
>(
    kernels: GPUResult<Vec<M::Kernel>>,
    before: Map<(u64, u64), P>,
    after: Map<(u64, u64), P>,
    devices: Seq<Device>,
    workload: &K,
    maker: &M,
    compile: &C,
) -> bool {
    exists|outcomes: Seq<GPUResult<M::Kernel>>|
        #[trigger] outcomes_of(outcomes, before, after, devices, workload, maker, compile)
            && match kernels {
            Ok(ks) => ks@ == successes(outcomes) && ks@.len() > 0,
            Err(e) => e == GPUError::Simple("No working GPUs found!") && forall|i: int|
                0 <= i < devices.len() ==> (#[trigger] outcomes[i]) is Err,
        }
}

/// Makes a kernel of the workload for the first of `devices`, or for each
/// of them. The program of a device comes from the cache, which compiles
/// the workload's source where it holds none. A device for which that fails
/// is left out; without any device that works the workload cannot run on
/// the GPU.
pub fn make_kernels<P: Copy, K: SingleKernel, M: KernelMaker<P>, C>(
    cache: &mut ProgramCache<P>,
    devices: Vec<Device>,
    first_only: bool,
    workload: &K,
    maker: &M,
    compile: &C,
) -> (kernels: GPUResult<Vec<M::Kernel>>) where C: Fn(u64, String) -> Result<P, GPUError>
    requires
        workload.ready(),
        forall|i: int|
            0 <= i < devices@.len() ==> can_compile(
                compile,
                (#[trigger] devices@[i]).id,
                workload.program_text(),
            ) && maker.can_make(devices@[i]),
    ensures
        grown_for(
            old(cache)@,
            final(cache)@,
            selected(devices@, first_only),
            selected(devices@, first_only).len() as int,
            workload,
            compile,
        ),
        kernels_made(
            kernels,
            old(cache)@,
            final(cache)@,
            selected(devices@, first_only),
            workload,
            maker,
            compile,
        ),
{
    let ghost all = devices@;
    let chosen = select_devices(devices, first_only);
    let mut created: Vec<GPUResult<M::Kernel>> = Vec::new();
    let mut i: usize = 0;
    while i < chosen.len()
        invariant
            i <= chosen.len(),
            created@.len() == i,
            workload.ready(),
            chosen@ == selected(all, first_only),
            forall|j: int|
                0 <= j < all.len() ==> can_compile(
                    compile,
                    (#[trigger] all[j]).id,
                    workload.program_text(),
                ) && maker.can_make(all[j]),
            grown_for(old(cache)@, cache@, chosen@, i as int, workload, compile),
            forall|j: int|
                0 <= j < i ==> outcome_of(
                    #[trigger] created@[j],
                    old(cache)@,
                    cache@,
                    chosen@[j],
                    workload,
                    maker,
                    compile,
                ),
        decreases chosen.len() - i,
    {
        let ghost before = cache@;
        let ghost earlier = created@;
        proof {
            assert(chosen@[i as int] == all[i as int]);
        }
        let made = match cache.get_program(chosen[i].id, workload, compile) {
            Ok(program) => Ok(maker.make(*program, &chosen[i])),
            Err(e) => Err(e),
        };
        proof {
            lemma_grown_by_one(old(cache)@, before, cache@, chosen@, i as int, workload, compile);
            assert(outcome_of(made, old(cache)@, cache@, chosen@[i as int], workload, maker, compile));
        }
        created.push(made);
        proof {
            assert forall|j: int| 0 <= j < i + 1 implies outcome_of(
                #[trigger] created@[j],
                old(cache)@,
                cache@,
                chosen@[j],
                workload,
                maker,
                compile,
            ) by {
                if j < i {
                    assert(created@[j] == earlier[j]);
                    assert(outcome_of(
                        earlier[j],
                        old(cache)@,
                        before,
                        chosen@[j],
                        workload,
                        maker,
                        compile,
                    ));
                }
            }
        }
        i += 1;
    }
    let ghost outcomes = created@;
    let kernels = working(created);
    proof {
        assert(outcomes_of(outcomes, old(cache)@, cache@, chosen@, workload, maker, compile));
        if kernels is Err {
            assert forall|i: int| 0 <= i < chosen@.len() implies (#[trigger] outcomes[i]) is Err by {
                if outcomes[i] is Ok {
                    lemma_one_success_suffices(outcomes, i);
                }
            }
        }
    }
    kernels
}

/// Asking the cache for the program of one more device keeps the cache
/// growing as `grown_for` says.
proof fn lemma_grown_by_one<P, K: SingleKernel, C: Fn(u64, String) -> Result<P, GPUError>>(
    start: Map<(u64, u64), P>,
    before: Map<(u64, u64), P>,
    after: Map<(u64, u64), P>,
    devices: Seq<Device>,
    upto: int,
    workload: &K,
    compile: &C,
)
    requires
        0 <= upto < devices.len(),
        grown_for(start, before, devices, upto, workload, compile),
        after == before || (!before.contains_key(
            (devices[upto].id, workload.spec_workload_key().spec_id()),
        ) && exists|fresh: P|
            #[trigger] compiled(compile, devices[upto].id, workload.program_text(), Ok(fresh))
                && after == before.insert(
                (devices[upto].id, workload.spec_workload_key().spec_id()),
                fresh,
            )),
    ensures
        grown_for(start, after, devices, upto + 1, workload, compile),
        before.submap_of(after),
{
    assert forall|k: (u64, u64)| after.contains_key(k) && !start.contains_key(k) implies {
        &&& k.1 == workload.spec_workload_key().spec_id()
        &&& compiled(compile, k.0, workload.program_text(), Ok(after[k]))
        &&& exists|j: int| 0 <= j < upto + 1 && (#[trigger] devices[j]).id == k.0
    } by {
        if before.contains_key(k) {
            let j = choose|j: int| 0 <= j < upto && (#[trigger] devices[j]).id == k.0;
            assert(devices[j].id == k.0);
        } else {
            assert(devices[upto].id == k.0);
        }
    }
}

} // verus!

//! The program cache: at most one compiled program for each device and
//! workload, kept for as long as the cache lives.

use crate::error::GPUError;
use crate::kernel::SingleKernel;
use std::collections::HashMap;
use vstd::prelude::*;

verus! {

/// Compiled programs by device and, for each device, by workload key.
pub struct ProgramCache<P> {
    programs: HashMap<u64, HashMap<u64, P>>,
}

/// The programs that the maps of the devices hold, by device and key.
spec fn programs_of<P>(devices: Map<u64, HashMap<u64, P>>) -> Map<(u64, u64), P> {
    Map::new(
        |k: (u64, u64)| devices.contains_key(k.0) && devices[k.0]@.contains_key(k.1),
        |k: (u64, u64)| devices[k.0]@[k.1],
    )
}

/// What a successful request does: a program that was held comes back as it
/// was and the cache is unchanged; otherwise the program is a new one, now
/// held under the key, and nothing else has changed.
pub open spec fn handed_out<P>(
    before: Map<(u64, u64), P>,
    after: Map<(u64, u64), P>,
    device: u64,
    key: u64,
    program: P,
) -> bool {
    if before.contains_key((device, key)) {
        after == before && program == before[(device, key)]
    } else {
        after == before.insert((device, key), program)
    }
}

/// Asking twice for the program of one key gives the same program both
/// times, and the second request leaves the cache as the first left it: the
/// program was compiled once at most.
pub proof fn lemma_second_request_is_served<P>(
    start: Map<(u64, u64), P>,
    middle: Map<(u64, u64), P>,
    end: Map<(u64, u64), P>,
    device: u64,
    key: u64,
    first: P,
    second: P,
)
    requires
        handed_out(start, middle, device, key, first),
        handed_out(middle, end, device, key, second),
    ensures
        second == first,
        end == middle,
        middle.contains_key((device, key)),
        middle[(device, key)] == first,
{
}

/// `compile` may be called for `device` with any string that holds `source`.
pub open spec fn can_compile<P, C: Fn(u64, String) -> Result<P, GPUError>>(
    compile: &C,
    device: u64,
    source: Seq<char>,
) -> bool {
    forall|src: String| src@ == source ==> compile.requires((device, src))
}

/// `outcome` is what `compile` gave for `device` and a string that holds
/// `source`.
pub open spec fn compiled<P, C: Fn(u64, String) -> Result<P, GPUError>>(
    compile: &C,
    device: u64,
    source: Seq<char>,
    outcome: Result<P, GPUError>,
) -> bool {
    exists|src: String| src@ == source && compile.ensures((device, src), outcome)
}

impl<P> View for ProgramCache<P> {
    type V = Map<(u64, u64), P>;

    closed spec fn view(&self) -> Map<(u64, u64), P> {
        programs_of(self.programs@)
    }
}

impl<P> ProgramCache<P> {
    /// A cache that holds no program.
    pub fn new() -> (cache: Self)
        ensures
            cache@ == Map::<(u64, u64), P>::empty(),
    {
        let cache = ProgramCache { programs: HashMap::new() };
        assert(cache@ =~= Map::<(u64, u64), P>::empty());
        cache
    }

    /// Whether the cache holds a program for the key.
    pub fn contains(&self, device: u64, key: u64) -> (held: bool)
        ensures
            held == self@.contains_key((device, key)),
    {
        match self.programs.get(&device) {
            Some(of_device) => of_device.contains_key(&key),
            None => false,
        }
    }

    /// The program of the key, if the cache holds one.
    pub fn get(&self, device: u64, key: u64) -> (program: Option<&P>)
        ensures
            program is Some <==> self@.contains_key((device, key)),
            program matches Some(p) ==> *p == self@[(device, key)],
    {
        match self.programs.get(&device) {
            Some(of_device) => of_device.get(&key),
            None => None,
        }
    }

    /// Keeps `program` under a key that the cache does not hold yet.
    pub fn insert(&mut self, device: u64, key: u64, program: P)
        requires
            !old(self)@.contains_key((device, key)),
        ensures
            final(self)@ == old(self)@.insert((device, key), program),
    {
        let ghost before = self.programs@;
        let mut of_device = match self.programs.remove(&device) {
            Some(held) => held,
            None => HashMap::new(),
        };
        let ghost held_before = of_device@;
        of_device.insert(key, program);
        let ghost held_after = of_device@;
        self.programs.insert(device, of_device);
        proof {
            let after = self.programs@;
            assert(after.contains_key(device) && after[device]@ == held_after);
            assert(held_after == held_before.insert(key, program));
            assert forall|k: (u64, u64)|
                programs_of(after).contains_key(k) <==> programs_of(before).insert(
                    (device, key),
                    program,
                ).contains_key(k) by {
                if k.0 != device {
                    assert(after.contains_key(k.0) == before.contains_key(k.0));
                    if before.contains_key(k.0) {
                        assert(after[k.0] == before[k.0]);
                    }
                }
            }
            assert forall|k: (u64, u64)| programs_of(after).contains_key(k) implies programs_of(
                after,
            )[k] == programs_of(before).insert((device, key), program)[k] by {
                if k.0 != device {
                    assert(after[k.0] == before[k.0]);
                }
            }
            assert(programs_of(after) =~= programs_of(before).insert((device, key), program));
        }
    }

    /// The program of the workload `kernel` on `device`. A program that the
    /// cache holds is handed out as it is, and nothing changes. Otherwise
    /// the workload's source is written and given to `compile` with the
    /// device: the program that comes back is kept under the key from then
    /// on and handed out, and a failure is passed on, the cache left as it
    /// was.
    pub fn get_program<K: SingleKernel, C>(&mut self, device: u64, kernel: &K, compile: &C) -> (program: Result<
        &P,
        GPUError,
    >) where C: Fn(u64, String) -> Result<P, GPUError>
        requires
            kernel.ready(),
            can_compile(compile, device, kernel.program_text()),
        ensures
            match program {
                Ok(p) => handed_out(
                    old(self)@,
                    final(self)@,
                    device,
                    kernel.spec_workload_key().spec_id(),
                    *p,
                ) && (old(self)@.contains_key((device, kernel.spec_workload_key().spec_id()))
                    || compiled(compile, device, kernel.program_text(), Ok(*p))),
                Err(e) => !old(self)@.contains_key((device, kernel.spec_workload_key().spec_id()))
                    && final(self)@ == old(self)@ && compiled(
                    compile,
                    device,
                    kernel.program_text(),
                    Err(e),
                ),
            },
    {
        let key = kernel.workload_key().id();
        if self.contains(device, key) {
            return Ok(self.get(device, key).unwrap());
        }
        let src = kernel.get_program_src();
        match compile(device, src) {
            Ok(fresh) => {
                self.insert(device, key, fresh);
                Ok(self.get(device, key).unwrap())
            },
            Err(e) => Err(e),
        }
    }
}

} // verus!

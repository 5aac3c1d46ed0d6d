use algebra_kernels::cache::ProgramCache;
use algebra_kernels::curve::{CurveFamily, CurveGroup};
use algebra_kernels::error::GPUError;
use algebra_kernels::field::FieldParams;
use algebra_kernels::fft::FftProgram;
use algebra_kernels::kernel::{FieldRole, SingleKernel, WorkloadKey};
use algebra_kernels::templates::Templates;
use std::cell::Cell;

/// The number of programs that the cache holds for the devices and the
/// workloads that these tests use.
fn programs_held<P>(cache: &ProgramCache<P>) -> usize {
    let mut held = 0;
    for device in 0..16u64 {
        for key in 0..64u64 {
            if cache.contains(device, key) {
                held += 1;
            }
        }
    }
    held
}

fn templates() -> Templates {
    Templates {
        common: "// common".to_string(),
        field: "FIELD FIELD_mul(FIELD a, FIELD b);".to_string(),
        field2: "FIELD2 FIELD2_mul(FIELD2 a, FIELD2 b); // over FIELD".to_string(),
        ec: "POINT_projective POINT_add(FIELD x, EXPONENT e);".to_string(),
        fft: "__kernel void radix_fft(__global FIELD* x);".to_string(),
        multiexp: "__kernel void POINT_bellman_multiexp(__global EXPONENT* exps);".to_string(),
        polycommit_round_reduce: "__kernel void POINT_polycommit_round_reduce(__global EXPONENT* c);"
            .to_string(),
    }
}

fn small_field() -> FieldParams {
    FieldParams {
        modulus: vec![0xffff_ffff_0000_0001],
        r2: vec![5],
        one: vec![0x0000_0001_ffff_fffe],
        inv: 0xffff_fffe_ffff_ffff,
        nvidia_add_sub: String::new(),
    }
}

#[test]
fn second_request_compiles_nothing_and_gives_the_same_program() {
    let t = templates();
    let f = small_field();
    let fft = FftProgram { templates: &t, field: &f, family: CurveFamily::Bls12381, role: FieldRole::Scalar };
    let compiles = Cell::new(0u32);
    let compile = |device: u64, src: String| -> Result<String, GPUError> {
        compiles.set(compiles.get() + 1);
        Ok(format!("program {} on {} of {} bytes", compiles.get(), device, src.len()))
    };
    let mut cache: ProgramCache<String> = ProgramCache::new();
    let first = cache.get_program(3, &fft, &compile).unwrap().clone();
    assert_eq!(compiles.get(), 1);
    let second = cache.get_program(3, &fft, &compile).unwrap().clone();
    assert_eq!(compiles.get(), 1);
    assert_eq!(first, second);
    assert_eq!(programs_held(&cache), 1);
}

#[test]
fn compile_receives_the_source_of_the_workload() {
    let t = templates();
    let f = small_field();
    let fft = FftProgram { templates: &t, field: &f, family: CurveFamily::Bn254, role: FieldRole::Scalar };
    let expected = fft.get_program_src();
    let compile = |_device: u64, src: String| -> Result<String, GPUError> { Ok(src) };
    let mut cache: ProgramCache<String> = ProgramCache::new();
    let kept = cache.get_program(0, &fft, &compile).unwrap();
    assert_eq!(*kept, expected);
}

#[test]
fn programs_are_kept_per_device_and_per_workload() {
    let t = templates();
    let f = small_field();
    let scalar = FftProgram { templates: &t, field: &f, family: CurveFamily::Tweedle, role: FieldRole::Scalar };
    let base = FftProgram { templates: &t, field: &f, family: CurveFamily::Tweedle, role: FieldRole::Base };
    let compiles = Cell::new(0u32);
    let compile = |device: u64, _src: String| -> Result<u64, GPUError> {
        compiles.set(compiles.get() + 1);
        Ok(device * 100 + compiles.get() as u64)
    };
    let mut cache: ProgramCache<u64> = ProgramCache::new();
    assert_eq!(*cache.get_program(1, &scalar, &compile).unwrap(), 101);
    assert_eq!(*cache.get_program(2, &scalar, &compile).unwrap(), 202);
    assert_eq!(*cache.get_program(1, &base, &compile).unwrap(), 103);
    assert_eq!(*cache.get_program(1, &scalar, &compile).unwrap(), 101);
    assert_eq!(programs_held(&cache), 3);
    assert!(cache.contains(2, scalar.workload_key().id()));
    assert!(!cache.contains(2, base.workload_key().id()));
    assert_eq!(cache.get(1, base.workload_key().id()), Some(&103));
    assert_eq!(cache.get(7, base.workload_key().id()), None);
}

#[test]
fn failed_compile_is_passed_on_and_nothing_is_kept() {
    let t = templates();
    let f = small_field();
    let fft = FftProgram { templates: &t, field: &f, family: CurveFamily::Bn382, role: FieldRole::Scalar };
    let fail = |_d: u64, _s: String| -> Result<u64, GPUError> { Err(GPUError::OpenCL("build failed".to_string())) };
    let mut cache: ProgramCache<u64> = ProgramCache::new();
    match cache.get_program(0, &fft, &fail) {
        Err(GPUError::OpenCL(cause)) => assert_eq!(cause, "build failed"),
        _ => panic!("the failure of the compiler must be passed on"),
    }
    assert_eq!(programs_held(&cache), 0);
    let succeed = |_d: u64, _s: String| -> Result<u64, GPUError> { Ok(9) };
    assert_eq!(*cache.get_program(0, &fft, &succeed).unwrap(), 9);
    assert_eq!(*cache.get_program(0, &fft, &fail).unwrap(), 9);
}

#[test]
fn workload_keys_differ() {
    let mut ids: Vec<u64> = Vec::new();
    let families = [CurveFamily::Bn382, CurveFamily::Bls12381, CurveFamily::Bls12377, CurveFamily::Bn254, CurveFamily::Tweedle];
    for fam in families.iter() {
        ids.push(WorkloadKey::Fft(*fam, FieldRole::Scalar).id());
        ids.push(WorkloadKey::Fft(*fam, FieldRole::Base).id());
        for g in fam.groups() {
            ids.push(WorkloadKey::Multiexp(g).id());
            ids.push(WorkloadKey::Polycommit(g).id());
        }
    }
    assert_eq!(ids.len(), 10 + 2 * 11);
    let mut sorted = ids.clone();
    sorted.sort();
    sorted.dedup();
    assert_eq!(sorted.len(), ids.len());
    assert_eq!(WorkloadKey::Multiexp(CurveGroup::Bls12381G1).id(), WorkloadKey::Multiexp(CurveGroup::Bls12381G1).id());
}

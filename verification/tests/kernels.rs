use algebra_kernels::cache::ProgramCache;
use algebra_kernels::curve::CurveGroup;
use algebra_kernels::devices::Device;
use algebra_kernels::error::GPUError;
use algebra_kernels::fft::{get_kernels as fft_get_kernels, FftProgram};
use algebra_kernels::field::FieldParams;
use algebra_kernels::kernel::FieldRole;
use algebra_kernels::msm::{get_kernels as msm_get_kernels, GroupLayout, MultiexpProgram};
use algebra_kernels::polycommit::{get_kernels as polycommit_get_kernels, PolycommitProgram};
use algebra_kernels::sources::CurveParams;
use algebra_kernels::templates::Templates;

/// The number of programs that the cache holds for the devices and the
/// workloads that these tests use.
fn programs_held<P>(cache: &ProgramCache<P>) -> usize {
    let mut held = 0;
    for device in 0..16u64 {
        for key in 0..64u64 {
            if cache.contains(device, key) {
                held += 1;
            }
        }
    }
    held
}

fn templates() -> Templates {
    Templates {
        common: "// common".to_string(),
        field: "FIELD FIELD_mul(FIELD a, FIELD b);".to_string(),
        field2: "FIELD2 FIELD2_mul(FIELD2 a, FIELD2 b);".to_string(),
        ec: "POINT_projective POINT_add(FIELD x, EXPONENT e);".to_string(),
        fft: "__kernel void radix_fft(__global FIELD* x);".to_string(),
        multiexp: "__kernel void POINT_bellman_multiexp(__global EXPONENT* exps);".to_string(),
        polycommit_round_reduce: "__kernel void POINT_polycommit_round_reduce(__global EXPONENT* c);"
            .to_string(),
    }
}

fn field(seed: u64) -> FieldParams {
    FieldParams {
        modulus: vec![seed, 1, 2, 3],
        r2: vec![seed, 4, 5, 6],
        one: vec![seed, 7, 8, 9],
        inv: seed,
        nvidia_add_sub: String::new(),
    }
}

fn best_chunk_size(_max_window_size: usize, core_count: usize, _scalar_bits: usize) -> usize {
    core_count * 1000
}

fn get_kernels(group: CurveGroup) {
    let t = templates();
    let curve = CurveParams { family: group.family(), fr: field(1), fq: field(2), fq2_nonresidue: vec![3, 4, 5, 6] };
    let devices = vec![Device { id: 0, memory: 8 << 30, core_count: 2560 }];
    let layout = GroupLayout { affine_size: 104, projective_size: 144, scalar_size: 32 };
    let compile = |device: u64, src: String| -> Result<usize, GPUError> { Ok(device as usize + src.len()) };
    let mut cache: ProgramCache<usize> = ProgramCache::new();

    let fft = FftProgram { templates: &t, field: &curve.fr, family: group.family(), role: FieldRole::Scalar };
    let kernels = fft_get_kernels(&mut cache, devices.clone(), &fft, &compile).unwrap();
    assert_ne!(kernels.len(), 0);

    let msm = MultiexpProgram { templates: &t, curve: &curve, group };
    let kernels = msm_get_kernels(&mut cache, devices.clone(), &msm, &layout, &best_chunk_size, &compile).unwrap();
    assert_ne!(kernels.len(), 0);

    let round = PolycommitProgram { templates: &t, curve: &curve, group };
    let kernels = polycommit_get_kernels(&mut cache, devices.clone(), &round, &compile).unwrap();
    assert_ne!(kernels.len(), 0);

    assert_eq!(programs_held(&cache), 3);
}

#[test]
fn test_kernels() {
    get_kernels(CurveGroup::Bn382G1);
    get_kernels(CurveGroup::Bls12381G1);
    get_kernels(CurveGroup::Bls12377G1);
    get_kernels(CurveGroup::Bn254G1);
    get_kernels(CurveGroup::TweedleDee);
}

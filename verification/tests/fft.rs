use algebra_kernels::cache::ProgramCache;
use algebra_kernels::curve::CurveFamily;
use algebra_kernels::devices::Device;
use algebra_kernels::error::GPUError;
use algebra_kernels::fft::{
    get_kernels, omega_powers, twiddle_powers, FftArg, FftProgram, FftRound, SingleFftKernel,
    LOG2_MAX_ELEMENTS, MAX_LOG2_LOCAL_WORK_SIZE, MAX_LOG2_RADIX,
};
use algebra_kernels::field::FieldParams;
use algebra_kernels::kernel::FieldRole;
use algebra_kernels::templates::Templates;

/// The number of programs that the cache holds for the devices and the
/// workloads that these tests use.
fn programs_held<P>(cache: &ProgramCache<P>) -> usize {
    let mut held = 0;
    for device in 0..16u64 {
        for key in 0..64u64 {
            if cache.contains(device, key) {
                held += 1;
            }
        }
    }
    held
}

fn kernel() -> SingleFftKernel<u32> {
    SingleFftKernel { program: 1 }
}

#[test]
fn fft_constants() {
    assert_eq!(LOG2_MAX_ELEMENTS, 32);
    assert_eq!(MAX_LOG2_RADIX, 8);
    assert_eq!(MAX_LOG2_LOCAL_WORK_SIZE, 7);
}

#[test]
fn round_of_a_full_radix() {
    let round = kernel().radix_fft_round(20, 8, 8, 8);
    assert_eq!(
        round,
        FftRound {
            n: 1 << 20,
            log_p: 8,
            deg: 8,
            max_deg: 8,
            local_work_size: 128,
            global_work_size: 4096 * 128,
            local_buffer_len: 256,
        }
    );
}

#[test]
fn round_of_a_small_radix() {
    let round = kernel().radix_fft_round(20, 16, 4, 8);
    assert_eq!(round.local_work_size, 8);
    assert_eq!(round.global_work_size, 65536 * 8);
    assert_eq!(round.local_buffer_len, 16);
    let one = kernel().radix_fft_round(1, 0, 1, 1);
    assert_eq!(one.n, 2);
    assert_eq!(one.local_work_size, 1);
    assert_eq!(one.global_work_size, 1);
    assert_eq!(one.local_buffer_len, 2);
    let largest = kernel().radix_fft_round(31, 0, 8, 8);
    assert_eq!(largest.n, 1 << 31);
    assert_eq!(largest.global_work_size, (1usize << 23) * 128);
}

#[test]
fn round_arguments_are_in_the_order_of_the_kernel() {
    let round = kernel().radix_fft_round(10, 8, 2, 8);
    assert_eq!(
        round.args(),
        vec![
            FftArg::Source,
            FftArg::Destination,
            FftArg::Pq,
            FftArg::Omegas,
            FftArg::Local(4),
            FftArg::N(1024),
            FftArg::LogP(8),
            FftArg::Deg(2),
            FftArg::MaxDeg(8),
        ]
    );
}

#[test]
fn plan_of_eight_elements() {
    let plan = kernel().radix_fft(3);
    assert_eq!(plan.n, 8);
    assert_eq!(plan.max_deg, 3);
    assert_eq!(plan.pq_buffer_len, 4);
    assert_eq!(plan.omegas_buffer_len, 32);
    assert_eq!(plan.pq_len, 4);
    assert_eq!(plan.twiddle_exponent, 1);
    assert_eq!(
        plan.rounds,
        vec![FftRound {
            n: 8,
            log_p: 0,
            deg: 3,
            max_deg: 3,
            local_work_size: 4,
            global_work_size: 4,
            local_buffer_len: 8,
        }]
    );
}

#[test]
fn plan_of_a_large_transform() {
    let plan = kernel().radix_fft(20);
    assert_eq!(plan.n, 1 << 20);
    assert_eq!(plan.max_deg, 8);
    assert_eq!(plan.pq_len, 128);
    assert_eq!(plan.pq_buffer_len, 128);
    assert_eq!(plan.twiddle_exponent, 4096);
    let shape: Vec<(u32, u32)> = plan.rounds.iter().map(|r| (r.log_p, r.deg)).collect();
    assert_eq!(shape, vec![(0, 8), (8, 8), (16, 4)]);
    for r in plan.rounds.iter() {
        assert_eq!(*r, kernel().radix_fft_round(20, r.log_p, r.deg, 8));
    }
}

#[test]
fn plans_of_the_smallest_transforms() {
    let single = kernel().radix_fft(0);
    assert_eq!(single.n, 1);
    assert_eq!(single.max_deg, 1);
    assert_eq!(single.pq_len, 1);
    assert_eq!(single.twiddle_exponent, 0);
    assert!(single.rounds.is_empty());
    let pair = kernel().radix_fft(1);
    assert_eq!(pair.n, 2);
    assert_eq!(pair.max_deg, 1);
    assert_eq!(pair.twiddle_exponent, 1);
    assert_eq!(pair.rounds.len(), 1);
}

#[test]
fn rounds_resolve_every_level() {
    for log_n in 0..32u32 {
        let plan = kernel().radix_fft(log_n);
        let mut log_p = 0;
        for r in plan.rounds.iter() {
            assert_eq!(r.log_p, log_p);
            assert_eq!(r.deg, std::cmp::min(plan.max_deg, log_n - log_p));
            assert!(r.deg >= 1);
            log_p += r.deg;
        }
        assert_eq!(log_p, log_n);
        assert_eq!(plan.max_deg, std::cmp::max(std::cmp::min(8, log_n), 1));
        assert_eq!(plan.pq_len, (1usize << plan.max_deg) >> 1);
        assert_eq!(plan.pq_buffer_len, plan.pq_len);
        assert_eq!(plan.twiddle_exponent, ((1u64 << log_n) >> plan.max_deg));
    }
}

#[test]
fn twiddle_tables_over_a_small_field() {
    // 2 is a primitive 8th root of unity modulo 17.
    let times = |a: u64, b: u64| -> u64 { a * b % 17 };
    let square = |a: u64| -> u64 { a * a % 17 };
    let plan = kernel().radix_fft(3);
    let mut twiddle = 1;
    for _ in 0..plan.twiddle_exponent {
        twiddle = times(twiddle, 2);
    }
    assert_eq!(twiddle_powers(1, twiddle, plan.pq_len, &times), vec![1, 2, 4, 8]);
    assert_eq!(twiddle_powers(1, 5, 1, &times), vec![1]);
    assert_eq!(twiddle_powers(1, 5, 2, &times), vec![1, 5]);
    let omegas = omega_powers(2, &square);
    assert_eq!(omegas.len(), 32);
    assert_eq!(&omegas[..4], &[2, 4, 16, 1]);
    assert!(omegas[3..].iter().all(|w| *w == 1));
}

fn templates() -> Templates {
    Templates {
        common: String::new(),
        field: "FIELD".to_string(),
        field2: String::new(),
        ec: String::new(),
        fft: "radix_fft over FIELD".to_string(),
        multiexp: String::new(),
        polycommit_round_reduce: String::new(),
    }
}

fn field() -> FieldParams {
    FieldParams { modulus: vec![7], r2: vec![1], one: vec![1], inv: 1, nvidia_add_sub: String::new() }
}

#[test]
fn fft_uses_the_first_device_only() {
    let t = templates();
    let f = field();
    let fft = FftProgram { templates: &t, field: &f, family: CurveFamily::Bls12381, role: FieldRole::Scalar };
    let compile = |device: u64, _src: String| -> Result<u64, GPUError> { Ok(device + 1000) };
    let mut cache: ProgramCache<u64> = ProgramCache::new();
    let devices = vec![
        Device { id: 5, memory: 1, core_count: 1 },
        Device { id: 6, memory: 1, core_count: 1 },
    ];
    let kernels = get_kernels(&mut cache, devices, &fft, &compile).unwrap();
    assert_eq!(kernels.len(), 1);
    assert_eq!(kernels[0].program, 1005);
    assert_eq!(programs_held(&cache), 1);
}

#[test]
fn fft_without_a_working_device_fails() {
    let t = templates();
    let f = field();
    let fft = FftProgram { templates: &t, field: &f, family: CurveFamily::Bls12381, role: FieldRole::Scalar };
    let ok = |device: u64, _src: String| -> Result<u64, GPUError> { Ok(device) };
    let mut cache: ProgramCache<u64> = ProgramCache::new();
    match get_kernels(&mut cache, Vec::new(), &fft, &ok) {
        Err(GPUError::Simple(msg)) => assert_eq!(msg, "No working GPUs found!"),
        _ => panic!("no device must give no kernel"),
    }
    let broken = |_device: u64, _src: String| -> Result<u64, GPUError> { Err(GPUError::OpenCL("x".to_string())) };
    let devices = vec![Device { id: 5, memory: 1, core_count: 1 }, Device { id: 6, memory: 1, core_count: 1 }];
    match get_kernels(&mut cache, devices, &fft, &broken) {
        Err(GPUError::Simple(msg)) => assert_eq!(msg, "No working GPUs found!"),
        _ => panic!("a device that cannot compile gives no kernel"),
    }
    assert_eq!(programs_held(&cache), 0);
}

use algebra_kernels::devices::{select_devices, working, Device};
use algebra_kernels::error::{GPUError, GPUResult};

#[test]
fn messages() {
    assert_eq!(GPUError::Simple("No working GPUs found!").message(), "GPUError: No working GPUs found!");
    assert_eq!(GPUError::OpenCL("CL_OUT_OF_RESOURCES".to_string()).message(), "OpenCL Error: CL_OUT_OF_RESOURCES");
    assert_eq!(GPUError::GPUTaken.message(), "GPU taken by a high priority process!");
    assert_eq!(GPUError::KernelUninitialized.message(), "No kernel is initialized!");
    assert_eq!(GPUError::GPUDisabled.message(), "GPU accelerator is disabled!");
}

#[test]
fn a_panic_that_carries_an_error_is_that_error() {
    match GPUError::from_panic(Some(GPUError::GPUTaken)) {
        GPUError::GPUTaken => {}
        other => panic!("unexpected {:?}", other),
    }
    match GPUError::from_panic(None) {
        GPUError::Simple(msg) => assert_eq!(msg, "An unknown GPU error happened!"),
        other => panic!("unexpected {:?}", other),
    }
}

#[test]
fn no_devices_means_no_working_gpus() {
    let none: Vec<GPUResult<u32>> = Vec::new();
    match working(none) {
        Err(GPUError::Simple(msg)) => assert_eq!(msg, "No working GPUs found!"),
        _ => panic!("an empty list of devices must fail"),
    }
}

#[test]
fn failures_are_dropped_and_the_order_is_kept() {
    let outcomes: Vec<GPUResult<u32>> = vec![
        Ok(1),
        Err(GPUError::OpenCL("a".to_string())),
        Ok(2),
        Err(GPUError::GPUTaken),
        Ok(3),
    ];
    assert_eq!(working(outcomes).unwrap(), vec![1, 2, 3]);
    let all_failed: Vec<GPUResult<u32>> = vec![Err(GPUError::GPUDisabled), Err(GPUError::GPUTaken)];
    match working(all_failed) {
        Err(GPUError::Simple(msg)) => assert_eq!(msg, "No working GPUs found!"),
        _ => panic!("only failures must fail"),
    }
    let one: Vec<GPUResult<u32>> = vec![Err(GPUError::GPUDisabled), Ok(9)];
    assert_eq!(working(one).unwrap(), vec![9]);
}

#[test]
fn first_device_only_or_all() {
    let d = |id: u64| Device { id, memory: 1 << 30, core_count: 100 };
    let devices = vec![d(4), d(5), d(6)];
    assert_eq!(select_devices(devices.clone(), true), vec![d(4)]);
    assert_eq!(select_devices(devices.clone(), false), devices);
    assert_eq!(select_devices(Vec::new(), true), Vec::<Device>::new());
    assert_eq!(select_devices(vec![d(1)], true), vec![d(1)]);
}

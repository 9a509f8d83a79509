use trueno_viz::monitor::collectors::apple_accelerators::{available_count, SecureEnclaveInfo, UmaInfo};
use trueno_viz::monitor::collectors::gpu_apple::{
    apple_silicon_gpu, apple_silicon_gpu_name, gpu_names_from_ioreg,
};

#[test]
fn apple_silicon_gpu_names_follow_the_chip() {
    assert_eq!(apple_silicon_gpu_name("Apple M4 Max"), "Apple M4 Max GPU");
    assert_eq!(apple_silicon_gpu_name("Apple M4 Pro"), "Apple M4 Pro GPU");
    assert_eq!(apple_silicon_gpu_name("Apple M4"), "Apple M4 GPU");
    assert_eq!(apple_silicon_gpu_name("Apple M3 Max"), "Apple M3 Max GPU");
    assert_eq!(apple_silicon_gpu_name("Apple M3"), "Apple M3 GPU");
    assert_eq!(apple_silicon_gpu_name("Apple M2 Ultra"), "Apple M2 Ultra GPU");
    assert_eq!(apple_silicon_gpu_name("Apple M2 Pro"), "Apple M2 Pro GPU");
    assert_eq!(apple_silicon_gpu_name("Apple M1 Ultra"), "Apple M1 Ultra GPU");
    assert_eq!(apple_silicon_gpu_name("Apple M1 Max"), "Apple M1 Max GPU");
    assert_eq!(apple_silicon_gpu_name("Apple M1"), "Apple M1 GPU");
    assert_eq!(apple_silicon_gpu_name("Apple A18"), "Apple GPU");
}

#[test]
fn only_apple_chips_have_an_integrated_apple_gpu() {
    assert_eq!(apple_silicon_gpu("Apple M2"), Some("Apple M2 GPU".to_string()));
    assert_eq!(apple_silicon_gpu("Intel(R) Core(TM) i9-9880H CPU @ 2.30GHz"), None);
}

#[test]
fn ioreg_listing_gives_the_amd_models() {
    let listing = "+-o GFX0@0  <class IOPCIDevice>\n    | \"model\" = <\"AMD Radeon Pro W5700X\">\n    | \"vendor-id\" = <02100000>\n    | \"model\" = <\"Intel UHD Graphics 630\">\n    | \"model\" = <\"Radeon Pro Vega II\">\n";
    assert_eq!(
        gpu_names_from_ioreg(listing),
        vec!["AMD Radeon Pro W5700X".to_string(), "Radeon Pro Vega II".to_string()]
    );
}

#[test]
fn ioreg_listing_without_amd_gpus_gives_a_generic_name() {
    assert_eq!(gpu_names_from_ioreg(""), vec!["GPU".to_string()]);
    assert_eq!(gpu_names_from_ioreg("\"model\" = <\"Intel Iris\">\n"), vec!["GPU".to_string()]);
    assert_eq!(gpu_names_from_ioreg("\"model\" AMD without brackets\n"), vec!["GPU".to_string()]);
}

#[test]
fn available_accelerators_are_counted() {
    assert_eq!(available_count(false, false, false, false, false), 0);
    assert_eq!(available_count(true, false, true, false, true), 3);
    assert_eq!(available_count(true, true, true, true, true), 5);
    let enclave = SecureEnclaveInfo::default();
    let uma = UmaInfo::default();
    assert!(!enclave.available);
    assert!(enclave.algorithm.is_empty());
    assert!(!uma.available);
    assert_eq!(uma.page_size, 0);
}

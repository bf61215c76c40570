use koharu::cuda::{
    check_cuda_driver_support, cuda_support_verdict, llama_cuda_enabled, package_enabled,
    package_present, platform_tags, pypi_metadata_url, select_wheel_file, source_id, wheels,
    CudaDriverVersion, CudaSupport, TargetArch, TargetOs,
};

#[test]
fn source_id_includes_platform() {
    let id = source_id(TargetOs::Linux, TargetArch::X86_64).unwrap();
    assert!(id.contains("cuda"));
    assert!(id.contains("platform="));
}

#[test]
fn wheels_have_dylibs_for_current_platform() {
    for wheel in wheels() {
        assert!(
            !wheel.dylibs(TargetOs::Linux).is_empty(),
            "{} has no dylibs",
            wheel.package
        );
        assert!(
            !wheel.dylibs(TargetOs::Windows).is_empty(),
            "{} has no dylibs",
            wheel.package
        );
    }
}

#[test]
fn cuda_runtime_includes_cudnn() {
    let all = wheels();
    let wheel = all
        .iter()
        .find(|wheel| wheel.package.starts_with("nvidia-cudnn-cu13/"))
        .expect("missing cuDNN runtime wheel");
    assert!(wheel.dylibs(TargetOs::Windows).contains(&"cudnn64_9.dll"));
    assert!(wheel.dylibs(TargetOs::Linux).contains(&"libcudnn.so.9"));
}

#[test]
fn parses_major_minor_from_driver_version() {
    let version = CudaDriverVersion::from_raw(13010);
    assert_eq!(version.major(), 13);
    assert_eq!(version.minor(), 1);
    assert_eq!(version.to_string(), "13.1");
}

#[test]
fn checks_cuda_13_0_threshold() {
    assert!(CudaDriverVersion::from_raw(13010).supports_cuda_13_0());
    assert!(CudaDriverVersion::from_raw(13020).supports_cuda_13_0());
    assert!(CudaDriverVersion::from_raw(13000).supports_cuda_13_0());
    assert!(!CudaDriverVersion::from_raw(12080).supports_cuda_13_0());
}

#[test]
fn checks_cuda_13_1_threshold() {
    assert!(CudaDriverVersion::from_raw(13010).supports_cuda_13_1());
    assert!(CudaDriverVersion::from_raw(13020).supports_cuda_13_1());
    assert!(!CudaDriverVersion::from_raw(13000).supports_cuda_13_1());
    assert!(!CudaDriverVersion::from_raw(12080).supports_cuda_13_1());
}

#[test]
fn driver_version_parts_of_other_versions() {
    let v = CudaDriverVersion::from_raw(12080);
    assert_eq!(v.raw(), 12080);
    assert_eq!(v.major(), 12);
    assert_eq!(v.minor(), 8);
    assert_eq!(v.to_string(), "12.8");
    let odd = CudaDriverVersion::from_raw(-12345);
    assert_eq!(odd.major(), -12);
    assert_eq!(odd.minor(), -34);
    assert_eq!(odd.to_string(), "-12.-34");
}

#[test]
fn cuda_verdict_checks_in_order() {
    let new = Some(CudaDriverVersion::from_raw(13010));
    let old = Some(CudaDriverVersion::from_raw(12080));
    assert_eq!(cuda_support_verdict(false, new, Some((8, 6))), CudaSupport::DriverMissing);
    assert_eq!(cuda_support_verdict(true, None, Some((8, 6))), CudaSupport::DriverVersionUnknown);
    assert_eq!(
        cuda_support_verdict(true, old, Some((8, 6))),
        CudaSupport::DriverTooOld(CudaDriverVersion::from_raw(12080))
    );
    assert_eq!(
        cuda_support_verdict(true, new, None),
        CudaSupport::ComputeCapabilityUnknown(CudaDriverVersion::from_raw(13010))
    );
    assert_eq!(
        cuda_support_verdict(true, new, Some((7, 5))),
        CudaSupport::ComputeCapabilityTooLow(CudaDriverVersion::from_raw(13010), 7, 5)
    );
    assert_eq!(
        cuda_support_verdict(true, new, Some((8, 0))),
        CudaSupport::Supported(CudaDriverVersion::from_raw(13010), 8, 0)
    );
    assert!(check_cuda_driver_support(true, new, Some((9, 0))));
    assert!(!check_cuda_driver_support(true, new, Some((7, 9))));
}

#[test]
fn runtime_package_and_llama_cuda_thresholds() {
    let v13_0 = Some(CudaDriverVersion::from_raw(13000));
    let v13_1 = Some(CudaDriverVersion::from_raw(13010));
    assert!(package_enabled(true, true, v13_0));
    assert!(!llama_cuda_enabled(true, true, v13_0));
    assert!(llama_cuda_enabled(true, true, v13_1));
    assert!(!package_enabled(false, true, v13_1));
    assert!(!package_enabled(true, false, v13_1));
    assert!(!package_enabled(true, true, None));
}

#[test]
fn package_present_needs_current_install_and_all_libraries() {
    assert!(package_present(true, &[true, true]));
    assert!(package_present(true, &[]));
    assert!(!package_present(false, &[true]));
    assert!(!package_present(true, &[true, false]));
}

#[test]
fn platform_tags_only_for_supported_platforms() {
    assert!(platform_tags(TargetOs::Linux, TargetArch::X86_64).is_some());
    assert!(platform_tags(TargetOs::Windows, TargetArch::X86_64).is_some());
    assert!(platform_tags(TargetOs::Other, TargetArch::X86_64).is_none());
    assert!(platform_tags(TargetOs::Linux, TargetArch::Other).is_none());
    assert!(source_id(TargetOs::Other, TargetArch::X86_64).is_none());
}

#[test]
fn source_id_lists_wheels_and_extract_revision() {
    let id = source_id(TargetOs::Windows, TargetArch::X86_64).unwrap();
    assert!(id.starts_with("cuda;platform=win_amd64;wheels="));
    assert!(id.contains("nvidia-cudnn-cu13/"));
    assert!(id.ends_with(";extract=2"));
}

#[test]
fn wheel_file_selection_takes_first_matching_wheel() {
    let files = [
        "pkg-1.0.tar.gz",
        "pkg-1.0-py3-none-win_amd64.whl",
        "pkg-1.0-py3-none-manylinux2014_x86_64.whl",
        "pkg-1.0-py3-none-manylinux_2_27_x86_64.whl",
    ];
    let linux = platform_tags(TargetOs::Linux, TargetArch::X86_64).unwrap();
    assert_eq!(select_wheel_file(&files, &linux), Some(3));
    assert_eq!(select_wheel_file(&files[..2], &linux), None);
}

#[test]
fn pypi_metadata_url_splits_package_at_first_slash() {
    assert_eq!(
        pypi_metadata_url("nvidia-cudnn-cu13/9.21.0.82").as_deref(),
        Some("https://pypi.org/pypi/nvidia-cudnn-cu13/9.21.0.82/json")
    );
    assert_eq!(
        pypi_metadata_url("a/b/c").as_deref(),
        Some("https://pypi.org/pypi/a/b/c/json")
    );
    assert_eq!(pypi_metadata_url("no-version"), None);
}

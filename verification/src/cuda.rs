//! Which CUDA runtime the application can use: driver version checks, the GPU requirement,
//! and the runtime wheels that are fetched and preloaded.

use vstd::prelude::*;
use crate::text::{
    chars_of, contains_chars, contains_str, decimal, decimal_chars, ends_with_chars,
    ends_with_str, joined, push_joined, push_str_chars, str_views, string_from_chars,
};

verus! {

broadcast use vstd::string::group_string_axioms;

/// Driver version that first supports CUDA 13.0.
pub const CUDA_13_0_DRIVER_VERSION: i32 = 13000;

/// Driver version that first supports CUDA 13.1.
pub const CUDA_13_1_DRIVER_VERSION: i32 = 13010;

/// Revision of the way runtime wheels are extracted; a change invalidates installs.
pub const CUDA_EXTRACT_REVISION: u32 = 2;

/// Lowest compute capability major version with GPU acceleration (Ampere).
pub const MIN_COMPUTE_CAPABILITY_MAJOR: i32 = 8;

/// Lowest compute capability minor version, with the major version above.
pub const MIN_COMPUTE_CAPABILITY_MINOR: i32 = 0;

/// Rust's `/` on integers: the quotient rounded toward zero.
pub open spec fn quotient_toward_zero(a: int, b: int) -> int {
    if a >= 0 {
        a / b
    } else {
        -((-a) / b)
    }
}

/// Rust's `%` on integers: the remainder that has the sign of `a`.
pub open spec fn remainder_toward_zero(a: int, b: int) -> int {
    a - b * quotient_toward_zero(a, b)
}

/// A CUDA driver version as `cuDriverGetVersion` reports it: `1000 * major + 10 * minor`.
#[derive(Debug, Clone, Copy, PartialEq, Eq, Hash, Structural)]
pub struct CudaDriverVersion {
    raw: i32,
}

impl CudaDriverVersion {
    /// The number the driver reports.
    pub closed spec fn spec_raw(self) -> int {
        self.raw as int
    }

    /// The major CUDA version.
    pub open spec fn spec_major(self) -> int {
        quotient_toward_zero(self.spec_raw(), 1000)
    }

    /// The minor CUDA version.
    pub open spec fn spec_minor(self) -> int {
        quotient_toward_zero(remainder_toward_zero(self.spec_raw(), 1000), 10)
    }

    /// The version of the driver that reports `raw`.
    pub fn from_raw(raw: i32) -> (r: Self)
        ensures
            r.spec_raw() == raw,
    {
        CudaDriverVersion { raw }
    }

    /// The number the driver reported.
    pub fn raw(self) -> (r: i32)
        ensures
            r == self.spec_raw(),
    {
        self.raw
    }

    /// The major CUDA version (`raw / 1000`).
    pub fn major(self) -> (r: i32)
        ensures
            r == self.spec_major(),
    {
        if self.raw >= 0 {
            self.raw / 1000
        } else {
            let m = (-(self.raw as i64)) / 1000;
            (-m) as i32
        }
    }

    /// The minor CUDA version (`(raw % 1000) / 10`).
    pub fn minor(self) -> (r: i32)
        ensures
            r == self.spec_minor(),
    {
        let rem: i64 = (self.raw as i64) - 1000 * (self.major() as i64);
        if rem >= 0 {
            (rem / 10) as i32
        } else {
            let m = (-rem) / 10;
            (-m) as i32
        }
    }

    /// Whether the driver supports CUDA 13.0 or newer.
    pub fn supports_cuda_13_0(self) -> (r: bool)
        ensures
            r == (self.spec_raw() >= CUDA_13_0_DRIVER_VERSION),
    {
        self.raw >= CUDA_13_0_DRIVER_VERSION
    }

    /// Whether the driver supports CUDA 13.1 or newer.
    pub fn supports_cuda_13_1(self) -> (r: bool)
        ensures
            r == (self.spec_raw() >= CUDA_13_1_DRIVER_VERSION),
    {
        self.raw >= CUDA_13_1_DRIVER_VERSION
    }

    /// How the version is displayed: `major.minor`.
    pub open spec fn spec_display(self) -> Seq<char> {
        decimal(self.spec_major()) + seq!['.'] + decimal(self.spec_minor())
    }

    /// The version as it is displayed, such as `13.1`.
    pub fn to_string(&self) -> (r: String)
        ensures
            r@ == self.spec_display(),
    {
        let mut chars = decimal_chars(self.major() as i64);
        chars.push('.');
        let minor = decimal_chars(self.minor() as i64);
        let mut i: usize = 0;
        let ghost head = chars@;
        while i < minor.len()
            invariant
                chars@ == head + minor@.take(i as int),
                i <= minor@.len(),
            decreases minor@.len() - i,
        {
            chars.push(minor[i]);
            proof {
                assert(minor@.take(i + 1) =~= minor@.take(i as int).push(minor@[i as int]));
            }
            i = i + 1;
        }
        proof {
            assert(minor@.take(minor@.len() as int) =~= minor@);
        }
        string_from_chars(chars.as_slice())
    }
}

/// Why GPU compute can or cannot be used.
#[derive(Debug, Clone, Copy, PartialEq, Eq, Structural)]
pub enum CudaSupport {
    /// The NVIDIA driver library cannot be loaded.
    DriverMissing,
    /// The driver version could not be read.
    DriverVersionUnknown,
    /// The driver is older than CUDA 13.0.
    DriverTooOld(CudaDriverVersion),
    /// The compute capability of the GPU could not be read.
    ComputeCapabilityUnknown(CudaDriverVersion),
    /// The GPU is older than Ampere.
    ComputeCapabilityTooLow(CudaDriverVersion, i32, i32),
    /// GPU compute can be used.
    Supported(CudaDriverVersion, i32, i32),
}

/// Whether compute capability `(major, minor)` is at least Ampere's (8.0).
pub open spec fn capability_sufficient(major: int, minor: int) -> bool {
    major > MIN_COMPUTE_CAPABILITY_MAJOR || (major == MIN_COMPUTE_CAPABILITY_MAJOR && minor
        >= MIN_COMPUTE_CAPABILITY_MINOR)
}

/// The verdict on GPU compute from what the driver reports, checked in order: the driver
/// library, its version (CUDA 13.0 or newer), then the compute capability of device 0.
pub open spec fn cuda_support(
    library_available: bool,
    version: Option<CudaDriverVersion>,
    capability: Option<(i32, i32)>,
) -> CudaSupport {
    if !library_available {
        CudaSupport::DriverMissing
    } else {
        match version {
            None => CudaSupport::DriverVersionUnknown,
            Some(v) => if v.spec_raw() < CUDA_13_0_DRIVER_VERSION {
                CudaSupport::DriverTooOld(v)
            } else {
                match capability {
                    None => CudaSupport::ComputeCapabilityUnknown(v),
                    Some((major, minor)) => if capability_sufficient(major as int, minor as int) {
                        CudaSupport::Supported(v, major, minor)
                    } else {
                        CudaSupport::ComputeCapabilityTooLow(v, major, minor)
                    },
                }
            },
        }
    }
}

/// The verdict on GPU compute. `version` is what `cuDriverGetVersion` reported (`None` when
/// it failed) and `capability` the compute capability of device 0 (`None` when it could not
/// be read); neither is consulted when an earlier check already failed.
pub fn cuda_support_verdict(
    library_available: bool,
    version: Option<CudaDriverVersion>,
    capability: Option<(i32, i32)>,
) -> (r: CudaSupport)
    ensures
        r == cuda_support(library_available, version, capability),
{
    if !library_available {
        return CudaSupport::DriverMissing;
    }
    match version {
        None => CudaSupport::DriverVersionUnknown,
        Some(v) => {
            if !v.supports_cuda_13_0() {
                CudaSupport::DriverTooOld(v)
            } else {
                match capability {
                    None => CudaSupport::ComputeCapabilityUnknown(v),
                    Some((major, minor)) => {
                        if major > MIN_COMPUTE_CAPABILITY_MAJOR || (major
                            == MIN_COMPUTE_CAPABILITY_MAJOR && minor
                            >= MIN_COMPUTE_CAPABILITY_MINOR) {
                            CudaSupport::Supported(v, major, minor)
                        } else {
                            CudaSupport::ComputeCapabilityTooLow(v, major, minor)
                        }
                    },
                }
            }
        },
    }
}

/// Whether GPU compute should be used: the driver loads, supports CUDA 13.0 or newer, and
/// device 0 is an Ampere or newer GPU.
pub fn check_cuda_driver_support(
    library_available: bool,
    version: Option<CudaDriverVersion>,
    capability: Option<(i32, i32)>,
) -> (r: bool)
    ensures
        r == (cuda_support(library_available, version, capability) is Supported),
{
    match cuda_support_verdict(library_available, version, capability) {
        CudaSupport::Supported(..) => true,
        _ => false,
    }
}

/// Whether the CUDA runtime package is wanted: the user wants the GPU, the driver library
/// loads and its version supports CUDA 13.0.
pub open spec fn runtime_package_wanted(wants_gpu: bool, library_available: bool, version: Option<CudaDriverVersion>) -> bool {
    wants_gpu && library_available && (version is Some && version->0.spec_raw() >= CUDA_13_0_DRIVER_VERSION)
}

/// Whether llama.cpp's CUDA build is wanted: as the runtime package, but with CUDA 13.1.
pub open spec fn llama_cuda_wanted(wants_gpu: bool, library_available: bool, version: Option<CudaDriverVersion>) -> bool {
    wants_gpu && library_available && (version is Some && version->0.spec_raw() >= CUDA_13_1_DRIVER_VERSION)
}

/// Whether the CUDA runtime package is wanted: the user wants the GPU, the driver library
/// loads and its version supports CUDA 13.0.
pub fn package_enabled(wants_gpu: bool, library_available: bool, version: Option<CudaDriverVersion>) -> (r: bool)
    ensures
        r == runtime_package_wanted(wants_gpu, library_available, version),
{
    wants_gpu && library_available && match version {
        Some(v) => v.supports_cuda_13_0(),
        None => false,
    }
}

/// Whether llama.cpp should use its CUDA build: as `package_enabled`, but with CUDA 13.1.
pub fn llama_cuda_enabled(wants_gpu: bool, library_available: bool, version: Option<CudaDriverVersion>) -> (r: bool)
    ensures
        r == llama_cuda_wanted(wants_gpu, library_available, version),
{
    wants_gpu && library_available && match version {
        Some(v) => v.supports_cuda_13_1(),
        None => false,
    }
}

/// Whether the installed runtime is complete: the install is current and every runtime
/// library (`dylib_present[i]` for the `i`-th) is on disk.
pub fn package_present(install_current: bool, dylib_present: &[bool]) -> (r: bool)
    ensures
        r == (install_current && forall|i: int| 0 <= i < dylib_present@.len() ==> dylib_present@[i]),
{
    if !install_current {
        return false;
    }
    let mut i: usize = 0;
    while i < dylib_present.len()
        invariant
            i <= dylib_present@.len(),
            forall|k: int| 0 <= k < i ==> dylib_present@[k],
        decreases dylib_present@.len() - i,
    {
        if !dylib_present[i] {
            return false;
        }
        i = i + 1;
    }
    true
}

/// The operating system the runtime is prepared for.
#[derive(Debug, Clone, Copy, PartialEq, Eq, Structural)]
pub enum TargetOs {
    Windows,
    Linux,
    Other,
}

/// The processor architecture the runtime is prepared for.
#[derive(Debug, Clone, Copy, PartialEq, Eq, Structural)]
pub enum TargetArch {
    X86_64,
    Other,
}

/// A Python wheel that carries part of the CUDA runtime, and the libraries taken from it.
pub struct WheelSpec {
    /// `distribution/version` on PyPI.
    pub package: &'static str,
    /// Libraries to extract and preload on Windows, in load order.
    pub windows_dylibs: Vec<&'static str>,
    /// Libraries to extract and preload on Linux, in load order.
    pub linux_dylibs: Vec<&'static str>,
}

/// The packages of the runtime wheels, in install order.
pub open spec fn wheel_packages() -> Seq<Seq<char>> {
    seq![seq!['n', 'v', 'i', 'd', 'i', 'a', '-', 'c', 'u', 'd', 'a', '-', 'r', 'u', 'n', 't', 'i', 'm', 'e', '/', '1', '3', '.', '0', '.', '9', '6'], seq!['n', 'v', 'i', 'd', 'i', 'a', '-', 'c', 'u', 'b', 'l', 'a', 's', '/', '1', '3', '.', '0', '.', '2', '.', '1', '4'], seq!['n', 'v', 'i', 'd', 'i', 'a', '-', 'c', 'u', 'f', 'f', 't', '/', '1', '2', '.', '1', '.', '0', '.', '7', '8'], seq!['n', 'v', 'i', 'd', 'i', 'a', '-', 'c', 'u', 'r', 'a', 'n', 'd', '/', '1', '0', '.', '4', '.', '1', '.', '8', '1'], seq!['n', 'v', 'i', 'd', 'i', 'a', '-', 'c', 'u', 'd', 'n', 'n', '-', 'c', 'u', '1', '3', '/', '9', '.', '2', '1', '.', '0', '.', '8', '2']]
}

/// The Windows libraries of each runtime wheel.
pub open spec fn wheel_windows_dylibs() -> Seq<Seq<Seq<char>>> {
    seq![seq![seq!['c', 'u', 'd', 'a', 'r', 't', '6', '4', '_', '1', '3', '.', 'd', 'l', 'l']], seq![seq!['c', 'u', 'b', 'l', 'a', 's', 'L', 't', '6', '4', '_', '1', '3', '.', 'd', 'l', 'l'], seq!['c', 'u', 'b', 'l', 'a', 's', '6', '4', '_', '1', '3', '.', 'd', 'l', 'l']], seq![seq!['c', 'u', 'f', 'f', 't', '6', '4', '_', '1', '2', '.', 'd', 'l', 'l']], seq![seq!['c', 'u', 'r', 'a', 'n', 'd', '6', '4', '_', '1', '0', '.', 'd', 'l', 'l']], seq![seq!['c', 'u', 'd', 'n', 'n', '6', '4', '_', '9', '.', 'd', 'l', 'l'], seq!['c', 'u', 'd', 'n', 'n', '_', 'a', 'd', 'v', '6', '4', '_', '9', '.', 'd', 'l', 'l'], seq!['c', 'u', 'd', 'n', 'n', '_', 'c', 'n', 'n', '6', '4', '_', '9', '.', 'd', 'l', 'l'], seq!['c', 'u', 'd', 'n', 'n', '_', 'e', 'n', 'g', 'i', 'n', 'e', 's', '_', 'p', 'r', 'e', 'c', 'o', 'm', 'p', 'i', 'l', 'e', 'd', '6', '4', '_', '9', '.', 'd', 'l', 'l'], seq!['c', 'u', 'd', 'n', 'n', '_', 'e', 'n', 'g', 'i', 'n', 'e', 's', '_', 'r', 'u', 'n', 't', 'i', 'm', 'e', '_', 'c', 'o', 'm', 'p', 'i', 'l', 'e', 'd', '6', '4', '_', '9', '.', 'd', 'l', 'l'], seq!['c', 'u', 'd', 'n', 'n', '_', 'e', 'n', 'g', 'i', 'n', 'e', 's', '_', 't', 'e', 'n', 's', 'o', 'r', '_', 'i', 'r', '6', '4', '_', '9', '.', 'd', 'l', 'l'], seq!['c', 'u', 'd', 'n', 'n', '_', 'g', 'r', 'a', 'p', 'h', '6', '4', '_', '9', '.', 'd', 'l', 'l'], seq!['c', 'u', 'd', 'n', 'n', '_', 'h', 'e', 'u', 'r', 'i', 's', 't', 'i', 'c', '6', '4', '_', '9', '.', 'd', 'l', 'l'], seq!['c', 'u', 'd', 'n', 'n', '_', 'o', 'p', 's', '6', '4', '_', '9', '.', 'd', 'l', 'l']]]
}

/// The Linux libraries of each runtime wheel.
pub open spec fn wheel_linux_dylibs() -> Seq<Seq<Seq<char>>> {
    seq![seq![seq!['l', 'i', 'b', 'c', 'u', 'd', 'a', 'r', 't', '.', 's', 'o', '.', '1', '3']], seq![seq!['l', 'i', 'b', 'c', 'u', 'b', 'l', 'a', 's', 'L', 't', '.', 's', 'o', '.', '1', '3'], seq!['l', 'i', 'b', 'c', 'u', 'b', 'l', 'a', 's', '.', 's', 'o', '.', '1', '3']], seq![seq!['l', 'i', 'b', 'c', 'u', 'f', 'f', 't', '.', 's', 'o', '.', '1', '2']], seq![seq!['l', 'i', 'b', 'c', 'u', 'r', 'a', 'n', 'd', '.', 's', 'o', '.', '1', '0']], seq![seq!['l', 'i', 'b', 'c', 'u', 'd', 'n', 'n', '.', 's', 'o', '.', '9'], seq!['l', 'i', 'b', 'c', 'u', 'd', 'n', 'n', '_', 'a', 'd', 'v', '.', 's', 'o', '.', '9'], seq!['l', 'i', 'b', 'c', 'u', 'd', 'n', 'n', '_', 'c', 'n', 'n', '.', 's', 'o', '.', '9'], seq!['l', 'i', 'b', 'c', 'u', 'd', 'n', 'n', '_', 'e', 'n', 'g', 'i', 'n', 'e', 's', '_', 'p', 'r', 'e', 'c', 'o', 'm', 'p', 'i', 'l', 'e', 'd', '.', 's', 'o', '.', '9'], seq!['l', 'i', 'b', 'c', 'u', 'd', 'n', 'n', '_', 'e', 'n', 'g', 'i', 'n', 'e', 's', '_', 'r', 'u', 'n', 't', 'i', 'm', 'e', '_', 'c', 'o', 'm', 'p', 'i', 'l', 'e', 'd', '.', 's', 'o', '.', '9'], seq!['l', 'i', 'b', 'c', 'u', 'd', 'n', 'n', '_', 'e', 'n', 'g', 'i', 'n', 'e', 's', '_', 't', 'e', 'n', 's', 'o', 'r', '_', 'i', 'r', '.', 's', 'o', '.', '9'], seq!['l', 'i', 'b', 'c', 'u', 'd', 'n', 'n', '_', 'g', 'r', 'a', 'p', 'h', '.', 's', 'o', '.', '9'], seq!['l', 'i', 'b', 'c', 'u', 'd', 'n', 'n', '_', 'h', 'e', 'u', 'r', 'i', 's', 't', 'i', 'c', '.', 's', 'o', '.', '9'], seq!['l', 'i', 'b', 'c', 'u', 'd', 'n', 'n', '_', 'o', 'p', 's', '.', 's', 'o', '.', '9']]]
}

/// The runtime wheels, in install order.
pub fn wheels() -> (r: Vec<WheelSpec>)
    ensures
        r@.len() == wheel_packages().len(),
        forall|i: int|
            0 <= i < r@.len() ==> {
                &&& #[trigger] r@[i].package@ == wheel_packages()[i]
                &&& str_views(r@[i].windows_dylibs@) == wheel_windows_dylibs()[i]
                &&& str_views(r@[i].linux_dylibs@) == wheel_linux_dylibs()[i]
            },
{
    proof {
        reveal_strlit("nvidia-cuda-runtime/13.0.96");
        reveal_strlit("cudart64_13.dll");
        reveal_strlit("libcudart.so.13");
        reveal_strlit("nvidia-cublas/13.0.2.14");
        reveal_strlit("cublasLt64_13.dll");
        reveal_strlit("cublas64_13.dll");
        reveal_strlit("libcublasLt.so.13");
        reveal_strlit("libcublas.so.13");
        reveal_strlit("nvidia-cufft/12.1.0.78");
        reveal_strlit("cufft64_12.dll");
        reveal_strlit("libcufft.so.12");
        reveal_strlit("nvidia-curand/10.4.1.81");
        reveal_strlit("curand64_10.dll");
        reveal_strlit("libcurand.so.10");
        reveal_strlit("nvidia-cudnn-cu13/9.21.0.82");
        reveal_strlit("cudnn64_9.dll");
        reveal_strlit("cudnn_adv64_9.dll");
        reveal_strlit("cudnn_cnn64_9.dll");
        reveal_strlit("cudnn_engines_precompiled64_9.dll");
        reveal_strlit("cudnn_engines_runtime_compiled64_9.dll");
        reveal_strlit("cudnn_engines_tensor_ir64_9.dll");
        reveal_strlit("cudnn_graph64_9.dll");
        reveal_strlit("cudnn_heuristic64_9.dll");
        reveal_strlit("cudnn_ops64_9.dll");
        reveal_strlit("libcudnn.so.9");
        reveal_strlit("libcudnn_adv.so.9");
        reveal_strlit("libcudnn_cnn.so.9");
        reveal_strlit("libcudnn_engines_precompiled.so.9");
        reveal_strlit("libcudnn_engines_runtime_compiled.so.9");
        reveal_strlit("libcudnn_engines_tensor_ir.so.9");
        reveal_strlit("libcudnn_graph.so.9");
        reveal_strlit("libcudnn_heuristic.so.9");
        reveal_strlit("libcudnn_ops.so.9");
    }
    let r = vec![
        WheelSpec {
            package: "nvidia-cuda-runtime/13.0.96",
            windows_dylibs: vec!["cudart64_13.dll"],
            linux_dylibs: vec!["libcudart.so.13"],
        },
        WheelSpec {
            package: "nvidia-cublas/13.0.2.14",
            windows_dylibs: vec!["cublasLt64_13.dll", "cublas64_13.dll"],
            linux_dylibs: vec!["libcublasLt.so.13", "libcublas.so.13"],
        },
        WheelSpec {
            package: "nvidia-cufft/12.1.0.78",
            windows_dylibs: vec!["cufft64_12.dll"],
            linux_dylibs: vec!["libcufft.so.12"],
        },
        WheelSpec {
            package: "nvidia-curand/10.4.1.81",
            windows_dylibs: vec!["curand64_10.dll"],
            linux_dylibs: vec!["libcurand.so.10"],
        },
        WheelSpec {
            package: "nvidia-cudnn-cu13/9.21.0.82",
            windows_dylibs: vec!["cudnn64_9.dll", "cudnn_adv64_9.dll", "cudnn_cnn64_9.dll", "cudnn_engines_precompiled64_9.dll", "cudnn_engines_runtime_compiled64_9.dll", "cudnn_engines_tensor_ir64_9.dll", "cudnn_graph64_9.dll", "cudnn_heuristic64_9.dll", "cudnn_ops64_9.dll"],
            linux_dylibs: vec!["libcudnn.so.9", "libcudnn_adv.so.9", "libcudnn_cnn.so.9", "libcudnn_engines_precompiled.so.9", "libcudnn_engines_runtime_compiled.so.9", "libcudnn_engines_tensor_ir.so.9", "libcudnn_graph.so.9", "libcudnn_heuristic.so.9", "libcudnn_ops.so.9"],
        },
    ];
    proof {
        assert(str_views(r@[0].windows_dylibs@) =~~= wheel_windows_dylibs()[0]);
        assert(str_views(r@[0].linux_dylibs@) =~~= wheel_linux_dylibs()[0]);
        assert(str_views(r@[1].windows_dylibs@) =~~= wheel_windows_dylibs()[1]);
        assert(str_views(r@[1].linux_dylibs@) =~~= wheel_linux_dylibs()[1]);
        assert(str_views(r@[2].windows_dylibs@) =~~= wheel_windows_dylibs()[2]);
        assert(str_views(r@[2].linux_dylibs@) =~~= wheel_linux_dylibs()[2]);
        assert(str_views(r@[3].windows_dylibs@) =~~= wheel_windows_dylibs()[3]);
        assert(str_views(r@[3].linux_dylibs@) =~~= wheel_linux_dylibs()[3]);
        assert(str_views(r@[4].windows_dylibs@) =~~= wheel_windows_dylibs()[4]);
        assert(str_views(r@[4].linux_dylibs@) =~~= wheel_linux_dylibs()[4]);
    }
    r
}

impl WheelSpec {
    /// The libraries taken from the wheel on `os`, in load order (none on other systems).
    pub fn dylibs(&self, os: TargetOs) -> (r: Vec<&'static str>)
        ensures
            r@ == match os {
                TargetOs::Windows => self.windows_dylibs@,
                TargetOs::Linux => self.linux_dylibs@,
                TargetOs::Other => Seq::empty(),
            },
    {
        let src: &Vec<&'static str> = match os {
            TargetOs::Windows => &self.windows_dylibs,
            TargetOs::Linux => &self.linux_dylibs,
            TargetOs::Other => {
                return Vec::new();
            },
        };
        let mut out: Vec<&'static str> = Vec::new();
        let mut i: usize = 0;
        while i < src.len()
            invariant
                i <= src@.len(),
                out@ == src@.take(i as int),
            decreases src@.len() - i,
        {
            out.push(src[i]);
            proof {
                assert(src@.take(i + 1) =~= src@.take(i as int).push(src@[i as int]));
            }
            i = i + 1;
        }
        proof {
            assert(src@.take(src@.len() as int) =~= src@);
        }
        out
    }
}

/// The wheel platform tags that fit `(os, arch)`, best first; `None` where no CUDA wheels
/// exist.
pub open spec fn platform_tag_list(os: TargetOs, arch: TargetArch) -> Option<Seq<Seq<char>>> {
    match (os, arch) {
        (TargetOs::Windows, TargetArch::X86_64) => Some(seq![seq!['w', 'i', 'n', '_', 'a', 'm', 'd', '6', '4']]),
        (TargetOs::Linux, TargetArch::X86_64) => Some(seq![seq!['m', 'a', 'n', 'y', 'l', 'i', 'n', 'u', 'x', '_', '2', '_', '2', '7', '_', 'x', '8', '6', '_', '6', '4'], seq!['m', 'a', 'n', 'y', 'l', 'i', 'n', 'u', 'x', '_', '2', '_', '1', '7', '_', 'x', '8', '6', '_', '6', '4']]),
        _ => None,
    }
}

/// The wheel platform tags that fit `(os, arch)`, best first; `None` where no CUDA wheels
/// exist.
pub fn platform_tags(os: TargetOs, arch: TargetArch) -> (r: Option<Vec<&'static str>>)
    ensures
        match r {
            Some(v) => platform_tag_list(os, arch) == Some(str_views(v@)),
            None => platform_tag_list(os, arch) is None,
        },
{
    proof {
        reveal_strlit("win_amd64");
        reveal_strlit("manylinux_2_27_x86_64");
        reveal_strlit("manylinux_2_17_x86_64");
    }
    match (os, arch) {
        (TargetOs::Windows, TargetArch::X86_64) => {
            let v = vec!["win_amd64"];
            proof {
                assert(str_views(v@) =~~= seq![seq!['w', 'i', 'n', '_', 'a', 'm', 'd', '6', '4']]);
            }
            Some(v)
        },
        (TargetOs::Linux, TargetArch::X86_64) => {
            let v = vec!["manylinux_2_27_x86_64", "manylinux_2_17_x86_64"];
            proof {
                assert(str_views(v@) =~~= seq![seq!['m', 'a', 'n', 'y', 'l', 'i', 'n', 'u', 'x', '_', '2', '_', '2', '7', '_', 'x', '8', '6', '_', '6', '4'], seq!['m', 'a', 'n', 'y', 'l', 'i', 'n', 'u', 'x', '_', '2', '_', '1', '7', '_', 'x', '8', '6', '_', '6', '4']]);
            }
            Some(v)
        },
        _ => None,
    }
}

/// The identity of a CUDA install for `(os, arch)`: the platform tags, the wheels and the
/// extraction revision, in the form
/// `cuda;platform={tags};wheels={packages};extract={revision}`.
pub open spec fn spec_source_id(os: TargetOs, arch: TargetArch) -> Option<Seq<char>> {
    match platform_tag_list(os, arch) {
        Some(tags) => Some(seq!['c', 'u', 'd', 'a', ';', 'p', 'l', 'a', 't', 'f', 'o', 'r', 'm', '='] + joined(tags, seq![',']) + seq![';', 'w', 'h', 'e', 'e', 'l', 's', '='] + joined(
            wheel_packages(),
            seq![','],
        ) + seq![';', 'e', 'x', 't', 'r', 'a', 'c', 't', '='] + decimal(CUDA_EXTRACT_REVISION as int)),
        None => None,
    }
}

/// The identity of a CUDA install for `(os, arch)`, which tells whether an install is
/// current; `None` where no CUDA wheels exist.
pub fn source_id(os: TargetOs, arch: TargetArch) -> (r: Option<String>)
    ensures
        match r {
            Some(s) => spec_source_id(os, arch) == Some(s@),
            None => spec_source_id(os, arch) is None,
        },
{
    let tags = match platform_tags(os, arch) {
        Some(t) => t,
        None => {
            return None;
        },
    };
    let all = wheels();
    let mut packages: Vec<&'static str> = Vec::new();
    let mut i: usize = 0;
    while i < all.len()
        invariant
            all@.len() == wheel_packages().len(),
            forall|k: int| 0 <= k < all@.len() ==> #[trigger] all@[k].package@ == wheel_packages()[k],
            i <= all@.len(),
            packages@.len() == i,
            forall|k: int| 0 <= k < i ==> #[trigger] packages@[k]@ == wheel_packages()[k],
        decreases all@.len() - i,
    {
        packages.push(all[i].package);
        i = i + 1;
    }
    proof {
        assert(str_views(packages@) =~= wheel_packages());
        reveal_strlit("cuda;platform=");
        reveal_strlit(";wheels=");
        reveal_strlit(";extract=");
        reveal_strlit(",");
        assert("cuda;platform="@ =~= seq!['c', 'u', 'd', 'a', ';', 'p', 'l', 'a', 't', 'f', 'o', 'r', 'm', '=']);
        assert(";wheels="@ =~= seq![';', 'w', 'h', 'e', 'e', 'l', 's', '=']);
        assert(";extract="@ =~= seq![';', 'e', 'x', 't', 'r', 'a', 'c', 't', '=']);
        assert(","@ =~= seq![',']);
    }
    let mut out: Vec<char> = Vec::new();
    push_str_chars(&mut out, "cuda;platform=");
    push_joined(&mut out, tags.as_slice(), ",");
    push_str_chars(&mut out, ";wheels=");
    push_joined(&mut out, packages.as_slice(), ",");
    push_str_chars(&mut out, ";extract=");
    let revision = decimal_chars(CUDA_EXTRACT_REVISION as i64);
    let mut k: usize = 0;
    let ghost head = out@;
    while k < revision.len()
        invariant
            out@ == head + revision@.take(k as int),
            k <= revision@.len(),
        decreases revision@.len() - k,
    {
        out.push(revision[k]);
        proof {
            assert(revision@.take(k + 1) =~= revision@.take(k as int).push(revision@[k as int]));
        }
        k = k + 1;
    }
    proof {
        assert(revision@.take(revision@.len() as int) =~= revision@);
        assert(out@ =~= spec_source_id(os, arch)->0);
    }
    Some(string_from_chars(out.as_slice()))
}

/// Whether a file of a PyPI release is a wheel for one of `tags`: its name ends with `.whl`
/// and contains one of the tags.
pub open spec fn wheel_file_fits(filename: Seq<char>, tags: Seq<Seq<char>>) -> bool {
    ends_with_chars(filename, seq!['.', 'w', 'h', 'l']) && exists|j: int|
        0 <= j < tags.len() && contains_chars(filename, #[trigger] tags[j])
}

/// The index of the first of `filenames` that is a wheel for one of `tags`.
pub fn select_wheel_file(filenames: &[&str], tags: &[&str]) -> (r: Option<usize>)
    ensures
        match r {
            Some(i) => i < filenames@.len() && wheel_file_fits(filenames@[i as int]@, str_views(tags@))
                && forall|k: int| 0 <= k < i ==> !wheel_file_fits(filenames@[k]@, str_views(tags@)),
            None => forall|k: int| 0 <= k < filenames@.len() ==> !wheel_file_fits(filenames@[k]@, str_views(tags@)),
        },
{
    proof {
        reveal_strlit(".whl");
        assert(".whl"@ =~= seq!['.', 'w', 'h', 'l']);
    }
    let mut i: usize = 0;
    while i < filenames.len()
        invariant
            ".whl"@ == seq!['.', 'w', 'h', 'l'],
            i <= filenames@.len(),
            forall|k: int| 0 <= k < i ==> !wheel_file_fits(filenames@[k]@, str_views(tags@)),
        decreases filenames@.len() - i,
    {
        let name = filenames[i];
        if ends_with_str(name, ".whl") {
            let mut j: usize = 0;
            while j < tags.len()
                invariant
                    i < filenames@.len(),
                    name == filenames@[i as int],
                    ends_with_chars(name@, seq!['.', 'w', 'h', 'l']),
                    forall|k: int| 0 <= k < i ==> !wheel_file_fits(filenames@[k]@, str_views(tags@)),
                    j <= tags@.len(),
                    forall|m: int| 0 <= m < j ==> !contains_chars(name@, #[trigger] str_views(tags@)[m]),
                decreases tags@.len() - j,
            {
                if contains_str(name, tags[j]) {
                    proof {
                        assert(str_views(tags@)[j as int] == tags@[j as int]@);
                        assert(wheel_file_fits(name@, str_views(tags@)));
                    }
                    return Some(i);
                }
                j = j + 1;
            }
        }
        proof {
            assert(!wheel_file_fits(name@, str_views(tags@)));
        }
        i = i + 1;
    }
    None
}


/// Index of the first `/` of `s` at or after `i` (the length of `s` when none).
pub open spec fn first_slash_from(s: Seq<char>, i: int) -> int
    decreases s.len() - i,
{
    if 0 <= i < s.len() && s[i] != '/' {
        first_slash_from(s, i + 1)
    } else {
        i
    }
}

/// The PyPI JSON metadata URL of a wheel package written `distribution/version`, split at
/// its first `/`; none when it has no `/`.
pub open spec fn pypi_metadata_url_of(package: Seq<char>) -> Option<Seq<char>> {
    let i = first_slash_from(package, 0);
    if i < package.len() {
        Some(
            seq!['h', 't', 't', 'p', 's', ':', '/', '/', 'p', 'y', 'p', 'i', '.', 'o', 'r', 'g', '/', 'p', 'y', 'p', 'i', '/']
                + package.take(i) + seq!['/'] + package.skip(i + 1) + seq!['/', 'j', 's', 'o', 'n'],
        )
    } else {
        None
    }
}

/// The URL of the PyPI JSON metadata of `package` (`distribution/version`), such as
/// `https://pypi.org/pypi/nvidia-cudnn-cu13/9.13.0.50/json`; `None` for a package name
/// without `/`.
pub fn pypi_metadata_url(package: &str) -> (r: Option<String>)
    ensures
        match r {
            Some(u) => pypi_metadata_url_of(package@) == Some(u@),
            None => pypi_metadata_url_of(package@) is None,
        },
{
    let chars = chars_of(package);
    let mut i: usize = 0;
    while i < chars.len() && chars[i] != '/'
        invariant
            chars@ == package@,
            i <= chars@.len(),
            first_slash_from(package@, i as int) == first_slash_from(package@, 0),
        decreases chars@.len() - i,
    {
        i = i + 1;
    }
    if i >= chars.len() {
        return None;
    }
    proof {
        reveal_strlit("https://pypi.org/pypi/");
        reveal_strlit("/json");
    }
    let mut out: Vec<char> = Vec::new();
    push_str_chars(&mut out, "https://pypi.org/pypi/");
    let ghost head = out@;
    let mut k: usize = 0;
    while k < chars.len()
        invariant
            chars@ == package@,
            i < chars@.len(),
            k <= chars@.len(),
            out@ == head + package@.take(k as int),
        decreases chars@.len() - k,
    {
        out.push(chars[k]);
        proof {
            assert(package@.take(k + 1) =~= package@.take(k as int).push(package@[k as int]));
        }
        k = k + 1;
    }
    proof {
        assert(package@.take(k as int) =~= package@);
        assert(package@ =~= package@.take(i as int) + seq!['/'] + package@.skip(i + 1));
    }
    push_str_chars(&mut out, "/json");
    proof {
        assert(out@ =~= pypi_metadata_url_of(package@)->0);
    }
    Some(string_from_chars(out.as_slice()))
}


/// A driver that supports CUDA 13.1 supports CUDA 13.0.
pub proof fn law_cuda_13_1_implies_13_0(v: CudaDriverVersion)
    ensures
        v.spec_raw() >= CUDA_13_1_DRIVER_VERSION ==> v.spec_raw() >= CUDA_13_0_DRIVER_VERSION,
{
}

/// llama.cpp only uses its CUDA build where the CUDA runtime package is wanted too.
pub proof fn law_llama_cuda_needs_runtime_package(wants_gpu: bool, library_available: bool, version: Option<CudaDriverVersion>)
    ensures
        llama_cuda_wanted(wants_gpu, library_available, version) ==> runtime_package_wanted(
            wants_gpu,
            library_available,
            version,
        ),
{
}

/// A non-negative driver version is `1000 * major + 10 * minor` plus its last digit, with a
/// minor version below 100.
pub proof fn law_driver_version_parts(v: CudaDriverVersion)
    ensures
        v.spec_raw() >= 0 ==> v.spec_raw() == 1000 * v.spec_major() + 10 * v.spec_minor() + v.spec_raw() % 10
            && 0 <= v.spec_minor() < 100,
{
}

/// GPU compute is only used with a driver that supports CUDA 13.0 and an Ampere or newer
/// GPU, and then the CUDA runtime package is wanted whenever the user wants the GPU.
pub proof fn law_supported_gpu_meets_requirements(
    library_available: bool,
    version: Option<CudaDriverVersion>,
    capability: Option<(i32, i32)>,
)
    ensures
        cuda_support(library_available, version, capability) is Supported ==> {
            &&& library_available
            &&& version is Some && version->0.spec_raw() >= CUDA_13_0_DRIVER_VERSION
            &&& match capability {
                Some((major, minor)) => capability_sufficient(major as int, minor as int),
                None => false,
            }
            &&& runtime_package_wanted(true, library_available, version)
        },
{
}

} // verus!

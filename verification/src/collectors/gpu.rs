//! GPU collector logic (NVIDIA GPUs through NVML).

use vstd::prelude::*;

use crate::text::{decimal, push_decimal};

verus! {

/// GPU collector errors.
#[derive(Debug, Clone, PartialEq)]
pub enum GpuCollectorError {
    InitError(String),
    CollectionError(String),
    NoGpusFound,
    NvmlError(String),
}

/// The text of an error, as it is reported.
pub open spec fn gpu_error_text(e: GpuCollectorError) -> Seq<char> {
    match e {
        GpuCollectorError::InitError(m) => "Failed to initialize GPU collector: "@ + m@,
        GpuCollectorError::CollectionError(m) => "Failed to collect GPU metrics: "@ + m@,
        GpuCollectorError::NoGpusFound => "No GPUs detected"@,
        GpuCollectorError::NvmlError(m) => "NVML error: "@ + m@,
    }
}

impl GpuCollectorError {
    /// The error's message.
    pub fn message(&self) -> (r: String)
        ensures
            r@ == gpu_error_text(*self),
    {
        match self {
            GpuCollectorError::InitError(m) => {
                let mut r = String::from_str("Failed to initialize GPU collector: ");
                r.append(m.as_str());
                r
            },
            GpuCollectorError::CollectionError(m) => {
                let mut r = String::from_str("Failed to collect GPU metrics: ");
                r.append(m.as_str());
                r
            },
            GpuCollectorError::NoGpusFound => String::from_str("No GPUs detected"),
            GpuCollectorError::NvmlError(m) => {
                let mut r = String::from_str("NVML error: ");
                r.append(m.as_str());
                r
            },
        }
    }
}

/// The GPU collector's state: a handle to the GPU library when it could be
/// initialized, and the number of GPUs it reported.
pub struct GpuCollector<H> {
    pub handle: Option<H>,
    pub gpu_count: u32,
}

impl<H> GpuCollector<H> {
    /// Builds the collector from how initialization went: the library and its
    /// device count (or the failure to count them), or the failure to load
    /// the library. It never fails: without the library there are no GPUs, and
    /// a failed count counts none.
    pub fn from_init<E>(init: Result<(H, Result<u32, E>), E>) -> (r: Self)
        ensures
            match init {
                Ok((h, count)) => r.handle == Some(h) && r.gpu_count == match count {
                    Ok(n) => n,
                    Err(_) => 0,
                },
                Err(_) => r.handle is None && r.gpu_count == 0,
            },
    {
        match init {
            Ok((h, count)) => GpuCollector {
                handle: Some(h),
                gpu_count: match count {
                    Ok(n) => n,
                    Err(_) => 0,
                },
            },
            Err(_) => GpuCollector { handle: None, gpu_count: 0 },
        }
    }

    /// A collector without the GPU library.
    pub fn unavailable() -> (r: Self)
        ensures
            r.handle is None,
            r.gpu_count == 0,
    {
        GpuCollector { handle: None, gpu_count: 0 }
    }

    /// Checks if the library is loaded and GPUs are detected.
    pub fn is_available(&self) -> (r: bool)
        ensures
            r == (self.handle is Some && self.gpu_count > 0),
    {
        self.handle.is_some() && self.gpu_count > 0
    }

    /// The number of detected GPUs.
    pub fn gpu_count(&self) -> (r: u32)
        ensures
            r == self.gpu_count,
    {
        self.gpu_count
    }
}

/// Bytes to whole megabytes (MiB), rounding down.
pub fn bytes_to_mb(bytes: u64) -> (r: u64)
    ensures
        r == bytes / 1_048_576u64,
{
    bytes / 1_048_576
}

/// The name reported for a GPU whose name could not be read.
pub fn fallback_gpu_name(index: u32) -> (r: String)
    ensures
        r@ == "NVIDIA GPU "@ + decimal(index as nat),
{
    let mut r = String::from_str("NVIDIA GPU ");
    push_decimal(&mut r, index as u64);
    r
}

/// The name of the placeholder reported for a GPU whose metrics failed.
pub fn error_gpu_name(index: u32) -> (r: String)
    ensures
        r@ == "GPU "@ + decimal(index as nat) + " (error)"@,
{
    let mut r = String::from_str("GPU ");
    push_decimal(&mut r, index as u64);
    r.append(" (error)");
    r
}

/// Fan speed is queried only when the GPU reports at least one fan.
pub fn has_fans(num_fans: Option<u32>) -> (r: bool)
    ensures
        r == (num_fans matches Some(n) && n > 0),
{
    match num_fans {
        Some(n) => n > 0,
        None => false,
    }
}

} // verus!

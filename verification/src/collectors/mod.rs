//! Collector logic: what the agent makes of the data it reads from the machine.

pub mod cpu;
pub mod events;
pub mod gpu;
pub mod memory;
pub mod network;
pub mod services;
pub mod sessions;
pub mod storage;
pub mod updates;

use vstd::prelude::*;

use self::cpu::CpuCollectorError;
use self::gpu::{GpuCollector, GpuCollectorError};
use self::memory::MemoryCollectorError;
use self::network::NetworkCollectorError;
use self::services::ServiceCollector;
use self::storage::StorageCollectorError;
use crate::api::health::CollectorFlags;

verus! {

/// Registry of all hardware collectors. A collector that is disabled in the
/// configuration, or whose initialization failed, is absent; the GPU
/// collector is always present (it reports no GPUs when it is disabled or
/// none can be queried).
pub struct CollectorRegistry<C, H, M, S, N, P> {
    pub cpu: Option<C>,
    pub gpu: GpuCollector<H>,
    pub memory: Option<M>,
    pub storage: Option<S>,
    pub network: Option<N>,
    pub processes: P,
    pub services: ServiceCollector,
}

/// The collector an initialization gave, if it succeeded.
pub open spec fn initialized<T, E>(res: Result<T, E>) -> Option<T> {
    match res {
        Ok(t) => Some(t),
        Err(_) => None,
    }
}

/// The GPU collector an initialization gave: the one built, or one without
/// the GPU library when it failed.
pub open spec fn gpu_or_none<H>(res: Result<GpuCollector<H>, GpuCollectorError>, g: GpuCollector<H>) -> bool {
    match res {
        Ok(built) => g == built,
        Err(_) => g.handle is None && g.gpu_count == 0,
    }
}

impl<C, H, M, S, N, P> CollectorRegistry<C, H, M, S, N, P> {
    /// Builds the registry from the configuration's collection flags and the
    /// collectors' initializers. Each enabled collector is initialized once,
    /// and is absent when that fails; a disabled collector is not initialized
    /// at all and is absent (the GPU collector then has no GPUs). Nothing fails.
    pub fn new<FC, FG, FM, FS, FN>(
        enabled: CollectorFlags,
        make_cpu: FC,
        make_gpu: FG,
        make_memory: FM,
        make_storage: FS,
        make_network: FN,
        processes: P,
    ) -> (r: Self) where
        FC: FnOnce() -> Result<C, CpuCollectorError>,
        FG: FnOnce() -> Result<GpuCollector<H>, GpuCollectorError>,
        FM: FnOnce() -> Result<M, MemoryCollectorError>,
        FS: FnOnce() -> Result<S, StorageCollectorError>,
        FN: FnOnce() -> Result<N, NetworkCollectorError>,

        requires
            enabled.cpu ==> make_cpu.requires(()),
            enabled.gpu ==> make_gpu.requires(()),
            enabled.memory ==> make_memory.requires(()),
            enabled.storage ==> make_storage.requires(()),
            enabled.network ==> make_network.requires(()),
        ensures
            !enabled.cpu ==> r.cpu is None,
            enabled.cpu ==> exists|res: Result<C, CpuCollectorError>|
                #[trigger] make_cpu.ensures((), res) && r.cpu == initialized(res),
            !enabled.gpu ==> r.gpu.handle is None && r.gpu.gpu_count == 0,
            enabled.gpu ==> exists|res: Result<GpuCollector<H>, GpuCollectorError>|
                #[trigger] make_gpu.ensures((), res) && gpu_or_none(res, r.gpu),
            !enabled.memory ==> r.memory is None,
            enabled.memory ==> exists|res: Result<M, MemoryCollectorError>|
                #[trigger] make_memory.ensures((), res) && r.memory == initialized(res),
            !enabled.storage ==> r.storage is None,
            enabled.storage ==> exists|res: Result<S, StorageCollectorError>|
                #[trigger] make_storage.ensures((), res) && r.storage == initialized(res),
            !enabled.network ==> r.network is None,
            enabled.network ==> exists|res: Result<N, NetworkCollectorError>|
                #[trigger] make_network.ensures((), res) && r.network == initialized(res),
            r.processes == processes,
    {
        let cpu = if enabled.cpu {
            match make_cpu() {
                Ok(c) => Some(c),
                Err(_) => None,
            }
        } else {
            None
        };
        let gpu = if enabled.gpu {
            match make_gpu() {
                Ok(g) => g,
                Err(_) => GpuCollector::unavailable(),
            }
        } else {
            GpuCollector::unavailable()
        };
        let memory = if enabled.memory {
            match make_memory() {
                Ok(m) => Some(m),
                Err(_) => None,
            }
        } else {
            None
        };
        let storage = if enabled.storage {
            match make_storage() {
                Ok(v) => Some(v),
                Err(_) => None,
            }
        } else {
            None
        };
        let network = if enabled.network {
            match make_network() {
                Ok(n) => Some(n),
                Err(_) => None,
            }
        } else {
            None
        };
        CollectorRegistry {
            cpu,
            gpu,
            memory,
            storage,
            network,
            processes,
            services: ServiceCollector::new(),
        }
    }

    /// Which collectors are available, given whether the GPU collector has GPUs.
    pub fn availability(&self, gpu_available: bool) -> (r: crate::api::health::CollectorFlags)
        ensures
            r.cpu == self.cpu is Some,
            r.gpu == gpu_available,
            r.memory == self.memory is Some,
            r.storage == self.storage is Some,
            r.network == self.network is Some,
    {
        crate::api::health::CollectorFlags {
            cpu: self.cpu.is_some(),
            gpu: gpu_available,
            memory: self.memory.is_some(),
            storage: self.storage.is_some(),
            network: self.network.is_some(),
        }
    }

    /// The critical collectors (CPU and memory) are available.
    pub open spec fn healthy(&self) -> bool {
        self.cpu is Some && self.memory is Some
    }

    /// Checks whether all critical collectors are available.
    pub fn is_healthy(&self) -> (r: bool)
        ensures
            r == self.healthy(),
    {
        self.cpu.is_some() && self.memory.is_some()
    }
}

/// The health report calls the service unhealthy exactly when the registry
/// lacks a critical collector.
pub proof fn lemma_report_matches_registry<C, H, M, S, N, P>(
    registry: CollectorRegistry<C, H, M, S, N, P>,
    gpu_available: bool,
    enabled: crate::api::health::CollectorFlags,
    influx_enabled: bool,
    influx_check_passed: bool,
    uptime_seconds: u64,
)
    ensures
        ({
            let available = crate::api::health::CollectorFlags {
                cpu: registry.cpu is Some,
                gpu: gpu_available,
                memory: registry.memory is Some,
                storage: registry.storage is Some,
                network: registry.network is Some,
            };
            (crate::api::health::health_report(
                available,
                enabled,
                influx_enabled,
                influx_check_passed,
                uptime_seconds,
            ).status == "unhealthy"@) <==> !registry.healthy()
        }),
{
    let available = crate::api::health::CollectorFlags {
        cpu: registry.cpu is Some,
        gpu: gpu_available,
        memory: registry.memory is Some,
        storage: registry.storage is Some,
        network: registry.network is Some,
    };
    crate::api::health::lemma_health_status(
        available,
        enabled,
        influx_enabled,
        influx_check_passed,
        uptime_seconds,
    );
}

} // verus!

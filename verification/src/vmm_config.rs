//! Control-plane configuration of the memory-scaling device: the typed
//! request and response bodies, the errors surfaced to the caller, and the
//! store holding the device once configured.

use vstd::prelude::*;
use crate::faascale_mem::FaascaleMem;
use crate::faascale_mem::FaascaleMemConfig;

verus! {

/// Errors of the operations allowed on the memory-scaling device.
#[derive(Clone, Copy, Debug, PartialEq, Eq, Structural)]
pub enum FaascaleMemConfigError {
    /// The user made a request on an inexistent device.
    DeviceNotFound,
    /// Device not activated yet.
    DeviceNotActive,
    /// The user tried to enable or disable the statistics after boot.
    InvalidStatsUpdate,
    /// Amount of pages requested is too large.
    TooManyPagesRequested,
    /// The user polled the statistics of a device that does not have the
    /// statistics enabled.
    StatsNotFound,
    /// Failed to create the device.
    CreateFailure(crate::faascale_mem::Error),
    /// Failed to update the configuration of the device.
    UpdateFailure(i32),
}

/// The strongly typed body of a device-configuration request.
#[derive(Clone, Copy, Debug, PartialEq, Eq, Structural)]
pub struct FaascaleMemDeviceConfig {
    /// Interval in seconds between refreshing statistics.
    pub stats_polling_interval_s: u16,
    /// Whether to pre-allocate memory for populated blocks.
    pub pre_alloc_mem: bool,
    /// Whether to pre-fault second-level page tables for populated blocks.
    pub pre_tdp_fault: bool,
}

impl Default for FaascaleMemDeviceConfig {
    fn default() -> (r: Self)
        ensures
            r.stats_polling_interval_s == 0,
            r.pre_alloc_mem == false,
            r.pre_tdp_fault == false,
    {
        FaascaleMemDeviceConfig {
            stats_polling_interval_s: 0,
            pre_alloc_mem: false,
            pre_tdp_fault: false,
        }
    }
}

impl From<FaascaleMemConfig> for FaascaleMemDeviceConfig {
    fn from(state: FaascaleMemConfig) -> (r: Self) {
        FaascaleMemDeviceConfig {
            stats_polling_interval_s: state.stats_polling_interval_s,
            pre_alloc_mem: state.pre_alloc_mem,
            pre_tdp_fault: state.pre_tdp_fault,
        }
    }
}

impl vstd::std_specs::convert::FromSpecImpl<FaascaleMemConfig> for FaascaleMemDeviceConfig {
    open spec fn obeys_from_spec() -> bool {
        true
    }

    open spec fn from_spec(state: FaascaleMemConfig) -> Self {
        FaascaleMemDeviceConfig {
            stats_polling_interval_s: state.stats_polling_interval_s,
            pre_alloc_mem: state.pre_alloc_mem,
            pre_tdp_fault: state.pre_tdp_fault,
        }
    }
}

/// The body of a statistics-interval update request.  The statistics cannot
/// be turned on or off after boot; only the polling interval may change.
#[derive(Clone, Copy, Debug, PartialEq, Eq, Structural)]
pub struct FaascaleMemUpdateStatsConfig {
    /// Interval in seconds between refreshing statistics.
    pub stats_polling_interval_s: u16,
}


/// The recognized GET requests on the device's API path.
#[derive(Clone, Copy, Debug, PartialEq, Eq, Structural)]
pub enum FaascaleMemGetRequest {
    /// The device configuration.
    Config,
    /// The statistics snapshot.
    Statistics,
}

/// Decides a GET request from the second path token: no token asks for the
/// configuration, `statistics` for the snapshot, anything else is
/// unrecognized.  The HTTP transport around this decision is external.
pub fn parse_get_faascale_mem(path_second_token: Option<&String>) -> (r: Option<
    FaascaleMemGetRequest,
>)
    ensures
        path_second_token is None ==> r == Some(FaascaleMemGetRequest::Config),
        (path_second_token matches Some(t) && t@ == "statistics"@) ==> r == Some(
            FaascaleMemGetRequest::Statistics,
        ),
        (path_second_token matches Some(t) && t@ != "statistics"@) ==> r is None,
{
    match path_second_token {
        Some(token) => {
            let stats_path: String = "statistics".to_owned();
            if *token == stats_path {
                Some(FaascaleMemGetRequest::Statistics)
            } else {
                None
            }
        },
        None => Some(FaascaleMemGetRequest::Config),
    }
}

/// Store for the configured memory-scaling device.
pub struct FaascaleMemBuilder {
    pub inner: Option<FaascaleMem>,
}

impl FaascaleMemBuilder {
    /// Creates an empty store.
    pub fn new() -> (r: Self)
        ensures
            r.inner is None,
    {
        Self { inner: None }
    }

    /// Builds a device from the configuration and inserts it, overwriting
    /// any present one.
    pub fn set(&mut self, cfg: FaascaleMemDeviceConfig) -> (r: Result<(), FaascaleMemConfigError>)
        ensures
            r is Ok ==> (final(self).inner matches Some(d) && d.wf() && !d.restored
                && d.stats_polling_interval_s == cfg.stats_polling_interval_s && d.pre_alloc_mem
                == cfg.pre_alloc_mem && d.pre_tdp_fault == cfg.pre_tdp_fault
                && d.device_state is Inactive),
            r is Err ==> (r->Err_0 matches FaascaleMemConfigError::CreateFailure(_))
                && final(self).inner == old(self).inner,
    {
        // `restored` is false: this path is never taken by snapshot restore.
        match FaascaleMem::new(
            cfg.stats_polling_interval_s,
            false,
            cfg.pre_alloc_mem,
            cfg.pre_tdp_fault,
        ) {
            Ok(d) => {
                self.inner = Some(d);
                Ok(())
            },
            Err(e) => Err(FaascaleMemConfigError::CreateFailure(e)),
        }
    }

    /// Inserts an existing device.
    pub fn set_device(&mut self, faascale_mem: FaascaleMem)
        ensures
            final(self).inner == Some(faascale_mem),
    {
        self.inner = Some(faascale_mem);
    }

    /// The device, if present.
    pub fn get(&self) -> (r: Option<&FaascaleMem>)
        ensures
            self.inner is Some <==> r is Some,
            r matches Some(d) ==> d == &self.inner->0,
    {
        self.inner.as_ref()
    }

    /// The configuration the present device was built with.
    pub fn get_config(&self) -> (r: Result<FaascaleMemDeviceConfig, FaascaleMemConfigError>)
        ensures
            self.inner is None ==> r == Err::<FaascaleMemDeviceConfig, FaascaleMemConfigError>(
                FaascaleMemConfigError::DeviceNotFound,
            ),
            self.inner matches Some(d) ==> (r matches Ok(c) && c.stats_polling_interval_s
                == d.stats_polling_interval_s && c.pre_alloc_mem == d.pre_alloc_mem
                && c.pre_tdp_fault == d.pre_tdp_fault),
    {
        match self.get() {
            Some(device) => {
                let cfg = device.config();
                Ok(FaascaleMemDeviceConfig::from(cfg))
            },
            None => Err(FaascaleMemConfigError::DeviceNotFound),
        }
    }
}

} // verus!

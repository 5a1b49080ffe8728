//! Shared virtio device-model pieces: activation state, the interrupt
//! trigger's status register, device types and the version feature bit.

use vstd::prelude::*;
use crate::guest_mem::GuestMemoryModel;

verus! {

/// Device type of the balloon device.
pub const TYPE_BALLOON: u32 = 5;

/// Device type of the memory-scaling device.
pub const TYPE_FAASCALE_MEM: u32 = 36;

/// Feature bit: the device conforms to the version 1 specification.
pub const VIRTIO_F_VERSION_1: u32 = 32;

/// Interrupt status bit raised for used-ring (queue) activity.
pub const VIRTIO_MMIO_INT_VRING: u32 = 0x01;

/// Interrupt status bit raised for a configuration change.
pub const VIRTIO_MMIO_INT_CONFIG: u32 = 0x02;

#[derive(Clone, Copy, Debug, PartialEq, Eq, Structural)]
pub enum ActivateError {
    BadActivate,
}

#[derive(Clone, Copy, Debug, PartialEq, Eq, Structural)]
pub enum IrqType {
    /// Interrupt for used-ring activity.
    Vring,
    /// Interrupt for a device configuration change.
    Config,
}

/// The interrupt line to the guest: a status register of pending causes.
/// The transport reads and clears it; the device only raises bits.
#[derive(Clone, Copy, Debug, PartialEq, Eq, Structural)]
pub struct IrqTrigger {
    pub irq_status: u32,
}

/// The status bit for an interrupt cause.
pub open spec fn irq_bit(t: IrqType) -> u32 {
    match t {
        IrqType::Vring => VIRTIO_MMIO_INT_VRING,
        IrqType::Config => VIRTIO_MMIO_INT_CONFIG,
    }
}

impl IrqTrigger {
    pub fn new() -> (r: IrqTrigger)
        ensures
            r.irq_status == 0,
    {
        IrqTrigger { irq_status: 0 }
    }

    /// Raises the status bit of the given interrupt cause.
    pub fn trigger_irq(&mut self, t: IrqType)
        ensures
            final(self).irq_status == old(self).irq_status | irq_bit(t),
    {
        match t {
            IrqType::Vring => {
                self.irq_status = self.irq_status | VIRTIO_MMIO_INT_VRING;
            },
            IrqType::Config => {
                self.irq_status = self.irq_status | VIRTIO_MMIO_INT_CONFIG;
            },
        }
    }

    /// Whether the status bit of the given cause is raised.
    pub fn has_pending_irq(&self, t: IrqType) -> (r: bool)
        ensures
            r == (self.irq_status & irq_bit(t) != 0),
    {
        match t {
            IrqType::Vring => self.irq_status & VIRTIO_MMIO_INT_VRING != 0,
            IrqType::Config => self.irq_status & VIRTIO_MMIO_INT_CONFIG != 0,
        }
    }
}

/// Whether the device has been activated, and with which guest memory.
pub enum DeviceState {
    Inactive,
    Activated(GuestMemoryModel),
}

impl DeviceState {
    pub fn is_activated(&self) -> (r: bool)
        ensures
            r == (self is Activated),
    {
        match self {
            DeviceState::Activated(_) => true,
            DeviceState::Inactive => false,
        }
    }
}

} // verus!

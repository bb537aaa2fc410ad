//! Verified device-emulation building blocks: address buses, PCI
//! configuration space, memory-mapped register files, xHCI rings and
//! TRB layouts, and GPU buffer formats.

pub mod bits;
pub mod mmio_register;
pub mod mmio_space;
pub mod pci_configuration;
pub mod pci_types;
pub mod bus;
pub mod gpu_buffer;
pub mod pci_device;
pub mod ac97;
pub mod pci_root;
pub mod guest_memory;
pub mod xhci_abi;
pub mod ring_buffer;
pub mod event_ring;
pub mod scatter_gather_buffer;
pub mod xhci_regs;
pub mod usb_error;
pub mod interrupter;
pub mod xhci_transfer;
pub mod usb_hub;
pub mod ring_buffer_controller;
pub mod device_slot;
pub mod xhci;
pub mod host_device;
pub mod libusb_error;
pub mod xhci_controller;
pub mod transfer_ring;
pub mod ring_buffer_consumer;
pub mod xhci_work;

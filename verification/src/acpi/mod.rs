//! The ACPI tables that describe the machine to its guest.
//!
//! The RSDP leads to the XSDT, which lists the FADT and the MADT; the FADT leads
//! to the DSDT, which lists the virtio devices.

pub mod aml;
pub mod dsdt;
pub mod madt;
pub mod root;
pub mod sdt;
pub mod setup;

pub use aml::{aml_device, aml_name, aml_pkg_length, aml_resource_template, aml_string};
pub use dsdt::build_dsdt;
pub use madt::build_madt;
pub use root::{build_fadt, build_rsdp, build_xsdt, FADT_LEN};
pub use sdt::{acpi_checksum, acpi_header};
pub use setup::{
    setup_acpi_tables, Error, DSDT_OFFSET, FADT_OFFSET, MADT_OFFSET, XSDT_OFFSET,
};

# krun_boot

The platform of a small x86_64 virtual machine, as its guest finds it at boot.

- `src/acpi/` builds the ACPI tables (RSDP, XSDT, FADT, MADT, DSDT) and stores
  them in guest memory.
- `src/irq_routing.rs` and `src/ioapic.rs` decide how interrupt lines reach the
  interrupt controllers in the kernel, and how a device's interrupt becomes a
  message-signalled one.
- `src/ioctl.rs` has the numbers of the KVM requests, `src/fdt.rs` the trait
  that devices describe themselves with.
- `src/guest_memory.rs` states what is taken for granted of the `vm-memory`
  crate; `src/irq_routing.rs` and `src/ioctl.rs` do so for `kvm-bindings`.
- `app/` makes the requests to the kernel.

Everything in `src/` is verified with Verus. The properties that relate several
functions are the public proof functions next to them.

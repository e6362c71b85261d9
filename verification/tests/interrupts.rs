use krun_boot::ioapic::{
    msi_from_entry, request_outcome, IrqAction, IrqError, KvmIoapic, KvmMsi, RedirectionEntry,
    SetupError, SetupStep, KVM_PIT_SPEAKER_DUMMY,
};
use krun_boot::ioctl::{iow, iowr, kvm_get_irqchip, kvm_signal_msi};
use krun_boot::irq_routing::{
    irq_routes, routing_table, IrqRoute, KVM_IRQCHIP_IOAPIC, KVM_IRQCHIP_PIC_MASTER,
    KVM_IRQCHIP_PIC_SLAVE, KVM_IRQ_ROUTING_IRQCHIP, KVM_MAX_IRQ_ROUTES,
};

fn redirection_table() -> [RedirectionEntry; 24] {
    let mut table = [RedirectionEntry { vector: 0, dest_id: 0 }; 24];
    for i in 0..24 {
        table[i] = RedirectionEntry { vector: 0x30 + i as u8, dest_id: i as u8 };
    }
    table
}

fn line_msi(line: u32) -> KvmMsi {
    KvmMsi {
        address_lo: 0xFEE0_0000 + 0x1000 * line,
        address_hi: 0,
        data: 0x30 + line,
        flags: 0,
        devid: 0,
    }
}

fn read_for(irq_line: u32) -> IrqAction {
    IrqAction::GetIrqchip { chip_id: kvm_bindings::KVM_IRQCHIP_IOAPIC, irq_line }
}

#[test]
fn constants_are_those_of_the_kernel() {
    assert_eq!(KVM_IRQ_ROUTING_IRQCHIP, kvm_bindings::KVM_IRQ_ROUTING_IRQCHIP);
    assert_eq!(KVM_IRQCHIP_PIC_MASTER, kvm_bindings::KVM_IRQCHIP_PIC_MASTER);
    assert_eq!(KVM_IRQCHIP_PIC_SLAVE, kvm_bindings::KVM_IRQCHIP_PIC_SLAVE);
    assert_eq!(KVM_IRQCHIP_IOAPIC, kvm_bindings::KVM_IRQCHIP_IOAPIC);
    assert_eq!(KVM_PIT_SPEAKER_DUMMY, kvm_bindings::KVM_PIT_SPEAKER_DUMMY);
    assert_eq!(KVM_MAX_IRQ_ROUTES, kvm_bindings::KVM_MAX_IRQ_ROUTES);
}

#[test]
fn request_numbers() {
    assert_eq!(kvm_get_irqchip(), 0xC208_AE62);
    assert_eq!(kvm_signal_msi(), 0x4020_AEA5);
    assert_eq!(iowr(0xAE, 0x62, 520), 0xC208_AE62);
    assert_eq!(iow(0xAE, 0xA5, 32), 0x4020_AEA5);
    assert_eq!(iow(0, 0, 0), 0x4000_0000);
    // Parts that do not fit their fields run into each other.
    assert_eq!(iow(0x100, 0x1FF, 0x1_0000), 0x1_4001_01FF);
}

#[test]
fn routes_of_every_line() {
    let routes = irq_routes();
    assert_eq!(routes.len(), 40);
    let route = |gsi, irqchip, pin| IrqRoute { gsi, type_: 1, flags: 0, irqchip, pin };
    for gsi in 0..24 {
        assert!(routes.contains(&route(gsi, 2, gsi)));
        assert_eq!(routes.contains(&route(gsi, 0, gsi)), gsi < 8);
        if gsi >= 8 {
            assert_eq!(routes.contains(&route(gsi, 1, gsi - 8)), gsi < 16);
        }
    }
    assert_eq!(routes[0], route(0, 2, 0));
    assert_eq!(routes[1], route(0, 0, 0));
    assert_eq!(routes[19], route(9, 1, 1));
    assert_eq!(routes[39], route(23, 2, 23));
    for (i, a) in routes.iter().enumerate() {
        for b in &routes[i + 1..] {
            assert!((a.irqchip, a.pin) != (b.irqchip, b.pin));
        }
    }
}

#[test]
fn routing_table_holds_the_routes() {
    let routes = irq_routes();
    let table = KvmIoapic::setup_irq_routing().ok().unwrap();
    let entries = table.routing.as_slice();
    assert_eq!(entries.len(), routes.len());
    for (entry, route) in entries.iter().zip(&routes) {
        assert_eq!(entry.gsi, route.gsi);
        assert_eq!(entry.type_, route.type_);
        assert_eq!(entry.flags, 0);
        assert_eq!(entry.pad, 0);
    }
}

#[test]
fn routing_table_has_a_limit() {
    let route = IrqRoute { gsi: 7, type_: 1, flags: 3, irqchip: 2, pin: 7 };
    let full = routing_table(&vec![route; 4096]).unwrap();
    assert_eq!(full.routing.as_slice().len(), 4096);
    assert_eq!(full.routing.as_slice()[4095].gsi, 7);
    assert_eq!(full.routing.as_slice()[4095].flags, 3);
    assert!(routing_table(&vec![route; 4097]).is_none());
    assert!(routing_table(&vec![]).unwrap().routing.as_slice().is_empty());
}

#[test]
fn msi_of_a_redirection_entry() {
    let msi = msi_from_entry(RedirectionEntry { vector: 0x41, dest_id: 0xFF });
    assert_eq!(
        msi,
        KvmMsi { address_lo: 0xFEEF_F000, address_hi: 0, data: 0x41, flags: 0, devid: 0 }
    );
    let msi = msi_from_entry(RedirectionEntry { vector: 0, dest_id: 0 });
    assert_eq!(msi.address_lo, 0xFEE0_0000);
}

#[test]
fn setup_asks_in_order() {
    let step = KvmIoapic::setup();
    assert!(matches!(step, SetupStep::CreateIrqChip));
    let step = KvmIoapic::setup_next(step, Ok(()), 9).ok().unwrap();
    assert!(matches!(step, SetupStep::CreatePit2(1)));
    let step = KvmIoapic::setup_next(step, Ok(()), 9).ok().unwrap();
    match &step {
        SetupStep::SetGsiRouting(table) => assert_eq!(table.routing.as_slice().len(), 40),
        _ => panic!("routes expected"),
    }
    match KvmIoapic::setup_next(step, Ok(()), 9) {
        Ok(SetupStep::Ready(ioapic)) => {
            assert_eq!(ioapic.vm_raw_fd(), 9);
            assert_eq!(ioapic.set_irq(Some(5)), Ok(read_for(5)));
        }
        _ => panic!("controller expected"),
    }
}

#[test]
fn setup_stops_at_each_failure() {
    let refused = |step| match KvmIoapic::setup_next(step, Err(22), 9) {
        Err(error) => error,
        Ok(_) => panic!("failure expected"),
    };
    assert_eq!(refused(SetupStep::CreateIrqChip), SetupError::Request(22));
    assert_eq!(refused(SetupStep::CreatePit2(1)), SetupError::Request(22));
    let table = routing_table(&irq_routes()).unwrap();
    assert_eq!(refused(SetupStep::SetGsiRouting(table)), SetupError::Request(22));
    let ready = SetupStep::Ready(KvmIoapic::new(4));
    assert!(matches!(KvmIoapic::setup_next(ready, Err(22), 9), Ok(SetupStep::Ready(_))));
}

#[test]
fn line_is_resolved_once() {
    let mut ioapic = KvmIoapic::new(3);
    assert_eq!(ioapic.set_irq(Some(5)), Ok(read_for(5)));
    assert_eq!(
        ioapic.set_irq_resolved(5, &Ok(redirection_table())),
        Ok(IrqAction::SignalMsi(line_msi(5)))
    );
    assert_eq!(ioapic.set_irq(Some(5)), Ok(IrqAction::SignalMsi(line_msi(5))));
    assert_eq!(ioapic.set_irq(Some(6)), Ok(read_for(6)));
    assert_eq!(
        ioapic.set_irq_resolved(23, &Ok(redirection_table())),
        Ok(IrqAction::SignalMsi(line_msi(23)))
    );
    assert_eq!(ioapic.set_irq(Some(5)), Ok(IrqAction::SignalMsi(line_msi(5))));
}

#[test]
fn failed_resolution_is_not_kept() {
    let mut ioapic = KvmIoapic::new(3);
    assert_eq!(ioapic.set_irq_resolved(5, &Err(14)), Err(IrqError::GetIrqchip(14)));
    assert_eq!(ioapic.set_irq(Some(5)), Ok(read_for(5)));
    // A line that no pin has can still be refused by the kernel.
    assert_eq!(ioapic.set_irq_resolved(99, &Err(14)), Err(IrqError::GetIrqchip(14)));
}

#[test]
fn resolving_alone_keeps_nothing() {
    let ioapic = KvmIoapic::new(3);
    assert_eq!(ioapic.resolve_msi(7, &Ok(redirection_table())), Ok(line_msi(7)));
    assert_eq!(ioapic.resolve_msi(7, &Err(14)), Err(IrqError::GetIrqchip(14)));
    assert_eq!(ioapic.set_irq(Some(7)), Ok(read_for(7)));
}

#[test]
fn resolved_line_keeps_its_interrupt() {
    let mut ioapic = KvmIoapic::new(3);
    let mut moved = redirection_table();
    moved[5] = RedirectionEntry { vector: 0x99, dest_id: 1 };
    let signals = [
        (5, Err(14)),
        (5, Ok(redirection_table())),
        (6, Ok(moved)),
        (5, Ok(moved)),
        (5, Err(14)),
    ];
    let mut reads = Vec::new();
    for (line, answer) in &signals {
        if let Ok(IrqAction::GetIrqchip { irq_line, .. }) = ioapic.set_irq(Some(*line)) {
            reads.push(irq_line);
            let _ = ioapic.set_irq_resolved(irq_line, answer);
        }
    }
    // Line 5 once without success and once with it, line 6 once.
    assert_eq!(reads, vec![5, 5, 6]);
    assert_eq!(ioapic.set_irq(Some(5)), Ok(IrqAction::SignalMsi(line_msi(5))));
    // An answer that comes for a resolved line does not replace what it has.
    assert_eq!(
        ioapic.set_irq_resolved(5, &Ok(moved)),
        Ok(IrqAction::SignalMsi(line_msi(5)))
    );
    assert_eq!(ioapic.set_irq(Some(5)), Ok(IrqAction::SignalMsi(line_msi(5))));
}

#[test]
fn no_line_is_an_error() {
    let ioapic = KvmIoapic::new(3);
    assert_eq!(ioapic.set_irq(None), Err(IrqError::NoIrqLine));
}

#[test]
fn outcome_of_the_injection() {
    assert_eq!(KvmIoapic::signalled(request_outcome(0, 0)), Ok(()));
    assert_eq!(KvmIoapic::signalled(request_outcome(1, 7)), Ok(()));
    assert_eq!(KvmIoapic::signalled(request_outcome(-1, 7)), Err(IrqError::SignalMsi(7)));
}

#[test]
fn no_registers_outside_the_kernel() {
    let ioapic = KvmIoapic::new(3);
    assert_eq!(ioapic.get_mmio_addr(), 0);
    assert_eq!(ioapic.get_mmio_size(), 0);
}

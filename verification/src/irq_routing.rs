//! Which interrupt controller pin each interrupt line drives.

use kvm_bindings::{
    kvm_irq_routing_entry, kvm_irq_routing_entry__bindgen_ty_1, kvm_irq_routing_irqchip,
    KvmIrqRouting,
};
use vmm_sys_util::fam::Error as FamError;
use vstd::prelude::*;

verus! {

/// Number of pins of the I/O APIC, and of interrupt lines (GSIs).
pub const IOAPIC_NUM_PINS: u32 = 24;

/// Number of pins of either 8259 interrupt controller.
pub const PIC_NUM_PINS: u32 = 8;

/// Kind of a route that ends at an interrupt controller in the kernel.
pub const KVM_IRQ_ROUTING_IRQCHIP: u32 = 1;

/// The first 8259 interrupt controller.
pub const KVM_IRQCHIP_PIC_MASTER: u32 = 0;

/// The second 8259 interrupt controller.
pub const KVM_IRQCHIP_PIC_SLAVE: u32 = 1;

/// The I/O APIC.
pub const KVM_IRQCHIP_IOAPIC: u32 = 2;

/// The most routes that a routing table takes.
pub const KVM_MAX_IRQ_ROUTES: usize = 4096;

/// One route: interrupt line `gsi` drives pin `pin` of controller `irqchip`.
#[derive(Clone, Copy, Debug, PartialEq, Eq, Structural)]
pub struct IrqRoute {
    /// The interrupt line.
    pub gsi: u32,
    /// The kind of route.
    pub type_: u32,
    /// Flags of the route.
    pub flags: u32,
    /// The interrupt controller.
    pub irqchip: u32,
    /// The pin of that controller.
    pub pin: u32,
}

/// Declares `vmm_sys_util::fam::Error`: why a routing table could not be made.
#[verifier::external_type_specification]
#[verifier::external_body]
pub struct ExFamError(FamError);

/// A routing table in the form that the kernel takes it in. Verus cannot be
/// told of `kvm_bindings::KvmIrqRouting` itself, whose parameter is bound by a
/// trait of its crate, so the table stands behind this type.
#[verifier::external_body]
pub struct RoutingTable {
    /// The table, for the request that hands it to the kernel.
    pub routing: KvmIrqRouting,
}

/// The routes in a routing table, in order.
pub uninterp spec fn routing_entries(table: RoutingTable) -> Seq<IrqRoute>;

/// A route to an interrupt controller.
pub open spec fn route(gsi: u32, irqchip: u32, pin: u32) -> IrqRoute {
    IrqRoute { gsi, type_: KVM_IRQ_ROUTING_IRQCHIP, flags: 0, irqchip, pin }
}

/// The routes of one interrupt line: the I/O APIC pin of the same number, and
/// for the first sixteen lines also a pin of an 8259 controller.
pub open spec fn routes_of_line(gsi: u32) -> Seq<IrqRoute> {
    let ioapic = route(gsi, KVM_IRQCHIP_IOAPIC, gsi);
    if gsi < PIC_NUM_PINS {
        seq![ioapic, route(gsi, KVM_IRQCHIP_PIC_MASTER, gsi)]
    } else if gsi < 2 * PIC_NUM_PINS {
        seq![ioapic, route(gsi, KVM_IRQCHIP_PIC_SLAVE, (gsi - PIC_NUM_PINS) as u32)]
    } else {
        seq![ioapic]
    }
}

/// The routes of the interrupt lines below `lines`, in order.
pub open spec fn routes(lines: nat) -> Seq<IrqRoute>
    decreases lines,
{
    if lines == 0 {
        Seq::empty()
    } else {
        routes((lines - 1) as nat) + routes_of_line((lines - 1) as u32)
    }
}

/// The position of the I/O APIC route of line `gsi`.
spec fn route_position(gsi: int) -> int {
    if gsi < 16 {
        2 * gsi
    } else {
        16 + gsi
    }
}

/// The line whose route stands at `position`.
spec fn line_at(position: int) -> int {
    if position < 32 {
        position / 2
    } else {
        position - 16
    }
}

/// Where in the list each route stands.
proof fn lemma_routes_by_position(lines: nat)
    requires
        lines <= IOAPIC_NUM_PINS,
    ensures
        routes(lines).len() == route_position(lines as int),
        forall|k: int|
            0 <= k < routes(lines).len() ==> #[trigger] routes(lines)[k] == routes_of_line(
                line_at(k) as u32,
            )[k - route_position(line_at(k))],
    decreases lines,
{
    if lines > 0 {
        lemma_routes_by_position((lines - 1) as nat);
        let before = routes((lines - 1) as nat);
        let added = routes_of_line((lines - 1) as u32);
        assert forall|k: int| 0 <= k < routes(lines).len() implies #[trigger] routes(lines)[k]
            == routes_of_line(line_at(k) as u32)[k - route_position(line_at(k))] by {
            if k < before.len() {
                assert(routes(lines)[k] == before[k]);
            } else {
                assert(line_at(k) == lines - 1);
                assert(routes(lines)[k] == added[k - before.len()]);
            }
        }
    }
}

/// Every interrupt line reaches the I/O APIC, and the first sixteen also reach
/// the 8259 controllers, eight each. That makes forty routes.
pub proof fn every_line_is_routed(gsi: u32)
    requires
        gsi < IOAPIC_NUM_PINS,
    ensures
        routes(IOAPIC_NUM_PINS as nat).len() == 40,
        routes(IOAPIC_NUM_PINS as nat).contains(route(gsi, KVM_IRQCHIP_IOAPIC, gsi)),
        gsi < 8 ==> routes(IOAPIC_NUM_PINS as nat).contains(
            route(gsi, KVM_IRQCHIP_PIC_MASTER, gsi),
        ),
        8 <= gsi < 16 ==> routes(IOAPIC_NUM_PINS as nat).contains(
            route(gsi, KVM_IRQCHIP_PIC_SLAVE, (gsi - 8) as u32),
        ),
{
    lemma_routes_by_position(IOAPIC_NUM_PINS as nat);
    let all = routes(IOAPIC_NUM_PINS as nat);
    let at = route_position(gsi as int);
    assert(all[at] == routes_of_line(gsi)[0]);
    if gsi < 16 {
        assert(all[at + 1] == routes_of_line(gsi)[1]);
    }
}

/// Every route is one that its own line calls for.
pub proof fn every_route_belongs_to_a_line(position: int)
    requires
        0 <= position < routes(IOAPIC_NUM_PINS as nat).len(),
    ensures
        routes(IOAPIC_NUM_PINS as nat)[position].gsi < IOAPIC_NUM_PINS,
        routes_of_line(routes(IOAPIC_NUM_PINS as nat)[position].gsi).contains(
            routes(IOAPIC_NUM_PINS as nat)[position],
        ),
{
    lemma_routes_by_position(IOAPIC_NUM_PINS as nat);
    let gsi = line_at(position) as u32;
    let found = routes(IOAPIC_NUM_PINS as nat)[position];
    assert(found == routes_of_line(gsi)[position - route_position(gsi as int)]);
}

/// No pin of any controller is driven by two routes.
pub proof fn no_pin_is_driven_twice(first: int, second: int)
    requires
        0 <= first < routes(IOAPIC_NUM_PINS as nat).len(),
        0 <= second < routes(IOAPIC_NUM_PINS as nat).len(),
        first != second,
    ensures
        ({
            let a = routes(IOAPIC_NUM_PINS as nat)[first];
            let b = routes(IOAPIC_NUM_PINS as nat)[second];
            a.irqchip != b.irqchip || a.pin != b.pin
        }),
{
    lemma_routes_by_position(IOAPIC_NUM_PINS as nat);
}

/// Calls `KvmIrqRouting::new`, which is `FamStructWrapper::new`: it makes a
/// table of `len` routes that are all zero, and fails only where `len` is above
/// the most routes that a table takes.
#[verifier::external_body]
fn new_table(len: usize) -> (out: Result<RoutingTable, FamError>)
    ensures
        out is Ok <==> len <= KVM_MAX_IRQ_ROUTES,
        out matches Ok(table) ==> routing_entries(table) == Seq::new(
            len as nat,
            |i: int| IrqRoute { gsi: 0, type_: 0, flags: 0, irqchip: 0, pin: 0 },
        ),
{
    let routing = KvmIrqRouting::new(len)?;
    Ok(RoutingTable { routing })
}

/// Calls `KvmIrqRouting::as_mut_slice` and copies `entries` over the routes
/// there. The slice holds the routes of the table, one for one, and the copy
/// needs as many as the table has.
#[verifier::external_body]
fn copy_routes(table: &mut RoutingTable, entries: &Vec<IrqRoute>)
    requires
        entries@.len() == routing_entries(*old(table)).len(),
    ensures
        routing_entries(*final(table)) == entries@,
{
    let convert = |e: &IrqRoute| kvm_irq_routing_entry {
        gsi: e.gsi,
        type_: e.type_,
        flags: e.flags,
        u: kvm_irq_routing_entry__bindgen_ty_1 {
            irqchip: kvm_irq_routing_irqchip { irqchip: e.irqchip, pin: e.pin },
        },
        ..Default::default()
    };
    let converted: Vec<kvm_irq_routing_entry> = entries.iter().map(convert).collect();
    table.routing.as_mut_slice().copy_from_slice(&converted);
}

/// The routes of all interrupt lines.
pub fn irq_routes() -> (out: Vec<IrqRoute>)
    ensures
        out@ == routes(IOAPIC_NUM_PINS as nat),
{
    let mut out: Vec<IrqRoute> = Vec::new();
    let mut gsi: u32 = 0;
    while gsi < IOAPIC_NUM_PINS
        invariant
            gsi <= IOAPIC_NUM_PINS,
            out@ == routes(gsi as nat),
        decreases IOAPIC_NUM_PINS - gsi,
    {
        out.push(
            IrqRoute {
                gsi,
                type_: KVM_IRQ_ROUTING_IRQCHIP,
                flags: 0,
                irqchip: KVM_IRQCHIP_IOAPIC,
                pin: gsi,
            },
        );
        if gsi < 8 {
            out.push(
                IrqRoute {
                    gsi,
                    type_: KVM_IRQ_ROUTING_IRQCHIP,
                    flags: 0,
                    irqchip: KVM_IRQCHIP_PIC_MASTER,
                    pin: gsi,
                },
            );
        } else if gsi < 16 {
            out.push(
                IrqRoute {
                    gsi,
                    type_: KVM_IRQ_ROUTING_IRQCHIP,
                    flags: 0,
                    irqchip: KVM_IRQCHIP_PIC_SLAVE,
                    pin: gsi - 8,
                },
            );
        }
        assert(out@ =~= routes(gsi as nat) + routes_of_line(gsi));
        gsi = gsi + 1;
    }
    out
}

/// The routing table that holds `entries`, or `None` if they are more than a
/// table takes.
pub fn routing_table(entries: &Vec<IrqRoute>) -> (out: Option<RoutingTable>)
    ensures
        out is Some <==> entries@.len() <= KVM_MAX_IRQ_ROUTES,
        out matches Some(table) ==> routing_entries(table) == entries@,
{
    match new_table(entries.len()) {
        Ok(mut table) => {
            copy_routes(&mut table, entries);
            Some(table)
        },
        Err(_) => None,
    }
}

/// There are forty routes, two for each of the first sixteen lines and one for
/// each of the other eight, in the order of the lines. A line first reaches the
/// I/O APIC pin of its own number, which is controller 2; lines 0 to 7 then
/// reach that pin of controller 0, and lines 8 to 15 the pin eight below of
/// controller 1. Every route is of kind 1 and has no flags.
pub proof fn routes_stand_in_the_order_of_the_lines(out: Vec<IrqRoute>, position: int)
    requires
        call_ensures(irq_routes, (), out),
        0 <= position < 40,
    ensures
        out@.len() == 40,
        out@[position].type_ == 1,
        out@[position].flags == 0,
        position < 32 ==> out@[position].gsi == position / 2,
        position >= 32 ==> out@[position].gsi == position - 16,
        position % 2 == 0 || position >= 32 ==> out@[position].irqchip == 2 && out@[position].pin
            == out@[position].gsi,
        position % 2 == 1 && position < 16 ==> out@[position].irqchip == 0 && out@[position].pin
            == out@[position].gsi,
        position % 2 == 1 && 16 <= position < 32 ==> out@[position].irqchip == 1
            && out@[position].pin == out@[position].gsi - 8,
        call_requires(irq_routes, ()),
{
    lemma_routes_by_position(IOAPIC_NUM_PINS as nat);
    assert(out@[position] == routes_of_line(line_at(position) as u32)[position - route_position(
        line_at(position),
    )]);
}

/// Up to 4096 routes make a routing table, which holds them in order and holds
/// nothing else; more make none.
pub proof fn table_holds_what_it_was_made_of(entries: &Vec<IrqRoute>, out: Option<RoutingTable>)
    requires
        call_ensures(routing_table, (entries,), out),
    ensures
        out is Some <==> entries@.len() <= 4096,
        out matches Some(table) ==> routing_entries(table) == entries@,
        call_requires(routing_table, (entries,)),
{
}

} // verus!

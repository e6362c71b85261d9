//! The interrupt controller that lives in the kernel, and how interrupts of
//! devices reach the guest's processors through it.
//!
//! What the kernel is asked to do is decided here, as steps and actions; the
//! requests themselves are made by whoever drives this module.

use crate::irq_routing::{self, irq_routes, routing_table, RoutingTable};
use std::collections::HashMap;
use vstd::prelude::*;

verus! {

broadcast use vstd::std_specs::hash::group_hash_axioms;

/// Address that a message-signalled interrupt for APIC ID 0 is written to.
pub const MSI_ADDRESS_BASE: u32 = 0xFEE0_0000;

/// Keep writes to the speaker port (0x61) in the kernel.
pub const KVM_PIT_SPEAKER_DUMMY: u32 = 1;

/// A message-signalled interrupt: what to write where.
#[derive(Clone, Copy, Debug, PartialEq, Eq, Structural)]
pub struct KvmMsi {
    /// Low half of the address.
    pub address_lo: u32,
    /// High half of the address.
    pub address_hi: u32,
    /// What to write.
    pub data: u32,
    /// Flags of the request.
    pub flags: u32,
    /// The device the interrupt comes from, where the flags say so.
    pub devid: u32,
}

/// What the guest programmed for one pin of the I/O APIC.
#[derive(Clone, Copy, Debug, PartialEq, Eq, Structural)]
pub struct RedirectionEntry {
    /// The interrupt vector.
    pub vector: u8,
    /// The APIC ID that gets the interrupt.
    pub dest_id: u8,
}

/// The interrupt that a redirection entry stands for: the destination in bits
/// 19 to 12 of the address, the vector in bits 7 to 0 of the data, and fixed
/// delivery.
pub open spec fn msi_for(entry: RedirectionEntry) -> KvmMsi {
    KvmMsi {
        address_lo: (MSI_ADDRESS_BASE + 0x1000 * entry.dest_id) as u32,
        address_hi: 0,
        data: entry.vector as u32,
        flags: 0,
        devid: 0,
    }
}

/// Why an interrupt was not signalled. The numbers are the kernel's error
/// codes.
#[derive(Clone, Copy, Debug, PartialEq, Eq, Structural)]
pub enum IrqError {
    /// The device has no interrupt line.
    NoIrqLine,
    /// The I/O APIC could not be read.
    GetIrqchip(i32),
    /// The interrupt could not be injected.
    SignalMsi(i32),
}

/// The next request on the way to signalling an interrupt.
#[derive(Clone, Copy, Debug, PartialEq, Eq, Structural)]
pub enum IrqAction {
    /// Read the state of an interrupt controller, then go on with
    /// `set_irq_resolved` for the line.
    GetIrqchip {
        /// The interrupt controller to read.
        chip_id: u32,
        /// The line that its state is read for.
        irq_line: u32,
    },
    /// Inject this interrupt, then go on with `signalled`.
    SignalMsi(KvmMsi),
}

/// Why the interrupt controller could not be set up.
#[derive(Clone, Copy, Debug, PartialEq, Eq, Structural)]
pub enum SetupError {
    /// The kernel refused a request, with this error code.
    Request(i32),
    /// There was no room for the routing table.
    OutOfMemory,
}

/// The next request on the way to a working interrupt controller.
pub enum SetupStep {
    /// Create the interrupt controllers in the kernel.
    CreateIrqChip,
    /// Create the timer in the kernel, with these flags.
    CreatePit2(u32),
    /// Hand this routing table to the kernel.
    SetGsiRouting(RoutingTable),
    /// Nothing is left to do.
    Ready(KvmIoapic),
}

/// The interrupt controller in the kernel.
pub struct KvmIoapic {
    vm_raw_fd: i32,
    // What each line was resolved to, after the guest programmed its
    // redirection entry. Filled on the first signal of the line.
    msi_cache: HashMap<u32, KvmMsi>,
}

/// What follows the request `step`, given how it went: the controllers, then
/// the timer, then the routes. The first failure ends the setup.
pub open spec fn setup_follows(
    step: SetupStep,
    outcome: Result<(), i32>,
    vm_raw_fd: i32,
    next: Result<SetupStep, SetupError>,
) -> bool {
    match step {
        SetupStep::Ready(_) => next == Ok::<SetupStep, SetupError>(step),
        SetupStep::CreateIrqChip => match outcome {
            Err(errno) => next == Err::<SetupStep, SetupError>(SetupError::Request(errno)),
            Ok(()) => next == Ok::<SetupStep, SetupError>(
                SetupStep::CreatePit2(KVM_PIT_SPEAKER_DUMMY),
            ),
        },
        SetupStep::CreatePit2(_) => match outcome {
            Err(errno) => next == Err::<SetupStep, SetupError>(SetupError::Request(errno)),
            Ok(()) => {
                &&& next matches Ok(SetupStep::SetGsiRouting(table))
                &&& irq_routing::routing_entries(table) == irq_routing::routes(
                    irq_routing::IOAPIC_NUM_PINS as nat,
                )
            },
        },
        SetupStep::SetGsiRouting(_) => match outcome {
            Err(errno) => next == Err::<SetupStep, SetupError>(SetupError::Request(errno)),
            Ok(()) => {
                &&& next matches Ok(SetupStep::Ready(ioapic))
                &&& ioapic.fd() == vm_raw_fd
                &&& ioapic.cache() == Map::<u32, KvmMsi>::empty()
            },
        },
    }
}

/// Where the kernel grants every request, the setup asks for the controllers,
/// for the timer with its speaker stub, and for the routes of all lines, in
/// that order and once each, and ends with a controller that has resolved no
/// line.
pub proof fn setup_runs_in_order(
    vm_raw_fd: i32,
    second: SetupStep,
    third: SetupStep,
    last: SetupStep,
)
    requires
        setup_follows(SetupStep::CreateIrqChip, Ok(()), vm_raw_fd, Ok(second)),
        setup_follows(second, Ok(()), vm_raw_fd, Ok(third)),
        setup_follows(third, Ok(()), vm_raw_fd, Ok(last)),
    ensures
        second == SetupStep::CreatePit2(KVM_PIT_SPEAKER_DUMMY),
        third matches SetupStep::SetGsiRouting(table) && irq_routing::routing_entries(table)
            == irq_routing::routes(irq_routing::IOAPIC_NUM_PINS as nat),
        last matches SetupStep::Ready(ioapic) && ioapic.fd() == vm_raw_fd && ioapic.cache()
            == Map::<u32, KvmMsi>::empty(),
{
}

/// Whatever the setup had reached, short of its end, a refused request ends it
/// with the kernel's error code.
pub proof fn setup_stops_at_the_first_failure(
    step: SetupStep,
    errno: i32,
    vm_raw_fd: i32,
    next: Result<SetupStep, SetupError>,
)
    requires
        !(step is Ready),
        setup_follows(step, Err(errno), vm_raw_fd, next),
    ensures
        next == Err::<SetupStep, SetupError>(SetupError::Request(errno)),
{
}

/// The first request for an interrupt on `irq_line`, given the lines that were
/// resolved before.
pub open spec fn first_action(cache: Map<u32, KvmMsi>, irq_line: Option<u32>) -> Result<
    IrqAction,
    IrqError,
> {
    match irq_line {
        None => Err(IrqError::NoIrqLine),
        Some(irq) => if cache.contains_key(irq) {
            Ok(IrqAction::SignalMsi(cache[irq]))
        } else {
            Ok(IrqAction::GetIrqchip { chip_id: irq_routing::KVM_IRQCHIP_IOAPIC, irq_line: irq })
        },
    }
}

/// The answer to the request for the I/O APIC, with the table as a sequence.
pub open spec fn table_view(outcome: Result<[RedirectionEntry; 24], i32>) -> Result<
    Seq<RedirectionEntry>,
    i32,
> {
    match outcome {
        Ok(redirtbl) => Ok(redirtbl@),
        Err(errno) => Err(errno),
    }
}

/// What a line resolves to, given the redirection table of the I/O APIC or the
/// error code of the request for it.
pub open spec fn resolution(
    irq_line: u32,
    outcome: Result<Seq<RedirectionEntry>, i32>,
) -> Result<KvmMsi, IrqError> {
    match outcome {
        Ok(redirtbl) => Ok(msi_for(redirtbl[irq_line as int])),
        Err(errno) => Err(IrqError::GetIrqchip(errno)),
    }
}

/// The resolved lines after the I/O APIC was read for `irq_line`. A line that
/// was resolved before keeps its interrupt.
pub open spec fn cache_after(
    cache: Map<u32, KvmMsi>,
    irq_line: u32,
    outcome: Result<Seq<RedirectionEntry>, i32>,
) -> Map<u32, KvmMsi> {
    if cache.contains_key(irq_line) {
        cache
    } else {
        match resolution(irq_line, outcome) {
            Ok(msi) => cache.insert(irq_line, msi),
            Err(_) => cache,
        }
    }
}

/// The request that follows the reading of the I/O APIC for `irq_line`.
pub open spec fn second_action(
    cache: Map<u32, KvmMsi>,
    irq_line: u32,
    outcome: Result<Seq<RedirectionEntry>, i32>,
) -> Result<IrqAction, IrqError> {
    if cache.contains_key(irq_line) {
        Ok(IrqAction::SignalMsi(cache[irq_line]))
    } else {
        match resolution(irq_line, outcome) {
            Ok(msi) => Ok(IrqAction::SignalMsi(msi)),
            Err(error) => Err(error),
        }
    }
}

/// An interrupt that a device asks for: the line, and what the kernel would
/// answer if the I/O APIC were read then.
pub struct Signal {
    /// The line of the device.
    pub irq_line: Option<u32>,
    /// The redirection table, or the error code of the request for it.
    pub answer: Result<Seq<RedirectionEntry>, i32>,
}

/// Whether the I/O APIC is read for `irq_line` when a device asks for `signal`.
pub open spec fn reads_ioapic(cache: Map<u32, KvmMsi>, signal: Signal, irq_line: u32) -> bool {
    first_action(cache, signal.irq_line) == Ok::<IrqAction, IrqError>(
        IrqAction::GetIrqchip { chip_id: irq_routing::KVM_IRQCHIP_IOAPIC, irq_line },
    )
}

/// The resolved lines after one signal: they change only where the first
/// request is to read the I/O APIC.
pub open spec fn cache_after_signal(cache: Map<u32, KvmMsi>, signal: Signal) -> Map<u32, KvmMsi> {
    match first_action(cache, signal.irq_line) {
        Ok(IrqAction::GetIrqchip { chip_id, irq_line }) => cache_after(
            cache,
            irq_line,
            signal.answer,
        ),
        _ => cache,
    }
}

/// The resolved lines after the first `count` of `signals`, from `cache` on.
pub open spec fn cache_after_signals(
    cache: Map<u32, KvmMsi>,
    signals: Seq<Signal>,
    count: nat,
) -> Map<u32, KvmMsi>
    decreases count,
{
    if count == 0 {
        cache
    } else {
        cache_after_signal(
            cache_after_signals(cache, signals, (count - 1) as nat),
            signals[count - 1],
        )
    }
}

/// A line is resolved once: after that, every interrupt on it is signalled
/// straight away, as the redirection entry said that was read then.
pub proof fn resolved_line_needs_no_second_read(
    cache: Map<u32, KvmMsi>,
    irq_line: u32,
    redirtbl: Seq<RedirectionEntry>,
)
    requires
        irq_line < redirtbl.len(),
        !cache.contains_key(irq_line),
    ensures
        first_action(cache_after(cache, irq_line, Ok(redirtbl)), Some(irq_line)) == Ok::<
            IrqAction,
            IrqError,
        >(IrqAction::SignalMsi(msi_for(redirtbl[irq_line as int]))),
{
}

/// Resolving one line, or failing to, changes nothing for any other; and a
/// line that could not be resolved is read again the next time.
pub proof fn resolving_leaves_other_lines(
    cache: Map<u32, KvmMsi>,
    irq_line: u32,
    outcome: Result<Seq<RedirectionEntry>, i32>,
    other: Option<u32>,
)
    requires
        other != Some(irq_line) || outcome is Err,
    ensures
        first_action(cache_after(cache, irq_line, outcome), other) == first_action(cache, other),
{
}

/// Over any run of signals, on whatever lines and with whatever answers of the
/// kernel, a line that is resolved at some point keeps its interrupt for good:
/// at every later point it is signalled straight away, and never read again.
pub proof fn resolved_line_keeps_its_interrupt(
    cache: Map<u32, KvmMsi>,
    signals: Seq<Signal>,
    irq_line: u32,
    earlier: nat,
    later: nat,
)
    requires
        earlier <= later <= signals.len(),
        cache_after_signals(cache, signals, earlier).contains_key(irq_line),
    ensures
        ({
            let before = cache_after_signals(cache, signals, earlier);
            let after = cache_after_signals(cache, signals, later);
            &&& after.contains_key(irq_line)
            &&& after[irq_line] == before[irq_line]
            &&& first_action(after, Some(irq_line)) == Ok::<IrqAction, IrqError>(
                IrqAction::SignalMsi(before[irq_line]),
            )
            &&& later < signals.len() ==> !reads_ioapic(after, signals[later as int], irq_line)
        }),
    decreases later,
{
    if earlier < later {
        resolved_line_keeps_its_interrupt(
            cache,
            signals,
            irq_line,
            earlier,
            (later - 1) as nat,
        );
    }
}

/// Over any run of signals the I/O APIC is read for a line with success at most
/// once: after that reading, every later signal on the line is what the
/// redirection entry said then, and reads nothing.
pub proof fn line_is_read_with_success_at_most_once(
    cache: Map<u32, KvmMsi>,
    signals: Seq<Signal>,
    irq_line: u32,
    first: int,
    second: int,
)
    requires
        0 <= first < second < signals.len(),
        reads_ioapic(
            cache_after_signals(cache, signals, first as nat),
            signals[first],
            irq_line,
        ),
        signals[first].answer is Ok,
    ensures
        !reads_ioapic(
            cache_after_signals(cache, signals, second as nat),
            signals[second],
            irq_line,
        ),
        signals[second].irq_line == Some(irq_line) ==> first_action(
            cache_after_signals(cache, signals, second as nat),
            signals[second].irq_line,
        ) == Ok::<IrqAction, IrqError>(
            IrqAction::SignalMsi(msi_for(signals[first].answer->Ok_0[irq_line as int])),
        ),
{
    let before = cache_after_signals(cache, signals, first as nat);
    let after = cache_after_signals(cache, signals, (first + 1) as nat);
    assert(after == cache_after_signal(before, signals[first]));
    assert(after[irq_line] == msi_for(signals[first].answer->Ok_0[irq_line as int]));
    resolved_line_keeps_its_interrupt(
        cache,
        signals,
        irq_line,
        (first + 1) as nat,
        second as nat,
    );
}

/// What holds of the resolved lines at all times: each is a pin of the I/O APIC,
/// and holds the interrupt of some redirection entry.
pub open spec fn valid_cache(cache: Map<u32, KvmMsi>) -> bool {
    forall|irq: u32|
        #[trigger] cache.contains_key(irq) ==> irq < irq_routing::IOAPIC_NUM_PINS && exists|
            entry: RedirectionEntry,
        |
            cache[irq] == msi_for(entry)
}

/// The resolved lines stay valid, from a new controller on and whatever the
/// kernel answers.
pub proof fn resolved_lines_stay_valid(
    cache: Map<u32, KvmMsi>,
    irq_line: u32,
    outcome: Result<Seq<RedirectionEntry>, i32>,
)
    requires
        valid_cache(cache),
        outcome is Ok ==> irq_line < irq_routing::IOAPIC_NUM_PINS,
    ensures
        valid_cache(Map::<u32, KvmMsi>::empty()),
        valid_cache(cache_after(cache, irq_line, outcome)),
{
    let after = cache_after(cache, irq_line, outcome);
    assert forall|irq: u32| #[trigger] after.contains_key(irq) implies irq
        < irq_routing::IOAPIC_NUM_PINS && exists|entry: RedirectionEntry|
        after[irq] == msi_for(entry) by {
        if !cache.contains_key(irq) {
            assert(after[irq] == msi_for(outcome->Ok_0[irq_line as int]));
        }
    }
}

/// At every point of a run of signals from a new controller on, the resolved
/// lines are valid, as long as the kernel has a redirection entry for each line
/// that it answers for.
pub proof fn resolved_lines_are_valid_throughout(signals: Seq<Signal>, count: nat)
    requires
        count <= signals.len(),
        forall|i: int|
            0 <= i < signals.len() && (#[trigger] signals[i]).answer is Ok
                && signals[i].irq_line is Some ==> signals[i].irq_line->Some_0
                < irq_routing::IOAPIC_NUM_PINS,
    ensures
        valid_cache(cache_after_signals(Map::<u32, KvmMsi>::empty(), signals, count)),
    decreases count,
{
    if count > 0 {
        resolved_lines_are_valid_throughout(signals, (count - 1) as nat);
        let before = cache_after_signals(
            Map::<u32, KvmMsi>::empty(),
            signals,
            (count - 1) as nat,
        );
        let signal = signals[count - 1];
        if let Some(irq_line) = signal.irq_line {
            resolved_lines_stay_valid(before, irq_line, signal.answer);
        }
    }
}

/// Different destinations get different addresses, and the destination and the
/// vector can be read back from the interrupt.
pub proof fn msi_carries_the_redirection_entry(entry: RedirectionEntry)
    ensures
        (msi_for(entry).address_lo - MSI_ADDRESS_BASE) / 0x1000 == entry.dest_id,
        msi_for(entry).data == entry.vector,
{
}

/// The error code of a request that returned `ret`: negative means failure.
pub fn request_outcome(ret: i32, errno: i32) -> (out: Result<(), i32>)
    ensures
        out == if ret < 0 {
            Err(errno)
        } else {
            Ok(())
        },
{
    if ret < 0 {
        Err(errno)
    } else {
        Ok(())
    }
}

/// The interrupt that a redirection entry stands for.
pub fn msi_from_entry(entry: RedirectionEntry) -> (out: KvmMsi)
    ensures
        out == msi_for(entry),
{
    let dest: u32 = entry.dest_id as u32;
    assert(MSI_ADDRESS_BASE | (dest << 12) == MSI_ADDRESS_BASE + 0x1000 * dest) by (bit_vector)
        requires
            dest < 0x100,
    ;
    KvmMsi {
        address_lo: MSI_ADDRESS_BASE | (dest << 12),
        address_hi: 0,
        data: entry.vector as u32,
        flags: 0,
        devid: 0,
    }
}

impl KvmIoapic {
    /// The lines that were resolved, and what to.
    pub closed spec fn cache(&self) -> Map<u32, KvmMsi> {
        self.msi_cache@
    }

    /// The file descriptor of the machine.
    pub closed spec fn fd(&self) -> i32 {
        self.vm_raw_fd
    }

    /// The controller of the machine behind `vm_raw_fd`, with no line resolved.
    pub fn new(vm_raw_fd: i32) -> (out: Self)
        ensures
            out.fd() == vm_raw_fd,
            out.cache() == Map::<u32, KvmMsi>::empty(),
    {
        KvmIoapic { vm_raw_fd, msi_cache: HashMap::new() }
    }

    /// The file descriptor that the requests go to.
    pub fn vm_raw_fd(&self) -> (out: i32)
        ensures
            out == self.fd(),
    {
        self.vm_raw_fd
    }

    /// The routing table of all interrupt lines.
    pub fn setup_irq_routing() -> (out: Result<RoutingTable, SetupError>)
        ensures
            out matches Ok(table) && irq_routing::routing_entries(table) == irq_routing::routes(
                irq_routing::IOAPIC_NUM_PINS as nat,
            ),
    {
        let entries = irq_routes();
        proof {
            irq_routing::every_line_is_routed(0);
        }
        match routing_table(&entries) {
            Some(table) => Ok(table),
            None => Err(SetupError::OutOfMemory),
        }
    }

    /// The first request of the setup.
    pub fn setup() -> (out: SetupStep)
        ensures
            out is CreateIrqChip,
    {
        SetupStep::CreateIrqChip
    }

    /// What follows the request `step`, given how it went: the controllers,
    /// then the timer, then the routes. The first failure ends the setup.
    pub fn setup_next(step: SetupStep, outcome: Result<(), i32>, vm_raw_fd: i32) -> (out: Result<
        SetupStep,
        SetupError,
    >)
        ensures
            setup_follows(step, outcome, vm_raw_fd, out),
    {
        match (step, outcome) {
            (SetupStep::Ready(ioapic), _) => Ok(SetupStep::Ready(ioapic)),
            (_, Err(errno)) => Err(SetupError::Request(errno)),
            (SetupStep::CreateIrqChip, Ok(())) => Ok(SetupStep::CreatePit2(KVM_PIT_SPEAKER_DUMMY)),
            (SetupStep::CreatePit2(_), Ok(())) => match Self::setup_irq_routing() {
                Ok(table) => Ok(SetupStep::SetGsiRouting(table)),
                Err(e) => Err(e),
            },
            (SetupStep::SetGsiRouting(_), Ok(())) => Ok(
                SetupStep::Ready(KvmIoapic::new(vm_raw_fd)),
            ),
        }
    }

    /// The controller has no registers outside the kernel.
    pub fn get_mmio_addr(&self) -> (out: u64)
        ensures
            out == 0,
    {
        0
    }

    /// The controller has no registers outside the kernel.
    pub fn get_mmio_size(&self) -> (out: u64)
        ensures
            out == 0,
    {
        0
    }

    /// The first request for an interrupt on `irq_line`: a line that was
    /// resolved before is signalled, another one must be resolved first.
    pub fn set_irq(&self, irq_line: Option<u32>) -> (out: Result<IrqAction, IrqError>)
        ensures
            out == first_action(self.cache(), irq_line),
    {
        match irq_line {
            None => Err(IrqError::NoIrqLine),
            Some(irq) => match self.msi_cache.get(&irq) {
                Some(msi) => Ok(IrqAction::SignalMsi(*msi)),
                None => Ok(
                    IrqAction::GetIrqchip {
                        chip_id: irq_routing::KVM_IRQCHIP_IOAPIC,
                        irq_line: irq,
                    },
                ),
            },
        }
    }

    /// Takes the redirection table of the I/O APIC, or the error code of the
    /// request for it, and resolves `irq_line` to the interrupt that its entry
    /// stands for.
    pub fn resolve_msi(
        &self,
        irq_line: u32,
        outcome: &Result<[RedirectionEntry; 24], i32>,
    ) -> (out: Result<KvmMsi, IrqError>)
        requires
            *outcome is Ok ==> irq_line < irq_routing::IOAPIC_NUM_PINS,
        ensures
            out == resolution(irq_line, table_view(*outcome)),
    {
        match outcome {
            Ok(redirtbl) => Ok(msi_from_entry(redirtbl[irq_line as usize])),
            Err(errno) => Err(IrqError::GetIrqchip(*errno)),
        }
    }

    /// The request that follows the reading of the I/O APIC for `irq_line`: a
    /// line that was not resolved before is resolved, and what it resolved to
    /// is kept for the next time.
    pub fn set_irq_resolved(
        &mut self,
        irq_line: u32,
        outcome: &Result<[RedirectionEntry; 24], i32>,
    ) -> (out: Result<IrqAction, IrqError>)
        requires
            *outcome is Ok ==> irq_line < irq_routing::IOAPIC_NUM_PINS,
        ensures
            final(self).fd() == old(self).fd(),
            final(self).cache() == cache_after(
                old(self).cache(),
                irq_line,
                table_view(*outcome),
            ),
            out == second_action(old(self).cache(), irq_line, table_view(*outcome)),
    {
        let known: Option<KvmMsi> = match self.msi_cache.get(&irq_line) {
            Some(msi) => Some(*msi),
            None => None,
        };
        match known {
            Some(msi) => Ok(IrqAction::SignalMsi(msi)),
            None => match self.resolve_msi(irq_line, outcome) {
                Ok(msi) => {
                    self.msi_cache.insert(irq_line, msi);
                    Ok(IrqAction::SignalMsi(msi))
                },
                Err(error) => Err(error),
            },
        }
    }

    /// How the signalling ended, given how the injection went.
    pub fn signalled(outcome: Result<(), i32>) -> (out: Result<(), IrqError>)
        ensures
            out == match outcome {
                Ok(()) => Ok::<(), IrqError>(()),
                Err(errno) => Err(IrqError::SignalMsi(errno)),
            },
    {
        match outcome {
            Ok(()) => Ok(()),
            Err(errno) => Err(IrqError::SignalMsi(errno)),
        }
    }
}

/// For every redirection entry the interrupt is written 4 KiB further for each
/// destination, from 0xFEE0_0000 on, and is the vector alone: no bit of the
/// address depends on the vector, and nothing else is set.
pub proof fn msi_is_address_and_vector(entry: RedirectionEntry, out: KvmMsi)
    requires
        call_ensures(msi_from_entry, (entry,), out),
    ensures
        out.address_lo == 0xFEE0_0000 + 0x1000 * entry.dest_id,
        out.address_hi == 0,
        out.data == entry.vector,
        out.flags == 0,
        out.devid == 0,
        call_requires(msi_from_entry, (entry,)),
{
}

/// A signal is refused at once exactly where the device has no line. On a line,
/// whatever its number, the first request is to read the I/O APIC, which is
/// controller 2, for that very line, until the line is resolved; from then on
/// it is to inject what the line was resolved to.
pub proof fn every_line_is_read_until_resolved(
    ioapic: &KvmIoapic,
    irq_line: Option<u32>,
    out: Result<IrqAction, IrqError>,
)
    requires
        call_ensures(KvmIoapic::set_irq, (ioapic, irq_line), out),
    ensures
        out is Err <==> irq_line is None,
        out is Err ==> out == Err::<IrqAction, IrqError>(IrqError::NoIrqLine),
        irq_line matches Some(irq) ==> !ioapic.cache().contains_key(irq) ==> out == Ok::<
            IrqAction,
            IrqError,
        >(IrqAction::GetIrqchip { chip_id: 2, irq_line: irq }),
        irq_line matches Some(irq) ==> ioapic.cache().contains_key(irq) ==> out == Ok::<
            IrqAction,
            IrqError,
        >(IrqAction::SignalMsi(ioapic.cache()[irq])),
        call_requires(KvmIoapic::set_irq, (ioapic, irq_line)),
{
}

/// A new controller belongs to the machine that it was made for, and has no
/// line resolved: the first signal on any line reads the I/O APIC for it.
pub proof fn new_controller_reads_every_line(
    vm_raw_fd: i32,
    ioapic: KvmIoapic,
    fd: i32,
    irq: u32,
    out: Result<IrqAction, IrqError>,
)
    requires
        call_ensures(KvmIoapic::new, (vm_raw_fd,), ioapic),
        call_ensures(KvmIoapic::vm_raw_fd, (&ioapic,), fd),
        call_ensures(KvmIoapic::set_irq, (&ioapic, Some(irq)), out),
    ensures
        fd == vm_raw_fd,
        out == Ok::<IrqAction, IrqError>(IrqAction::GetIrqchip { chip_id: 2, irq_line: irq }),
        call_requires(KvmIoapic::new, (vm_raw_fd,)),
        call_requires(KvmIoapic::vm_raw_fd, (&ioapic,)),
{
}

/// What a line resolves to is read off its own redirection entry, and a failed
/// reading is reported with the kernel's error code.
pub proof fn line_resolves_to_its_own_entry(
    ioapic: &KvmIoapic,
    irq_line: u32,
    outcome: &Result<[RedirectionEntry; 24], i32>,
    out: Result<KvmMsi, IrqError>,
)
    requires
        *outcome is Ok ==> irq_line < 24,
        call_ensures(KvmIoapic::resolve_msi, (ioapic, irq_line, outcome), out),
    ensures
        *outcome matches Ok(redirtbl) ==> out == Ok::<KvmMsi, IrqError>(
            KvmMsi {
                address_lo: (0xFEE0_0000 + 0x1000 * redirtbl@[irq_line as int].dest_id) as u32,
                address_hi: 0,
                data: redirtbl@[irq_line as int].vector as u32,
                flags: 0,
                devid: 0,
            },
        ),
        *outcome matches Err(errno) ==> out == Err::<KvmMsi, IrqError>(
            IrqError::GetIrqchip(errno),
        ),
        call_requires(KvmIoapic::resolve_msi, (ioapic, irq_line, outcome)),
{
}

/// Where the next signal on a line would read the I/O APIC, a reading that
/// succeeds settles the line: the interrupt of the line's own redirection entry
/// is injected now, and by the next signal on the line without a reading.
pub proof fn successful_reading_settles_the_line(
    ioapic: &mut KvmIoapic,
    irq_line: u32,
    redirtbl: [RedirectionEntry; 24],
    outcome: &Result<[RedirectionEntry; 24], i32>,
    before: Result<IrqAction, IrqError>,
    out: Result<IrqAction, IrqError>,
    after: Result<IrqAction, IrqError>,
)
    requires
        irq_line < 24,
        *outcome == Ok::<[RedirectionEntry; 24], i32>(redirtbl),
        call_ensures(KvmIoapic::set_irq, (&*old(ioapic), Some(irq_line)), before),
        before == Ok::<IrqAction, IrqError>(IrqAction::GetIrqchip { chip_id: 2, irq_line }),
        call_ensures(KvmIoapic::set_irq_resolved, (ioapic, irq_line, outcome), out),
        call_ensures(KvmIoapic::set_irq, (&*final(ioapic), Some(irq_line)), after),
    ensures
        out matches Ok(IrqAction::SignalMsi(msi)) && {
            &&& msi.address_lo == 0xFEE0_0000 + 0x1000 * redirtbl@[irq_line as int].dest_id
            &&& msi.address_hi == 0
            &&& msi.data == redirtbl@[irq_line as int].vector
            &&& msi.flags == 0
            &&& msi.devid == 0
        },
        after == out,
        call_requires(KvmIoapic::set_irq_resolved, (ioapic, irq_line, outcome)),
{
}

/// Where the next signal on a line would read the I/O APIC, a reading that
/// fails is reported with the kernel's error code, and the next signal on the
/// line reads again. Any line may be read so, whatever its number.
pub proof fn failed_reading_is_tried_again(
    ioapic: &mut KvmIoapic,
    irq_line: u32,
    errno: i32,
    outcome: &Result<[RedirectionEntry; 24], i32>,
    before: Result<IrqAction, IrqError>,
    out: Result<IrqAction, IrqError>,
    after: Result<IrqAction, IrqError>,
)
    requires
        *outcome == Err::<[RedirectionEntry; 24], i32>(errno),
        call_ensures(KvmIoapic::set_irq, (&*old(ioapic), Some(irq_line)), before),
        before == Ok::<IrqAction, IrqError>(IrqAction::GetIrqchip { chip_id: 2, irq_line }),
        call_ensures(KvmIoapic::set_irq_resolved, (ioapic, irq_line, outcome), out),
        call_ensures(KvmIoapic::set_irq, (&*final(ioapic), Some(irq_line)), after),
    ensures
        out == Err::<IrqAction, IrqError>(IrqError::GetIrqchip(errno)),
        after == before,
        call_requires(KvmIoapic::set_irq_resolved, (ioapic, irq_line, outcome)),
{
}

/// Where the next signal on a line would inject an interrupt, a reading of the
/// I/O APIC for that line changes nothing, whatever it brings: the same
/// interrupt is injected now and by the next signal.
pub proof fn settled_line_is_not_resolved_again(
    ioapic: &mut KvmIoapic,
    irq_line: u32,
    msi: KvmMsi,
    outcome: &Result<[RedirectionEntry; 24], i32>,
    before: Result<IrqAction, IrqError>,
    out: Result<IrqAction, IrqError>,
    after: Result<IrqAction, IrqError>,
)
    requires
        *outcome is Ok ==> irq_line < 24,
        call_ensures(KvmIoapic::set_irq, (&*old(ioapic), Some(irq_line)), before),
        before == Ok::<IrqAction, IrqError>(IrqAction::SignalMsi(msi)),
        call_ensures(KvmIoapic::set_irq_resolved, (ioapic, irq_line, outcome), out),
        call_ensures(KvmIoapic::set_irq, (&*final(ioapic), Some(irq_line)), after),
    ensures
        out == before,
        after == before,
{
}

/// A reading for one line changes neither what the next signal on any other
/// line does nor the machine that the controller belongs to.
pub proof fn reading_concerns_one_line_only(
    ioapic: &mut KvmIoapic,
    irq_line: u32,
    outcome: &Result<[RedirectionEntry; 24], i32>,
    out: Result<IrqAction, IrqError>,
    other: Option<u32>,
    before: Result<IrqAction, IrqError>,
    after: Result<IrqAction, IrqError>,
    fd_before: i32,
    fd_after: i32,
)
    requires
        *outcome is Ok ==> irq_line < 24,
        other != Some(irq_line),
        call_ensures(KvmIoapic::set_irq, (&*old(ioapic), other), before),
        call_ensures(KvmIoapic::vm_raw_fd, (&*old(ioapic),), fd_before),
        call_ensures(KvmIoapic::set_irq_resolved, (ioapic, irq_line, outcome), out),
        call_ensures(KvmIoapic::set_irq, (&*final(ioapic), other), after),
        call_ensures(KvmIoapic::vm_raw_fd, (&*final(ioapic),), fd_after),
    ensures
        after == before,
        fd_after == fd_before,
{
}

/// The setup starts with the interrupt controllers. Granted those, it asks for
/// the timer with flag 1; granted the timer, for a table of all routes; granted
/// the routes, it hands over a controller for the machine, on which no line is
/// resolved. A refused request ends it with the kernel's error code. Once it is
/// over, it stays as it is.
pub proof fn setup_takes_one_step_at_a_time(
    first: SetupStep,
    step: SetupStep,
    outcome: Result<(), i32>,
    vm_raw_fd: i32,
    next: Result<SetupStep, SetupError>,
    routes: Vec<irq_routing::IrqRoute>,
)
    requires
        call_ensures(KvmIoapic::setup, (), first),
        call_ensures(KvmIoapic::setup_next, (step, outcome, vm_raw_fd), next),
        call_ensures(irq_routes, (), routes),
    ensures
        first == SetupStep::CreateIrqChip,
        step is Ready ==> next == Ok::<SetupStep, SetupError>(step),
        outcome matches Err(errno) ==> !(step is Ready) ==> next == Err::<SetupStep, SetupError>(
            SetupError::Request(errno),
        ),
        outcome is Ok && step is CreateIrqChip ==> next == Ok::<SetupStep, SetupError>(
            SetupStep::CreatePit2(1),
        ),
        outcome is Ok && step is CreatePit2 ==> (next matches Ok(SetupStep::SetGsiRouting(table))
            && irq_routing::routing_entries(table) == routes@),
        outcome is Ok && step is SetGsiRouting ==> (next matches Ok(SetupStep::Ready(ioapic))
            && (forall|fd: i32|
            call_ensures(KvmIoapic::vm_raw_fd, (&ioapic,), fd) ==> fd == vm_raw_fd) && (forall|
            irq: u32,
            action: Result<IrqAction, IrqError>,
        |
            call_ensures(KvmIoapic::set_irq, (&ioapic, Some(irq)), action) ==> action == Ok::<
                IrqAction,
                IrqError,
            >(IrqAction::GetIrqchip { chip_id: 2, irq_line: irq }))),
        call_requires(KvmIoapic::setup, ()),
        call_requires(KvmIoapic::setup_next, (step, outcome, vm_raw_fd)),
{
}

/// The routing table is made without fail, and it is the list of all routes.
pub proof fn routing_table_holds_every_route(
    out: Result<RoutingTable, SetupError>,
    routes: Vec<irq_routing::IrqRoute>,
)
    requires
        call_ensures(KvmIoapic::setup_irq_routing, (), out),
        call_ensures(irq_routes, (), routes),
    ensures
        out matches Ok(table) && irq_routing::routing_entries(table) == routes@,
        call_requires(KvmIoapic::setup_irq_routing, ()),
{
}

/// A request failed exactly where it returned a negative number, and its error
/// code reaches the caller: of a failed injection, as such.
pub proof fn error_codes_reach_the_caller(
    ret: i32,
    errno: i32,
    outcome: Result<(), i32>,
    out: Result<(), IrqError>,
)
    requires
        call_ensures(request_outcome, (ret, errno), outcome),
        call_ensures(KvmIoapic::signalled, (outcome,), out),
    ensures
        ret < 0 ==> outcome == Err::<(), i32>(errno) && out == Err::<(), IrqError>(
            IrqError::SignalMsi(errno),
        ),
        ret >= 0 ==> outcome is Ok && out is Ok,
        call_requires(request_outcome, (ret, errno)),
        call_requires(KvmIoapic::signalled, (outcome,)),
{
}

/// No controller takes room in the address space of the guest.
pub proof fn controller_has_no_registers(ioapic: &KvmIoapic, addr: u64, size: u64)
    requires
        call_ensures(KvmIoapic::get_mmio_addr, (ioapic,), addr),
        call_ensures(KvmIoapic::get_mmio_size, (ioapic,), size),
    ensures
        addr == 0,
        size == 0,
        call_requires(KvmIoapic::get_mmio_addr, (ioapic,)),
        call_requires(KvmIoapic::get_mmio_size, (ioapic,)),
{
}

} // verus!

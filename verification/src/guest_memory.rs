//! Guest memory, as the `vm-memory` crate maps it.

use vm_memory::{Bytes, GuestAddress, GuestMemoryError, GuestMemoryMmap};
use vstd::prelude::*;

verus! {

/// Declares `vm_memory::GuestMemoryMmap`: guest memory as a list of mapped
/// regions.
#[verifier::external_type_specification]
#[verifier::external_body]
#[verifier::reject_recursive_types(B)]
pub struct ExGuestMemoryMmap<B>(vm_memory::GuestMemoryMmap<B>);

/// Declares `vm_memory::GuestMemoryError`: why an access to guest memory
/// failed.
#[verifier::external_type_specification]
#[verifier::external_body]
pub struct ExGuestMemoryError(vm_memory::GuestMemoryError);

/// The guest addresses that some region of `mem` covers. They are settled when
/// `mem` is made: no store moves them.
pub uninterp spec fn mapped(mem: GuestMemoryMmap) -> Set<int>;

/// For each guest address, the byte that was last stored there through this
/// handle. It is a record of stores, not of what is in memory at some later
/// time: a clone of the handle shares the memory, and so does a guest once it
/// runs, and what either of them stores is not in the record.
pub uninterp spec fn stored(mem: GuestMemoryMmap) -> Map<int, u8>;

/// How many of the `count` addresses from `addr` on are mapped before the
/// first one that is not.
pub open spec fn mapped_run(addresses: Set<int>, addr: int, count: nat) -> nat
    decreases count,
{
    if count == 0 || !addresses.contains(addr) {
        0
    } else {
        1 + mapped_run(addresses, addr + 1, (count - 1) as nat)
    }
}

/// `memory` with `bytes` at `addr` and the addresses after it.
pub open spec fn store(memory: Map<int, u8>, addr: int, bytes: Seq<u8>) -> Map<int, u8> {
    memory.union_prefer_right(
        Map::new(
            |a: int| addr <= a < addr + bytes.len(),
            |a: int| bytes[a - addr],
        ),
    )
}

/// The `len` bytes that `memory` has from `addr` on.
pub open spec fn load(memory: Map<int, u8>, addr: int, len: nat) -> Seq<u8> {
    Seq::new(len, |i: int| memory[addr + i])
}

/// Whether all of `len` bytes can be stored at `addr`.
pub open spec fn storable(addresses: Set<int>, addr: int, len: nat) -> bool {
    addresses.contains(addr) && mapped_run(addresses, addr, len) == len
}

/// A run is never longer than what was asked for.
pub broadcast proof fn lemma_mapped_run_bound(addresses: Set<int>, addr: int, count: nat)
    ensures
        #[trigger] mapped_run(addresses, addr, count) <= count,
    decreases count,
{
    if count > 0 && addresses.contains(addr) {
        lemma_mapped_run_bound(addresses, addr + 1, (count - 1) as nat);
    }
}

/// Bytes can be stored exactly where every address that they take is mapped.
pub proof fn storable_means_every_address_is_mapped(addresses: Set<int>, addr: int, len: nat)
    requires
        len > 0,
    ensures
        storable(addresses, addr, len) <==> forall|a: int|
            addr <= a < addr + len ==> addresses.contains(a),
    decreases len,
{
    broadcast use lemma_mapped_run_bound;

    if len > 1 {
        storable_means_every_address_is_mapped(addresses, addr + 1, (len - 1) as nat);
    }
    if storable(addresses, addr, len) {
        reveal_with_fuel(mapped_run, 2);
        assert(len > 1 ==> storable(addresses, addr + 1, (len - 1) as nat));
        assert forall|a: int| addr <= a < addr + len implies addresses.contains(a) by {
            assert(a == addr || addr + 1 <= a < addr + 1 + (len - 1));
        }
    }
    if forall|a: int| addr <= a < addr + len ==> addresses.contains(a) {
        assert(addresses.contains(addr));
        assert(mapped_run(addresses, addr + 1, (len - 1) as nat) == len - 1);
    }
}

/// What was stored is what is loaded from there.
pub proof fn load_gives_back_what_was_stored(memory: Map<int, u8>, addr: int, bytes: Seq<u8>)
    ensures
        load(store(memory, addr, bytes), addr, bytes.len()) == bytes,
{
    assert(load(store(memory, addr, bytes), addr, bytes.len()) =~= bytes);
}

/// A store leaves every address outside its own range as it was.
pub proof fn store_leaves_the_rest(memory: Map<int, u8>, addr: int, bytes: Seq<u8>, other: int)
    requires
        other < addr || addr + bytes.len() <= other,
    ensures
        store(memory, addr, bytes).contains_key(other) == memory.contains_key(other),
        memory.contains_key(other) ==> store(memory, addr, bytes)[other] == memory[other],
{
}

/// Calls `write_slice` of `vm_memory::Bytes<GuestAddress>`, which stores `buf`
/// at guest address `addr` and the addresses after it, across regions that
/// touch. It stops at the first address that no region covers: then it fails,
/// and what it had stored before stays. It also fails where `addr` itself is
/// not covered.
///
/// The outside method takes the memory by shared reference. It is borrowed
/// mutably here so that the contract can speak of the record before and after.
/// Which of its errors comes out is left unsaid, and so is what a later read
/// finds.
#[verifier::external_body]
pub(crate) fn write_slice(mem: &mut GuestMemoryMmap, buf: &[u8], addr: u64) -> (out: Result<
    (),
    GuestMemoryError,
>)
    ensures
        out is Ok <==> storable(mapped(*old(mem)), addr as int, buf@.len()),
        stored(*final(mem)) == store(
            stored(*old(mem)),
            addr as int,
            buf@.take(mapped_run(mapped(*old(mem)), addr as int, buf@.len()) as int),
        ),
        mapped(*final(mem)) == mapped(*old(mem)),
{
    mem.write_slice(buf, GuestAddress(addr))
}

/// A byte of a run is reached exactly where every address from the start of the
/// run up to its own is mapped.
pub proof fn run_ends_at_the_first_gap(addresses: Set<int>, addr: int, count: nat, at: int)
    requires
        addr <= at < addr + count,
    ensures
        at < addr + mapped_run(addresses, addr, count) <==> forall|a: int|
            addr <= a <= at ==> addresses.contains(a),
    decreases count,
{
    if addresses.contains(addr) {
        if at > addr {
            run_ends_at_the_first_gap(addresses, addr + 1, (count - 1) as nat, at);
            assert((forall|a: int| addr <= a <= at ==> addresses.contains(a)) <==> forall|a: int|
                addr + 1 <= a <= at ==> addresses.contains(a));
        }
    }
}

/// After a store every address of its range holds the byte that was meant for
/// it.
pub proof fn store_puts_every_byte(memory: Map<int, u8>, addr: int, bytes: Seq<u8>, i: int)
    requires
        0 <= i < bytes.len(),
    ensures
        store(memory, addr, bytes).contains_key(addr + i),
        store(memory, addr, bytes)[addr + i] == bytes[i],
{
}

} // verus!

//! Numbers of the KVM requests that go straight to the kernel.

use vstd::prelude::*;

verus! {

/// The caller passes data in.
pub const IOC_WRITE: u64 = 1;

/// The caller passes data in and gets data back.
pub const IOC_READ_WRITE: u64 = 3;

/// The type that all KVM requests share.
pub const KVMIO: u32 = 0xAE;

/// A Linux request number: direction in bits 31 and 30, size of the argument
/// in bits 29 to 16, type in bits 15 to 8, number in bits 7 to 0.
pub open spec fn request_number(direction: u64, type_: u32, nr: u32, size: usize) -> u64 {
    (direction << 30) | ((size as u64) << 16) | ((type_ as u64) << 8) | (nr as u64)
}

/// As long as each part fits its field, every part can be read back from the
/// request number.
pub proof fn request_fields_read_back(direction: u64, type_: u32, nr: u32, size: usize)
    requires
        direction < 4,
        type_ < 0x100,
        nr < 0x100,
        size < 0x4000,
    ensures
        request_number(direction, type_, nr, size) == direction * 0x4000_0000 + size * 0x1_0000
            + type_ * 0x100 + nr,
{
    let wide = size as u64;
    assert((direction << 30) | (wide << 16) | ((type_ as u64) << 8) | (nr as u64) == direction
        * 0x4000_0000 + wide * 0x1_0000 + type_ * 0x100 + nr) by (bit_vector)
        requires
            direction < 4,
            type_ < 0x100,
            nr < 0x100,
            wide < 0x4000,
    ;
}

/// The number of a request whose argument goes both ways.
pub fn iowr(type_: u32, nr: u32, size: usize) -> (out: u64)
    ensures
        out == request_number(IOC_READ_WRITE, type_, nr, size),
{
    (IOC_READ_WRITE << 30) | ((size as u64) << 16) | ((type_ as u64) << 8) | (nr as u64)
}

/// The number of a request whose argument goes to the kernel only.
pub fn iow(type_: u32, nr: u32, size: usize) -> (out: u64)
    ensures
        out == request_number(IOC_WRITE, type_, nr, size),
{
    (IOC_WRITE << 30) | ((size as u64) << 16) | ((type_ as u64) << 8) | (nr as u64)
}

/// Size of `kvm_bindings::kvm_irqchip`, by `std::mem::size_of`: two 32-bit
/// numbers and a union of 512 bytes.
#[verifier::external_body]
fn size_of_irqchip() -> (out: usize)
    ensures
        out == 520,
{
    std::mem::size_of::<kvm_bindings::kvm_irqchip>()
}

/// Size of `kvm_bindings::kvm_msi`, by `std::mem::size_of`: five 32-bit
/// numbers and twelve bytes of padding.
#[verifier::external_body]
fn size_of_msi() -> (out: usize)
    ensures
        out == 32,
{
    std::mem::size_of::<kvm_bindings::kvm_msi>()
}

/// The request that reads the state of an interrupt controller.
pub fn kvm_get_irqchip() -> (out: u64)
    ensures
        out == request_number(IOC_READ_WRITE, KVMIO, 0x62, 520),
        out == 0xC208_AE62,
{
    proof {
        request_fields_read_back(IOC_READ_WRITE, KVMIO, 0x62, 520);
    }
    iowr(KVMIO, 0x62, size_of_irqchip())
}

/// The request that injects a message-signalled interrupt.
pub fn kvm_signal_msi() -> (out: u64)
    ensures
        out == request_number(IOC_WRITE, KVMIO, 0xA5, 32),
        out == 0x4020_AEA5,
{
    proof {
        request_fields_read_back(IOC_WRITE, KVMIO, 0xA5, 32);
    }
    iow(KVMIO, 0xA5, size_of_msi())
}

/// As long as each part fits its field, the number of a request weighs its
/// parts: the number itself, the type by 2^8, the size by 2^16, and the
/// direction, which is 3 both ways and 1 to the kernel only, by 2^30. Parts that
/// do not fit overlap bit by bit.
pub proof fn request_number_weighs_its_parts(type_: u32, nr: u32, size: usize, both: u64, to: u64)
    requires
        call_ensures(iowr, (type_, nr, size), both),
        call_ensures(iow, (type_, nr, size), to),
    ensures
        type_ < 0x100 && nr < 0x100 && size < 0x4000 ==> both == 0xC000_0000 + 0x1_0000 * size
            + 0x100 * type_ + nr && to == 0x4000_0000 + 0x1_0000 * size + 0x100 * type_ + nr,
        both == 0xC000_0000u64 | ((size as u64) << 16) | ((type_ as u64) << 8) | (nr as u64),
        to == 0x4000_0000u64 | ((size as u64) << 16) | ((type_ as u64) << 8) | (nr as u64),
        call_requires(iowr, (type_, nr, size)),
        call_requires(iow, (type_, nr, size)),
{
    if type_ < 0x100 && nr < 0x100 && size < 0x4000 {
        request_fields_read_back(IOC_READ_WRITE, type_, nr, size);
        request_fields_read_back(IOC_WRITE, type_, nr, size);
    }
    assert(3u64 << 30 == 0xC000_0000u64 && 1u64 << 30 == 0x4000_0000u64) by (bit_vector);
}

/// The two requests are numbers 0x62 and 0xA5 of type 0xAE: the first passes 520
/// bytes both ways, the second 32 bytes to the kernel.
pub proof fn requests_have_their_kernel_numbers(
    get_irqchip: u64,
    signal_msi: u64,
    both: u64,
    to: u64,
)
    requires
        call_ensures(kvm_get_irqchip, (), get_irqchip),
        call_ensures(kvm_signal_msi, (), signal_msi),
        call_ensures(iowr, (0xAE, 0x62, 520), both),
        call_ensures(iow, (0xAE, 0xA5, 32), to),
    ensures
        get_irqchip == 0xC208_AE62,
        get_irqchip == both,
        signal_msi == 0x4020_AEA5,
        signal_msi == to,
        call_requires(kvm_get_irqchip, ()),
        call_requires(kvm_signal_msi, ()),
{
}

} // verus!

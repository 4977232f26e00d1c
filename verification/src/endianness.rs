//! The two byte orders, the byte order of the machine, and the swap between orders.

use vstd::prelude::*;

verus! {

/// The order in which the bytes of a multi-byte value are laid out.
#[derive(Debug, Clone, Copy, PartialEq, Eq, Structural)]
pub enum Endianness {
    /// Least significant byte first.
    Little,
    /// Most significant byte first.
    Big,
}

/// The value whose layout in memory tells the byte order of the machine.
pub const PROBE: u16 = 0x1234;

/// `bytes` as laid out for order `to`, given that it is laid out for order `from`: reversed
/// where the two orders differ, unchanged where they agree.
pub open spec fn reordered(bytes: Seq<u8>, from: Endianness, to: Endianness) -> Seq<u8> {
    if from == to {
        bytes
    } else {
        bytes.reverse()
    }
}

/// `u16::to_ne_bytes`: the two bytes of `value` as the machine holds them in memory. That is
/// one of the two layouts of `value`: low byte first, or high byte first.
#[verifier::external_body]
fn native_layout(value: u16) -> (bytes: [u8; 2])
    ensures
        bytes@ == seq![(value % 256) as u8, (value / 256) as u8] || bytes@ == seq![
            (value / 256) as u8,
            (value % 256) as u8,
        ],
{
    value.to_ne_bytes()
}

/// The byte order under which the first byte of [`PROBE`] in memory is `first`, if there is
/// one.
pub fn probe_order(first: u8) -> (order: Option<Endianness>)
    ensures
        order == (if first == 0x34 {
            Some(Endianness::Little)
        } else if first == 0x12 {
            Some(Endianness::Big)
        } else {
            None
        }),
{
    if first == 0x34 {
        Some(Endianness::Little)
    } else if first == 0x12 {
        Some(Endianness::Big)
    } else {
        None
    }
}

/// The byte order of the machine, found by looking at the first byte of [`PROBE`] in
/// memory. Neither order is promised: the result is whatever the machine has.
pub fn native_endianness() -> (order: Endianness) {
    let layout = native_layout(PROBE);
    match probe_order(layout[0]) {
        Some(order) => order,
        None => vstd::pervasive::unreached(),
    }
}

/// Reverses `bytes` in place.
fn reverse_inplace(bytes: &mut [u8])
    ensures
        final(bytes)@ == old(bytes)@.reverse(),
{
    let len = bytes.len();
    let mut i: usize = 0;
    while i < len / 2
        invariant
            len == bytes@.len(),
            len == old(bytes)@.len(),
            i <= len / 2,
            forall|k: int| 0 <= k < i ==> bytes@[k] == old(bytes)@[len - 1 - k],
            forall|k: int| len - i <= k < len ==> bytes@[k] == old(bytes)@[len - 1 - k],
            forall|k: int| i <= k < len - i ==> bytes@[k] == old(bytes)@[k],
        decreases len / 2 - i,
    {
        let low = bytes[i];
        let high = bytes[len - 1 - i];
        bytes[i] = high;
        bytes[len - 1 - i] = low;
        i = i + 1;
    }
}

/// Brings `bytes` from the layout of order `from` to that of order `to`: reverses it in place
/// if and only if the two differ.
pub fn swap_between(bytes: &mut [u8], from: Endianness, to: Endianness)
    ensures
        final(bytes)@ == reordered(old(bytes)@, from, to),
{
    if from != to {
        reverse_inplace(bytes);
    }
}

/// Brings `bytes` from the machine's own layout to that of `endianness`, or back: reverses
/// it in place if and only if `endianness` is not the order of the machine. Which of the two
/// happens depends on the machine; [`swap_between`] says it for each order.
pub fn swap_inplace(bytes: &mut [u8], endianness: Endianness)
    ensures
        final(bytes)@ == reordered(old(bytes)@, Endianness::Little, endianness) || final(bytes)@
            == reordered(old(bytes)@, Endianness::Big, endianness),
{
    let native = native_endianness();
    swap_between(bytes, native, endianness);
}

} // verus!

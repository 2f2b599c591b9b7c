//! The CRC-16 checksum of Modbus RTU: its mathematical definition, the call
//! that computes it, and the error-detection facts the codec relies on.

use vstd::prelude::*;

verus! {

/// The reflected form of the generator polynomial 0x8005.
pub const REFLECTED_POLY: u16 = 0xA001;

/// The register value a checksum starts from.
pub const INITIAL_VALUE: u16 = 0xFFFF;

/// One step of the reflected shift register: shift right by one bit, and fold
/// the polynomial in when the bit shifted out was set.
pub open spec fn shift_once(value: u16) -> u16 {
    (value >> 1) ^ (if value & 1 == 1 { REFLECTED_POLY } else { 0u16 })
}

/// `steps` applications of [`shift_once`].
pub open spec fn shift_n(value: u16, steps: nat) -> u16
    decreases steps,
{
    if steps == 0 {
        value
    } else {
        shift_once(shift_n(value, (steps - 1) as nat))
    }
}

/// The lookup-table entry for a byte: eight shift steps applied to it.
pub open spec fn table_entry(index: u16) -> u16 {
    shift_n(index, 8)
}

/// The register after one more message byte has been taken in.
pub open spec fn absorb(crc: u16, byte: u8) -> u16 {
    table_entry((crc ^ (byte as u16)) & 0xFF) ^ (crc >> 8)
}

/// CRC-16/MODBUS of a byte sequence: polynomial 0x8005, initial value 0xFFFF,
/// input and output reflected, no final xor.
pub open spec fn crc16_modbus(bytes: Seq<u8>) -> u16
    decreases bytes.len(),
{
    if bytes.len() == 0 {
        INITIAL_VALUE
    } else {
        absorb(crc16_modbus(bytes.drop_last()), bytes.last())
    }
}

/// Computes the checksum with `crc::Crc::<u16>::checksum` for the catalogue
/// entry `CRC_16_MODBUS`.
///
/// Trusted: the result is claimed to be [`crc16_modbus`] of the input. That is
/// the table-driven update of the `crc` crate written out: the register starts
/// at 0xFFFF, each byte replaces it by `table[(crc ^ byte) & 0xFF] ^ (crc >> 8)`,
/// where `table[i]` is eight reflected shift steps with polynomial 0xA001
/// applied to `i`, and the final register is returned unchanged.
#[verifier::external_body]
pub(crate) fn checksum(bytes: &[u8]) -> (sum: u16)
    ensures
        sum == crc16_modbus(bytes@),
{
    crc::Crc::<u16>::new(&crc::CRC_16_MODBUS).checksum(bytes)
}

proof fn lemma_shift_once_injective(x: u16, y: u16)
    requires
        shift_once(x) == shift_once(y),
    ensures
        x == y,
{
    assert(((x >> 1) ^ (if x & 1 == 1 { 0xA001u16 } else { 0u16 })) == ((y >> 1) ^ (if y & 1 == 1 {
        0xA001u16
    } else {
        0u16
    })) ==> x == y) by (bit_vector);
}

proof fn lemma_shift_n_injective(x: u16, y: u16, steps: nat)
    requires
        shift_n(x, steps) == shift_n(y, steps),
    ensures
        x == y,
    decreases steps,
{
    if steps > 0 {
        lemma_shift_once_injective(shift_n(x, (steps - 1) as nat), shift_n(y, (steps - 1) as nat));
        lemma_shift_n_injective(x, y, (steps - 1) as nat);
    }
}

/// While the high byte of a register is still being shifted down, it passes
/// through the shift steps untouched by the polynomial.
proof fn lemma_shift_n_splits(x: u16, steps: nat)
    requires
        steps <= 8,
    ensures
        shift_n(x, steps) == shift_n(x & 0xFF, steps) ^ ((x & 0xFF00) >> (steps as u16)),
    decreases steps,
{
    if steps == 0 {
        assert(x == (x & 0xFF) ^ ((x & 0xFF00) >> 0u16)) by (bit_vector);
    } else {
        let k = (steps - 1) as u16;
        lemma_shift_n_splits(x, (steps - 1) as nat);
        let low = shift_n(x & 0xFF, (steps - 1) as nat);
        let high = (x & 0xFF00) >> k;
        assert(k < 8 ==> ((x & 0xFF00) >> k) & 1 == 0 && ((x & 0xFF00) >> k) >> 1 == (x & 0xFF00) >> (
        (k + 1) as u16)) by (bit_vector);
        assert(high & 1 == 0 ==> (((low ^ high) >> 1) ^ (if (low ^ high) & 1 == 1 {
            0xA001u16
        } else {
            0u16
        })) == ((low >> 1) ^ (if low & 1 == 1 {
            0xA001u16
        } else {
            0u16
        })) ^ (high >> 1)) by (bit_vector);
    }
}

/// Taking a byte in is the same as xoring it into the register and shifting
/// eight times.
proof fn lemma_absorb_is_shift(crc: u16, byte: u8)
    ensures
        absorb(crc, byte) == shift_n(crc ^ (byte as u16), 8),
{
    let x = crc ^ (byte as u16);
    lemma_shift_n_splits(x, 8);
    assert(((crc ^ (byte as u16)) & 0xFF00) >> 8u16 == crc >> 8) by (bit_vector);
}

/// Two different registers stay different after the same byte.
pub proof fn lemma_absorb_injective_in_register(first: u16, second: u16, byte: u8)
    requires
        absorb(first, byte) == absorb(second, byte),
    ensures
        first == second,
{
    lemma_absorb_is_shift(first, byte);
    lemma_absorb_is_shift(second, byte);
    lemma_shift_n_injective(first ^ (byte as u16), second ^ (byte as u16), 8);
    assert((first ^ (byte as u16)) == (second ^ (byte as u16)) ==> first == second)
        by (bit_vector);
}

/// Two different bytes lead one register to different registers.
pub proof fn lemma_absorb_injective_in_byte(crc: u16, first: u8, second: u8)
    requires
        absorb(crc, first) == absorb(crc, second),
    ensures
        first == second,
{
    lemma_absorb_is_shift(crc, first);
    lemma_absorb_is_shift(crc, second);
    lemma_shift_n_injective(crc ^ (first as u16), crc ^ (second as u16), 8);
    assert((crc ^ (first as u16)) == (crc ^ (second as u16)) ==> first == second)
        by (bit_vector);
}

/// Two messages of one length that differ in exactly one byte have different
/// checksums.
pub proof fn lemma_crc_detects_one_changed_byte(first: Seq<u8>, second: Seq<u8>, at: int)
    requires
        first.len() == second.len(),
        0 <= at < first.len(),
        first[at] != second[at],
        forall|j: int| 0 <= j < first.len() && j != at ==> first[j] == second[j],
    ensures
        crc16_modbus(first) != crc16_modbus(second),
    decreases first.len(),
{
    let n = first.len() - 1;
    if at == n {
        assert(first.drop_last() =~= second.drop_last());
        if crc16_modbus(first) == crc16_modbus(second) {
            lemma_absorb_injective_in_byte(
                crc16_modbus(first.drop_last()),
                first.last(),
                second.last(),
            );
        }
    } else {
        lemma_crc_detects_one_changed_byte(first.drop_last(), second.drop_last(), at);
        if crc16_modbus(first) == crc16_modbus(second) {
            lemma_absorb_injective_in_register(
                crc16_modbus(first.drop_last()),
                crc16_modbus(second.drop_last()),
                first.last(),
            );
        }
    }
}

} // verus!

use vstd::prelude::*;

verus! {

/// The trap opcode written over an instruction to make it a breakpoint.
pub const TRAP_OPCODE: u8 = 0xcc;

/// Byte `k` (little-endian, `k < 8`) of a memory word.
pub open spec fn byte_of(word: u64, k: u64) -> u8 {
    ((word >> (8 * k)) & 0xff) as u8
}

/// The word `word` with byte `k` replaced by `val`.
pub open spec fn with_byte(word: u64, k: u64, val: u8) -> u64 {
    (word & !(0xffu64 << (8 * k))) | ((val as u64) << (8 * k))
}

proof fn lemma_with_byte(word: u64, k: u64, val: u8, j: u64)
    requires
        k < 8,
        j < 8,
    ensures
        j == k ==> byte_of(with_byte(word, k, val), j) == val,
        j != k ==> byte_of(with_byte(word, k, val), j) == byte_of(word, j),
{
    let w = word;
    let v = val as u64;
    assert(j == k ==> (((w & !(0xffu64 << (8 * k))) | (v << (8 * k))) >> (8 * j)) & 0xff == v)
        by (bit_vector)
        requires
            k < 8,
            j < 8,
            v < 256,
    ;
    assert(j != k ==> (((w & !(0xffu64 << (8 * k))) | (v << (8 * k))) >> (8 * j)) & 0xff == (w
        >> (8 * j)) & 0xff)
        by (bit_vector)
        requires
            k < 8,
            j < 8,
            v < 256,
    ;
}

/// Start of the word that holds `addr`.
pub fn align_addr_to_word(addr: u64) -> (r: u64)
    ensures
        r == addr - addr % 8,
{
    assert(addr & !7u64 == addr - addr % 8) by (bit_vector);
    addr & !7u64
}

/// Overwrites the byte of `word` that holds `addr` with `val`, where `word` is
/// the memory word that starts at `align_addr_to_word(addr)`. Returns the byte
/// that was there and the patched word; every other byte is kept.
pub fn patch_word(word: u64, addr: u64, val: u8) -> (r: (u8, u64))
    ensures
        r.0 == byte_of(word, addr % 8),
        r.1 == with_byte(word, addr % 8, val),
        byte_of(r.1, addr % 8) == val,
        forall|j: u64| j < 8 && j != addr % 8 ==> #[trigger] byte_of(r.1, j) == byte_of(word, j),
{
    let k: u64 = addr % 8;
    let orig: u8 = ((word >> (8 * k)) & 0xff) as u8;
    let updated: u64 = (word & !(0xffu64 << (8 * k))) | ((val as u64) << (8 * k));
    proof {
        lemma_with_byte(word, k, val, k);
        assert forall|j: u64| j < 8 && j != k implies #[trigger] byte_of(updated, j) == byte_of(
            word,
            j,
        ) by {
            lemma_with_byte(word, k, val, j);
        }
    }
    (orig, updated)
}

} // verus!

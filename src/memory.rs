//! Byte-level patching of machine words.
//!
//! Process memory is read and written one aligned 8-byte word at a time, so
//! installing a one-byte trap is a read-modify-write of the word that holds
//! the target address. The functions here do the modify step.
use vstd::prelude::*;

verus! {

/// Size in bytes of one machine word of the traced process.
pub const WORD_SIZE: usize = 8;

/// The x86 `int3` instruction, one byte long.
pub const TRAP_OPCODE: u8 = 0xcc;

/// Byte number `k` (little-endian, `k < 8`) of `word`.
pub open spec fn byte_of(word: u64, k: u64) -> u8 {
    ((word >> (8 * k) as u64) & 0xff) as u8
}

/// `word` with byte number `k` replaced by `v`.
pub open spec fn with_byte(word: u64, k: u64, v: u8) -> u64 {
    (word & !(0xffu64 << (8 * k) as u64)) | ((v as u64) << (8 * k) as u64)
}

/// Start of the aligned word that holds `addr`.
pub open spec fn word_start(addr: usize) -> usize {
    (addr - addr % WORD_SIZE) as usize
}

/// Rounds `addr` down to the start of the machine word holding it.
pub fn align_addr_to_word(addr: usize) -> (r: usize)
    ensures
        r == word_start(addr),
        r <= addr,
        addr - r < WORD_SIZE,
        r % 8 == 0,
{
    let r = addr & !(WORD_SIZE - 1);
    assert(addr & !7usize == addr - addr % 8) by (bit_vector);
    r
}

/// Writes `val` into byte `offset` of `word`; returns the new word and the
/// byte that was there before.
pub fn patch_word(word: u64, offset: usize, val: u8) -> (r: (u64, u8))
    requires
        offset < WORD_SIZE,
    ensures
        r.0 == with_byte(word, offset as u64, val),
        r.1 == byte_of(word, offset as u64),
{
    let shift: u64 = 8 * offset as u64;
    let orig = ((word >> shift) & 0xff) as u8;
    let masked = word & !(0xffu64 << shift);
    let updated = masked | ((val as u64) << shift);
    (updated, orig)
}

/// Patches the byte at `addr` inside `word`, the aligned word read from
/// `align_addr_to_word(addr)`.
pub fn patch_byte_at(word: u64, addr: usize, val: u8) -> (r: (u64, u8))
    ensures
        r.0 == with_byte(word, (addr % 8) as u64, val),
        r.1 == byte_of(word, (addr % 8) as u64),
{
    let aligned = align_addr_to_word(addr);
    patch_word(word, addr - aligned, val)
}

/// After a byte is written, reading it back gives the byte written.
pub proof fn lemma_read_back(word: u64, k: u64, v: u8)
    requires
        k < 8,
    ensures
        byte_of(with_byte(word, k, v), k) == v,
{
    assert(k < 8 ==> ((((word & !(0xffu64 << (8 * k) as u64)) | ((v as u64) << (8 * k) as u64))
        >> (8 * k) as u64) & 0xff) as u8 == v) by (bit_vector);
}

/// Writing a byte leaves every other byte of the word as it was.
pub proof fn lemma_other_bytes_kept(word: u64, k: u64, j: u64, v: u8)
    requires
        k < 8,
        j < 8,
        j != k,
    ensures
        byte_of(with_byte(word, k, v), j) == byte_of(word, j),
{
    assert(k < 8 && j < 8 && j != k ==> ((((word & !(0xffu64 << (8 * k) as u64)) | ((v as u64)
        << (8 * k) as u64)) >> (8 * j) as u64) & 0xff) as u8 == ((word >> (8 * j) as u64) & 0xff) as u8)
        by (bit_vector);
}

/// Installing a trap and then writing back the byte it replaced restores the
/// word exactly as it was before the install; meanwhile the trap reads back.
pub proof fn lemma_install_then_restore(word: u64, k: u64)
    requires
        k < 8,
    ensures
        byte_of(with_byte(word, k, TRAP_OPCODE), k) == TRAP_OPCODE,
        with_byte(with_byte(word, k, TRAP_OPCODE), k, byte_of(word, k)) == word,
{
    lemma_read_back(word, k, TRAP_OPCODE);
    assert(k < 8 ==> ((((word & !(0xffu64 << (8 * k) as u64)) | ((0xccu8 as u64) << (8 * k) as u64))
        & !(0xffu64 << (8 * k) as u64)) | ((((word >> (8 * k) as u64) & 0xff) as u8 as u64) << (8
        * k) as u64)) == word) by (bit_vector);
}

} // verus!

use vstd::prelude::*;

verus! {

/// The generator polynomial of the MPEG-2 CRC-32.
pub const POLYNOMIAL: u32 = 0x04c1_1db7;

/// The register before any byte is taken in.
pub const INITIAL: u32 = 0xffff_ffff;

/// The register after one more bit of the message, most significant bit first.
pub open spec fn shift_bit(crc: u32) -> u32 {
    if crc & 0x8000_0000 != 0 {
        (crc << 1) ^ POLYNOMIAL
    } else {
        crc << 1
    }
}

/// The register after eight more bits.
pub open spec fn shift_byte(crc: u32) -> u32 {
    shift_bit(shift_bit(shift_bit(shift_bit(shift_bit(shift_bit(shift_bit(shift_bit(crc))))))))
}

/// The register after the byte `x` has been taken in.
pub open spec fn update(crc: u32, x: u8) -> u32 {
    shift_byte(crc ^ ((x as u32) << 24))
}

/// The MPEG-2 CRC-32 of `data`: polynomial 0x04C11DB7, register preset to all
/// ones, bits taken most significant first, no final inversion.
pub open spec fn spec_crc32(data: Seq<u8>) -> u32
    decreases data.len(),
{
    if data.len() == 0 {
        INITIAL
    } else {
        update(spec_crc32(data.drop_last()), data.last())
    }
}

/// Taking in a byte is one look-up: the eight shifts act on the top byte
/// alone, and what they make of it is added to the rest moved up by a byte.
proof fn lemma_table_step(crc: u32, x: u8)
    ensures
        update(crc, x) == shift_byte((((crc >> 24) as u8 ^ x) as u32) << 24) ^ (crc << 8),
{
    assert(update(crc, x) == shift_byte((((crc >> 24) as u8 ^ x) as u32) << 24) ^ (crc << 8))
        by (bit_vector);
}

/// Moves the register on by one bit.
fn shift_bit_exec(crc: u32) -> (r: u32)
    ensures
        r == shift_bit(crc),
{
    if crc & 0x8000_0000 != 0 {
        (crc << 1) ^ POLYNOMIAL
    } else {
        crc << 1
    }
}

/// Builds the table that holds, for every byte `i`, the register that eight
/// shifts make of `i` placed in the top byte.
fn make_table() -> (table: Vec<u32>)
    ensures
        table@.len() == 256,
        forall|i: int| 0 <= i < 256 ==> #[trigger] table@[i] == shift_byte(((i as u8) as u32) << 24),
{
    let mut table: Vec<u32> = Vec::with_capacity(256);
    let mut i: usize = 0;
    while i < 256
        invariant
            i <= 256,
            table@.len() == i,
            forall|j: int| 0 <= j < i ==> #[trigger] table@[j] == shift_byte(((j as u8) as u32) << 24),
        decreases 256 - i,
    {
        let mut crc: u32 = (i as u32) << 24;
        crc = shift_bit_exec(crc);
        crc = shift_bit_exec(crc);
        crc = shift_bit_exec(crc);
        crc = shift_bit_exec(crc);
        crc = shift_bit_exec(crc);
        crc = shift_bit_exec(crc);
        crc = shift_bit_exec(crc);
        crc = shift_bit_exec(crc);
        assert((i as u32) == ((i as u8) as u32));
        table.push(crc);
        i += 1;
    }
    table
}

/// Computes the MPEG-2 CRC-32 of `data`.
pub fn crc32(data: &[u8]) -> (crc: u32)
    ensures
        crc == spec_crc32(data@),
{
    let table = make_table();
    let mut crc: u32 = INITIAL;
    let mut n: usize = 0;
    while n < data.len()
        invariant
            n <= data@.len(),
            table@.len() == 256,
            forall|i: int| 0 <= i < 256 ==> #[trigger] table@[i] == shift_byte(((i as u8) as u32) << 24),
            crc == spec_crc32(data@.take(n as int)),
        decreases data@.len() - n,
    {
        let x = data[n];
        let i = ((crc >> 24) as u8) ^ x;
        proof {
            lemma_table_step(crc, x);
            assert(data@.take(n + 1).drop_last() =~= data@.take(n as int));
            assert(data@.take(n + 1).last() == x);
        }
        crc = table[i as usize] ^ (crc << 8);
        n += 1;
    }
    proof {
        assert(data@.take(n as int) =~= data@);
    }
    crc
}

} // verus!

use crate::error::ParseError;
use vstd::prelude::*;

verus! {

broadcast use vstd::array::group_array_axioms;

/// Two to the power `n`, for the bit positions of a byte.
pub open spec fn pow2(n: nat) -> int {
    if n == 0 {
        1
    } else if n == 1 {
        2
    } else if n == 2 {
        4
    } else if n == 3 {
        8
    } else if n == 4 {
        16
    } else if n == 5 {
        32
    } else if n == 6 {
        64
    } else if n == 7 {
        128
    } else {
        256
    }
}

/// The field of `width` bits of `b` whose lowest bit is bit `shift`.
pub open spec fn spec_bits(b: u8, shift: nat, width: nat) -> int {
    (b as int / pow2(shift)) % pow2(width)
}

/// The big-endian value of two bytes.
pub open spec fn spec_be16(b0: u8, b1: u8) -> int {
    b0 as int * 0x100 + b1 as int
}

/// The big-endian value of three bytes.
pub open spec fn spec_be24(b0: u8, b1: u8, b2: u8) -> int {
    b0 as int * 0x1_0000 + b1 as int * 0x100 + b2 as int
}

/// The big-endian value of four bytes.
pub open spec fn spec_be32(b0: u8, b1: u8, b2: u8, b3: u8) -> int {
    b0 as int * 0x100_0000 + b1 as int * 0x1_0000 + b2 as int * 0x100 + b3 as int
}

/// The value of a byte read as two binary-coded decimal digits.
pub open spec fn spec_bcd(b: u8) -> int {
    (b as int / 16) * 10 + b as int % 16
}

/// Shifting and masking a byte reads the same field as dividing it and
/// taking the remainder.
proof fn lemma_bits(b: u8, shift: u8, width: u8)
    requires
        1 <= width,
        shift + width <= 8,
    ensures
        ((b >> shift) & (0xffu8 >> ((8 - width) as u8))) == spec_bits(b, shift as nat, width as nat),
{
    let p: u16 = 1u16 << (shift as u16);
    let q: u16 = 1u16 << (width as u16);
    let r: u8 = (b >> shift) & (0xffu8 >> ((8 - width) as u8));
    let w: u8 = (8 - width) as u8;
    assert(r as u16 == ((b as u16) / p) % q) by (bit_vector)
        requires
            1 <= width <= 8,
            shift <= 8 - width,
            w == 8 - width,
            p == 1u16 << (shift as u16),
            q == 1u16 << (width as u16),
            r == (b >> shift) & (0xffu8 >> w),
    ;
    assert(p == pow2(shift as nat)) by (bit_vector)
        requires
            shift <= 7,
            p == 1u16 << (shift as u16),
    ;
    assert(q == pow2(width as nat)) by (bit_vector)
        requires
            width <= 8,
            q == 1u16 << (width as u16),
    ;
}

/// The views of the items of a sequence.
pub open spec fn views<T: View>(s: Seq<T>) -> Seq<T::V> {
    s.map_values(|x: T| x@)
}

/// The items that follow one another in `b` without gaps, each read by
/// `item`, which also tells how many bytes the item takes. An item that
/// reaches beyond the end of `b` is an error.
pub open spec fn spec_list<V>(
    b: Seq<u8>,
    item: spec_fn(Seq<u8>) -> Result<(V, int), ParseError>,
) -> Result<Seq<V>, ParseError>
    decreases b.len(),
{
    if b.len() == 0 {
        Ok(Seq::empty())
    } else {
        match item(b) {
            Err(e) => Err(e),
            Ok((v, n)) => if n <= 0 || n > b.len() {
                Err(ParseError::TooShort)
            } else {
                match spec_list(b.skip(n), item) {
                    Ok(rest) => Ok(seq![v] + rest),
                    Err(e) => Err(e),
                }
            },
        }
    }
}

/// What is known of the list in `b` once the items `done` have been read
/// and `rest` is still to be read: the list of `b` is `done` followed by the
/// list of `rest`, and fails as the list of `rest` fails.
pub open spec fn list_so_far<V>(
    b: Seq<u8>,
    item: spec_fn(Seq<u8>) -> Result<(V, int), ParseError>,
    done: Seq<V>,
    rest: Seq<u8>,
) -> bool {
    match spec_list(rest, item) {
        Ok(tail) => spec_list(b, item) == Ok::<Seq<V>, ParseError>(done + tail),
        Err(e) => spec_list(b, item) == Err::<Seq<V>, ParseError>(e),
    }
}

/// Reading one more item keeps [`list_so_far`].
pub proof fn lemma_list_step<V>(
    b: Seq<u8>,
    item: spec_fn(Seq<u8>) -> Result<(V, int), ParseError>,
    done: Seq<V>,
    rest: Seq<u8>,
)
    requires
        list_so_far(b, item, done, rest),
        rest.len() > 0,
    ensures
        match item(rest) {
            Err(e) => spec_list(b, item) == Err::<Seq<V>, ParseError>(e),
            Ok((v, n)) => if n <= 0 || n > rest.len() {
                spec_list(b, item) == Err::<Seq<V>, ParseError>(ParseError::TooShort)
            } else {
                list_so_far(b, item, done.push(v), rest.skip(n))
            },
        },
{
    match item(rest) {
        Err(e) => {},
        Ok((v, n)) => {
            if 0 < n <= rest.len() {
                match spec_list(rest.skip(n), item) {
                    Ok(tail) => {
                        assert(done + (seq![v] + tail) =~= done.push(v) + tail);
                    },
                    Err(e) => {},
                }
            }
        },
    }
}

/// Once nothing is left to read, the items read are the list.
pub proof fn lemma_list_done<V>(
    b: Seq<u8>,
    item: spec_fn(Seq<u8>) -> Result<(V, int), ParseError>,
    done: Seq<V>,
    rest: Seq<u8>,
)
    requires
        list_so_far(b, item, done, rest),
        rest.len() == 0,
    ensures
        spec_list(b, item) == Ok::<Seq<V>, ParseError>(done),
{
    assert(done + Seq::<V>::empty() =~= done);
}

/// The first `n` items that follow one another in `b` from the position `at`
/// on, each read by `item`, which also tells where the next one starts; and
/// the position after the last of them.
pub open spec fn spec_items<V>(
    b: Seq<u8>,
    at: int,
    n: nat,
    item: spec_fn(Seq<u8>, int) -> Result<(V, int), ParseError>,
) -> Result<(Seq<V>, int), ParseError>
    decreases n,
{
    if n == 0 {
        Ok((Seq::empty(), at))
    } else {
        match spec_items(b, at, (n - 1) as nat, item) {
            Err(e) => Err(e),
            Ok((items, next)) => match item(b, next) {
                Err(e) => Err(e),
                Ok((v, end)) => Ok((items.push(v), end)),
            },
        }
    }
}

/// Where the first `i` items cannot be read, no greater number can.
pub proof fn lemma_items_fail<V>(
    b: Seq<u8>,
    at: int,
    i: nat,
    n: nat,
    item: spec_fn(Seq<u8>, int) -> Result<(V, int), ParseError>,
)
    requires
        i <= n,
        spec_items(b, at, i, item) is Err,
    ensures
        spec_items(b, at, n, item) == spec_items(b, at, i, item),
    decreases n,
{
    if i < n {
        lemma_items_fail(b, at, i, (n - 1) as nat, item);
    }
}

/// Reads the field of `width` bits of `b` whose lowest bit is bit `shift`.
pub fn bits(b: u8, shift: u8, width: u8) -> (r: u8)
    requires
        1 <= width,
        shift + width <= 8,
    ensures
        r == spec_bits(b, shift as nat, width as nat),
{
    proof {
        lemma_bits(b, shift, width);
    }
    (b >> shift) & (0xffu8 >> (8 - width))
}

/// Tells whether bit `shift` of `b` is set.
pub fn flag(b: u8, shift: u8) -> (r: bool)
    requires
        shift < 8,
    ensures
        r == (spec_bits(b, shift as nat, 1) == 1),
{
    bits(b, shift, 1) == 1
}

/// Reads two bytes as a big-endian number.
pub fn be16(b0: u8, b1: u8) -> (r: u16)
    ensures
        r == spec_be16(b0, b1),
{
    (b0 as u16) * 0x100 + b1 as u16
}

/// Reads three bytes as a big-endian number.
pub fn be24(b0: u8, b1: u8, b2: u8) -> (r: u32)
    ensures
        r == spec_be24(b0, b1, b2),
{
    (b0 as u32) * 0x1_0000 + (b1 as u32) * 0x100 + b2 as u32
}

/// Reads four bytes as a big-endian number.
pub fn be32(b0: u8, b1: u8, b2: u8, b3: u8) -> (r: u32)
    ensures
        r == spec_be32(b0, b1, b2, b3),
{
    (b0 as u32) * 0x100_0000 + (b1 as u32) * 0x1_0000 + (b2 as u32) * 0x100 + b3 as u32
}

/// The four bytes of a number, the most significant first.
pub open spec fn spec_be_bytes(v: u32) -> Seq<u8> {
    seq![
        (v / 0x100_0000) as u8,
        (v / 0x1_0000 % 0x100) as u8,
        (v / 0x100 % 0x100) as u8,
        (v % 0x100) as u8,
    ]
}

/// Writes a number as four bytes, the most significant first.
pub fn be_bytes(v: u32) -> (r: [u8; 4])
    ensures
        r@ == spec_be_bytes(v),
        spec_be32(r@[0], r@[1], r@[2], r@[3]) == v,
{
    let r = [
        (v / 0x100_0000) as u8,
        (v / 0x1_0000 % 0x100) as u8,
        (v / 0x100 % 0x100) as u8,
        (v % 0x100) as u8,
    ];
    proof {
        assert(r@ =~= spec_be_bytes(v));
    }
    r
}

/// The 13 bits of a PID: the low five bits of the first byte and the second byte.
pub open spec fn spec_pid(b0: u8, b1: u8) -> int {
    spec_bits(b0, 0, 5) * 0x100 + b1 as int
}

/// Reads the 13 bits of a PID.
pub fn pid(b0: u8, b1: u8) -> (r: u16)
    ensures
        r == spec_pid(b0, b1),
{
    be16(bits(b0, 0, 5), b1)
}

/// The 12 bits of a length: the low four bits of the first byte and the second byte.
pub open spec fn spec_length12(b0: u8, b1: u8) -> int {
    spec_bits(b0, 0, 4) * 0x100 + b1 as int
}

/// Reads the 12 bits of a length.
pub fn length12(b0: u8, b1: u8) -> (r: usize)
    ensures
        r == spec_length12(b0, b1),
        r < 0x1000,
{
    be16(bits(b0, 0, 4), b1) as usize
}

/// Reads a byte as two binary-coded decimal digits, the high nibble counting tens.
pub fn bcd(b: u8) -> (r: u8)
    ensures
        r == spec_bcd(b),
{
    bits(b, 4, 4) * 10 + bits(b, 0, 4)
}

/// Reads the first four bytes as a big-endian number; fails when fewer are given.
pub fn read_u32(bytes: &[u8]) -> (r: Result<u32, ParseError>)
    ensures
        bytes@.len() < 4 ==> r == Err::<u32, ParseError>(ParseError::TooShort),
        bytes@.len() >= 4 ==> r == Ok::<u32, ParseError>(
            spec_be32(bytes@[0], bytes@[1], bytes@[2], bytes@[3]) as u32,
        ),
{
    if bytes.len() < 4 {
        return Err(ParseError::TooShort);
    }
    Ok(be32(bytes[0], bytes[1], bytes[2], bytes[3]))
}

} // verus!

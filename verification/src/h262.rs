use crate::util::{bits, spec_bits};
use vstd::prelude::*;

verus! {

broadcast use vstd::array::group_array_axioms;

/// The four bytes that start a picture header.
pub const PICTURE_START_CODE: [u8; 4] = [0, 0, 1, 0];

/// The coding type of a picture that is coded without reference to others.
pub const I_PICTURE: u8 = 1;

/// Tells whether `pattern` stands in `seq` at the position `i`.
pub open spec fn spec_matches_at(pattern: Seq<u8>, seq: Seq<u8>, i: int) -> bool {
    0 <= i && i + pattern.len() <= seq.len() && seq.subrange(i, i + pattern.len()) == pattern
}

/// The first position at or after `from` at which `pattern` stands in `seq`.
pub open spec fn spec_index_pattern(pattern: Seq<u8>, seq: Seq<u8>, from: int) -> Option<int>
    decreases seq.len() - from,
{
    if from < 0 || from >= seq.len() || from + pattern.len() > seq.len() {
        None
    } else if spec_matches_at(pattern, seq, from) {
        Some(from)
    } else {
        spec_index_pattern(pattern, seq, from + 1)
    }
}

/// Tells whether the first picture header in `bytes` is that of an
/// I-picture: six bytes from its start code on, of which the last holds the
/// coding type in the bits 3 to 5.
pub open spec fn spec_is_i_picture(bytes: Seq<u8>) -> bool {
    match spec_index_pattern(PICTURE_START_CODE@, bytes, 0) {
        Some(i) => i + 6 <= bytes.len() && spec_bits(bytes[i + 5], 3, 3) == I_PICTURE,
        None => false,
    }
}

/// What [`spec_index_pattern`] finds is the first position where the
/// pattern stands, and it finds one wherever there is one.
pub proof fn lemma_index_pattern_first(pattern: Seq<u8>, seq: Seq<u8>, from: int)
    requires
        0 <= from,
    ensures
        match spec_index_pattern(pattern, seq, from) {
            Some(i) => from <= i && spec_matches_at(pattern, seq, i) && forall|j: int|
                from <= j < i ==> !spec_matches_at(pattern, seq, j),
            None => forall|j: int| from <= j < seq.len() ==> !spec_matches_at(pattern, seq, j),
        },
    decreases seq.len() - from,
{
    if from < seq.len() && from + pattern.len() <= seq.len() && !spec_matches_at(
        pattern,
        seq,
        from,
    ) {
        lemma_index_pattern_first(pattern, seq, from + 1);
    }
}

/// Tells whether `pattern` stands in `seq` at the position `i`.
fn matches_at(pattern: &[u8], seq: &[u8], i: usize) -> (r: bool)
    requires
        i + pattern@.len() <= seq@.len(),
    ensures
        r == spec_matches_at(pattern@, seq@, i as int),
{
    proof {
        assert(seq@.len() == seq.len());
    }
    let mut j: usize = 0;
    while j < pattern.len()
        invariant
            j <= pattern@.len(),
            i + pattern@.len() <= seq@.len() <= usize::MAX,
            forall|k: int| 0 <= k < j ==> seq@[i + k] == pattern@[k],
        decreases pattern@.len() - j,
    {
        if seq[i + j] != pattern[j] {
            proof {
                assert(seq@.subrange(i as int, i + pattern@.len())[j as int] == seq@[i + j]);
            }
            return false;
        }
        j += 1;
    }
    proof {
        assert(seq@.subrange(i as int, i + pattern@.len()) =~= pattern@);
    }
    true
}

/// Finds the first position at which `pattern` stands in `seq`.
pub fn index_pattern(pattern: &[u8], seq: &[u8]) -> (r: Option<usize>)
    ensures
        match r {
            Some(i) => spec_index_pattern(pattern@, seq@, 0) == Some(i as int) && i
                + pattern@.len() <= seq@.len(),
            None => spec_index_pattern(pattern@, seq@, 0) is None,
        },
{
    if pattern.len() > seq.len() {
        return None;
    }
    let last = seq.len() - pattern.len();
    let mut i: usize = 0;
    while i < seq.len() && i <= last
        invariant
            last + pattern@.len() == seq@.len(),
            spec_index_pattern(pattern@, seq@, 0) == spec_index_pattern(pattern@, seq@, i as int),
        decreases seq@.len() - i,
    {
        if matches_at(pattern, seq, i) {
            return Some(i);
        }
        i += 1;
    }
    None
}

/// Tells whether the payload of a PES packet starts an I-picture, as
/// [`spec_is_i_picture`] says.
pub fn is_i_picture(bytes: &[u8]) -> (r: bool)
    ensures
        r == spec_is_i_picture(bytes@),
{
    let pattern = PICTURE_START_CODE;
    if let Some(index) = index_pattern(pattern.as_slice(), bytes) {
        proof {
            assert(bytes@.len() == bytes.len());
        }
        if bytes.len() - index >= 6 {
            let picture_coding_type = bits(bytes[index + 5], 3, 3);
            if picture_coding_type == I_PICTURE {
                return true;
            }
        }
    }
    false
}

} // verus!

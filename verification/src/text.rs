//! Sizes of text in bytes.

use vstd::prelude::*;
use vstd::utf8::encode_utf8;

verus! {

/// Number of bytes that `text` takes in UTF-8.
pub open spec fn byte_len(text: Seq<char>) -> nat {
    encode_utf8(text).len()
}

/// The bytes of a run of ASCII characters.
pub open spec fn ascii_bytes(chars: Seq<char>) -> Seq<u8> {
    Seq::new(chars.len(), |i: int| chars[i] as u8)
}

/// Number of bytes that the texts of `parts` take together.
pub open spec fn total_byte_len(parts: Seq<Seq<char>>) -> nat
    decreases parts.len(),
{
    if parts.len() == 0 {
        0
    } else {
        total_byte_len(parts.drop_last()) + byte_len(parts.last())
    }
}

/// The first `k` texts never take more bytes than all of them.
pub proof fn lemma_total_byte_len_prefix(parts: Seq<Seq<char>>, k: int)
    requires
        0 <= k <= parts.len(),
    ensures
        total_byte_len(parts.take(k)) <= total_byte_len(parts),
    decreases parts.len() - k,
{
    if k == parts.len() {
        assert(parts.take(k) =~= parts);
    } else {
        lemma_total_byte_len_prefix(parts, k + 1);
        assert(parts.take(k + 1).drop_last() =~= parts.take(k));
    }
}

} // verus!

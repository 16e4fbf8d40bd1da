use vstd::prelude::*;

verus! {

/// Number of bytes of a buffer of `bufsize` bytes that a pattern fill covers:
/// the largest multiple of three not above `bufsize`.
pub open spec fn covered_len(bufsize: int) -> int {
    (bufsize / 3) * 3
}

/// `buf` holds, at each index below `covered_len(bufsize)`, the byte of
/// `pattern` at that index modulo three, and keeps `old_buf` elsewhere.
pub open spec fn is_pattern_fill(old_buf: Seq<u8>, buf: Seq<u8>, pattern: Seq<u8>, bufsize: int) -> bool {
    &&& buf.len() == old_buf.len()
    &&& forall|i: int| 0 <= i < covered_len(bufsize) ==> #[trigger] buf[i] == pattern[i % 3]
    &&& forall|i: int| covered_len(bufsize) <= i < buf.len() ==> #[trigger] buf[i] == old_buf[i]
}

/// Writes the three-byte `pattern` over and over into the first
/// `bufsize / 3` triples of `buf`.
pub fn sdel_fill_buf(pattern: &[u8; 3], bufsize: usize, buf: &mut [u8])
    requires
        covered_len(bufsize as int) <= old(buf)@.len(),
    ensures
        is_pattern_fill(old(buf)@, final(buf)@, pattern@, bufsize as int),
{
    let triples = bufsize / 3;
    let mut loop_: usize = 0;
    while loop_ < triples
        invariant
            triples == bufsize / 3,
            triples * 3 <= buf@.len(),
            loop_ <= triples,
            buf@.len() == old(buf)@.len(),
            pattern@.len() == 3,
            forall|i: int| 0 <= i < loop_ * 3 ==> #[trigger] buf@[i] == pattern@[i % 3],
            forall|i: int| loop_ * 3 <= i < buf@.len() ==> #[trigger] buf@[i] == old(buf)@[i],
        decreases triples - loop_,
    {
        let where_: usize = loop_ * 3;
        buf[where_] = pattern[0];
        buf[where_ + 1] = pattern[1];
        buf[where_ + 2] = pattern[2];
        assert(where_ % 3 == 0 && (where_ + 1) % 3 == 1 && (where_ + 2) % 3 == 2) by (nonlinear_arith)
            requires
                where_ == loop_ * 3,
        ;
        loop_ = loop_ + 1;
    }
}

} // verus!

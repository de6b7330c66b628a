use vstd::prelude::*;

verus! {

/// The two bytes of `port` in network (big-endian) order.
pub open spec fn be16(port: u16) -> Seq<u8> {
    seq![(port / 256) as u8, (port % 256) as u8]
}

/// The number that two big-endian bytes stand for.
pub open spec fn be16_value(hi: u8, lo: u8) -> u16 {
    (hi as int * 256 + lo as int) as u16
}

pub proof fn lemma_be16_round_trip(port: u16)
    ensures
        be16_value(be16(port)[0], be16(port)[1]) == port,
{
}

/// Appends `src[start..end]` to `out`.
pub fn push_range(out: &mut Vec<u8>, src: &[u8], start: usize, end: usize)
    requires
        start <= end <= src@.len(),
    ensures
        final(out)@ == old(out)@ + src@.subrange(start as int, end as int),
{
    let mut i: usize = start;
    while i < end
        invariant
            start <= i <= end <= src@.len(),
            out@ == old(out)@ + src@.subrange(start as int, i as int),
        decreases end - i,
    {
        out.push(src[i]);
        i = i + 1;
        assert(src@.subrange(start as int, i as int) =~= src@.subrange(start as int, i - 1 as int).push(src@[i - 1]));
    }
}

/// Copies `src[start..end]` into a new vector.
pub fn copy_range(src: &[u8], start: usize, end: usize) -> (r: Vec<u8>)
    requires
        start <= end <= src@.len(),
    ensures
        r@ == src@.subrange(start as int, end as int),
{
    let mut r: Vec<u8> = Vec::new();
    push_range(&mut r, src, start, end);
    assert(r@ =~= src@.subrange(start as int, end as int));
    r
}

/// Writes `port` as two big-endian bytes at the end of `out`.
pub fn push_be16(out: &mut Vec<u8>, port: u16)
    ensures
        final(out)@ == old(out)@ + be16(port),
{
    out.push((port / 256) as u8);
    out.push((port % 256) as u8);
    assert(final(out)@ =~= old(out)@ + be16(port));
}

/// Reads the big-endian number held by `hi` and `lo`.
pub fn read_be16(hi: u8, lo: u8) -> (r: u16)
    ensures
        r == be16_value(hi, lo),
        r as int == hi as int * 256 + lo as int,
{
    (hi as u16) * 256 + (lo as u16)
}

} // verus!

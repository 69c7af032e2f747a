use vstd::prelude::*;

verus! {

/// `n` as eight big-endian bytes.
pub open spec fn be_u64(n: u64) -> Seq<u8> {
    Seq::new(8, |i: int| (n >> ((8 * (7 - i)) as u64)) as u8)
}

/// `n` zero bytes.
pub open spec fn zeros(n: nat) -> Seq<u8> {
    Seq::new(n, |i: int| 0u8)
}

/// Appends every byte of `src` to `out`.
pub fn push_all(out: &mut Vec<u8>, src: &[u8])
    requires
        old(out)@.len() + src@.len() <= usize::MAX,
    ensures
        final(out)@ == old(out)@ + src@,
{
    let ghost start = out@;
    let mut i: usize = 0;
    while i < src.len()
        invariant
            i <= src@.len(),
            out@ == start + src@.subrange(0, i as int),
            start.len() + src@.len() <= usize::MAX,
        decreases src@.len() - i,
    {
        out.push(src[i]);
        i = i + 1;
        assert(src@.subrange(0, i as int) == src@.subrange(0, i - 1 as int).push(src@[i - 1]));
    }
    assert(src@.subrange(0, src@.len() as int) == src@);
}

/// Appends `n` zero bytes to `out`.
pub fn push_zeros(out: &mut Vec<u8>, n: usize)
    requires
        old(out)@.len() + n <= usize::MAX,
    ensures
        final(out)@ == old(out)@ + zeros(n as nat),
{
    let ghost start = out@;
    let mut i: usize = 0;
    while i < n
        invariant
            i <= n,
            out@ == start + zeros(i as nat),
            start.len() + n <= usize::MAX,
        decreases n - i,
    {
        out.push(0u8);
        i = i + 1;
        assert(zeros(i as nat) == zeros((i - 1) as nat).push(0u8));
    }
}

/// Appends `n` as eight big-endian bytes to `out`.
pub fn push_be_u64(out: &mut Vec<u8>, n: u64)
    requires
        old(out)@.len() + 8 <= usize::MAX,
    ensures
        final(out)@ == old(out)@ + be_u64(n),
{
    let ghost start = out@;
    let mut k: usize = 0;
    while k < 8
        invariant
            k <= 8,
            out@ == start + be_u64(n).subrange(0, k as int),
            start.len() + 8 <= usize::MAX,
        decreases 8 - k,
    {
        let shift: u64 = (8 * (7 - k)) as u64;
        let b: u8 = (n >> shift) as u8;
        out.push(b);
        k = k + 1;
        assert(be_u64(n).subrange(0, k as int) == be_u64(n).subrange(0, k - 1 as int).push(
            be_u64(n)[k - 1],
        ));
    }
    assert(be_u64(n).subrange(0, 8) == be_u64(n));
}

} // verus!

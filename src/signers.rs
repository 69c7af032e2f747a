use vstd::prelude::*;
use vstd::seq_lib::{group_to_multiset_ensures, to_multiset_insert};

verus! {

/// Whether the byte string `a` comes no later than `b` in lexicographic order.
pub open spec fn lex_le(a: Seq<u8>, b: Seq<u8>) -> bool
    decreases a.len(),
{
    if a.len() == 0 {
        true
    } else if b.len() == 0 {
        false
    } else if a[0] < b[0] {
        true
    } else if a[0] > b[0] {
        false
    } else {
        lex_le(a.drop_first(), b.drop_first())
    }
}

/// Any two byte strings are ordered one way or the other.
pub proof fn lemma_lex_total(a: Seq<u8>, b: Seq<u8>)
    ensures
        lex_le(a, b) || lex_le(b, a),
    decreases a.len(),
{
    if a.len() > 0 && b.len() > 0 && a[0] == b[0] {
        lemma_lex_total(a.drop_first(), b.drop_first());
    }
}

/// Lexicographic order is transitive.
pub proof fn lemma_lex_trans(a: Seq<u8>, b: Seq<u8>, c: Seq<u8>)
    requires
        lex_le(a, b),
        lex_le(b, c),
    ensures
        lex_le(a, c),
    decreases a.len(),
{
    if a.len() > 0 && b.len() > 0 && c.len() > 0 && a[0] == b[0] && b[0] == c[0] {
        lemma_lex_trans(a.drop_first(), b.drop_first(), c.drop_first());
    }
}

/// Whether the addresses are in ascending byte order.
pub open spec fn ascending(s: Seq<[u8; 20]>) -> bool {
    forall|p: int, q: int| 0 <= p < q < s.len() ==> lex_le(#[trigger] s[p]@, #[trigger] s[q]@)
}

/// Whether `a` comes no later than `b`, byte by byte.
fn address_le(a: &[u8; 20], b: &[u8; 20]) -> (r: bool)
    ensures
        r == lex_le(a@, b@),
{
    let mut i: usize = 0;
    assert(a@.subrange(0, 20) == a@);
    assert(b@.subrange(0, 20) == b@);
    while i < 20
        invariant
            i <= 20,
            a@.len() == 20,
            b@.len() == 20,
            lex_le(a@, b@) == lex_le(a@.subrange(i as int, 20), b@.subrange(i as int, 20)),
        decreases 20 - i,
    {
        let ghost sa = a@.subrange(i as int, 20);
        let ghost sb = b@.subrange(i as int, 20);
        assert(sa.drop_first() == a@.subrange(i + 1, 20));
        assert(sb.drop_first() == b@.subrange(i + 1, 20));
        if a[i] < b[i] {
            return true;
        }
        if a[i] > b[i] {
            return false;
        }
        i = i + 1;
    }
    true
}

/// The signer addresses in ascending byte order: a permutation of `signers`.
pub fn sorted_signers(signers: Vec<[u8; 20]>) -> (r: Vec<[u8; 20]>)
    ensures
        r@.to_multiset() == signers@.to_multiset(),
        ascending(r@),
{
    broadcast use group_to_multiset_ensures;

    let mut out: Vec<[u8; 20]> = Vec::new();
    let mut i: usize = 0;
    while i < signers.len()
        invariant
            i <= signers@.len(),
            out@.to_multiset() == signers@.subrange(0, i as int).to_multiset(),
            ascending(out@),
        decreases signers@.len() - i,
    {
        let x = signers[i];
        let mut j: usize = 0;
        while j < out.len() && address_le(&out[j], &x)
            invariant
                j <= out@.len(),
                forall|p: int| 0 <= p < j ==> lex_le(#[trigger] out@[p]@, x@),
            decreases out@.len() - j,
        {
            j = j + 1;
        }
        let ghost before = out@;
        proof {
            to_multiset_insert(before, j as int, x);
            assert(signers@.subrange(0, i + 1) == signers@.subrange(0, i as int).push(x));
            if j < before.len() {
                lemma_lex_total(before[j as int]@, x@);
            }
        }
        out.insert(j, x);
        proof {
            assert(out@ == before.insert(j as int, x));
            let pre = signers@.subrange(0, i as int);
            pre.to_multiset_ensures();
            assert(pre.push(x).to_multiset() =~= pre.to_multiset().insert(x));
            let s = out@;
            assert forall|p: int, q: int| 0 <= p < q < s.len() implies lex_le(
                #[trigger] s[p]@,
                #[trigger] s[q]@,
            ) by {
                if q < j {
                    assert(s[p] == before[p] && s[q] == before[q]);
                } else if q == j {
                    assert(s[p] == before[p]);
                } else if p > j {
                    assert(s[p] == before[p - 1] && s[q] == before[q - 1]);
                } else if p == j {
                    assert(s[q] == before[q - 1]);
                    if q - 1 > j {
                        assert(lex_le(before[j as int]@, before[q - 1]@));
                        lemma_lex_trans(x@, before[j as int]@, before[q - 1]@);
                    }
                } else {
                    assert(s[p] == before[p] && s[q] == before[q - 1]);
                    assert(lex_le(before[p]@, x@));
                    assert(j < before.len());
                    if q - 1 > j {
                        assert(lex_le(before[j as int]@, before[q - 1]@));
                        lemma_lex_trans(x@, before[j as int]@, before[q - 1]@);
                    }
                    lemma_lex_trans(before[p]@, x@, before[q - 1]@);
                }
            }
        }
        i = i + 1;
    }
    assert(signers@.subrange(0, signers@.len() as int) == signers@);
    out
}

} // verus!

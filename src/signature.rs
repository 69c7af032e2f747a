use vstd::prelude::*;

verus! {

/// A recoverable ECDSA signature: `r` and `s` as 32 big-endian bytes each and
/// the recovery id `v` (27 or 28).
#[derive(Clone, Copy, Debug)]
pub struct SignedMessage {
    pub r: [u8; 32],
    pub s: [u8; 32],
    pub v: u64,
}

/// A signature as it travels on the wire: `r` and `s` as `0x`-prefixed
/// lower-case hexadecimal without leading zeros.
#[derive(Clone, Debug)]
pub struct SignedMessageHex {
    pub r: String,
    pub s: String,
    pub v: u64,
}

/// The mathematical content of a wire signature.
pub ghost struct SignedMessageHexView {
    pub r: Seq<char>,
    pub s: Seq<char>,
    pub v: u64,
}

impl View for SignedMessageHex {
    type V = SignedMessageHexView;

    open spec fn view(&self) -> SignedMessageHexView {
        SignedMessageHexView { r: self.r@, s: self.s@, v: self.v }
    }
}

/// The lower-case hexadecimal digit of `n < 16`.
pub open spec fn hex_char(n: u8) -> char {
    if n < 10 {
        (('0' as u8) + n) as char
    } else {
        (('a' as u8) + (n - 10)) as char
    }
}

/// Two lower-case hexadecimal digits per byte, most significant first.
pub open spec fn full_hex(b: Seq<u8>) -> Seq<char>
    decreases b.len(),
{
    if b.len() == 0 {
        Seq::empty()
    } else {
        full_hex(b.drop_last()) + seq![hex_char(b.last() / 16), hex_char(b.last() % 16)]
    }
}

/// `d` without its leading `0` digits, keeping at least one digit.
pub open spec fn strip_zeros(d: Seq<char>) -> Seq<char>
    decreases d.len(),
{
    if d.len() > 1 && d[0] == '0' {
        strip_zeros(d.drop_first())
    } else {
        d
    }
}

/// A 256-bit big-endian number as `0x` and its hexadecimal digits, without
/// leading zeros.
pub open spec fn number_hex(b: Seq<u8>) -> Seq<char> {
    "0x"@ + strip_zeros(full_hex(b))
}

/// An address as `0x` and forty lower-case hexadecimal digits.
pub open spec fn address_hex(a: Seq<u8>) -> Seq<char> {
    "0x"@ + full_hex(a)
}

/// The wire form of a signature.
pub open spec fn hex_signature(m: SignedMessage) -> SignedMessageHexView {
    SignedMessageHexView { r: number_hex(m.r@), s: number_hex(m.s@), v: m.v }
}

/// The lower-case hexadecimal digit of `n`.
fn hex_digit(n: u8) -> (r: &'static str)
    requires
        n < 16,
    ensures
        r@ == seq![hex_char(n)],
{
    proof {
        reveal_strlit("0");
        reveal_strlit("1");
        reveal_strlit("2");
        reveal_strlit("3");
        reveal_strlit("4");
        reveal_strlit("5");
        reveal_strlit("6");
        reveal_strlit("7");
        reveal_strlit("8");
        reveal_strlit("9");
        reveal_strlit("a");
        reveal_strlit("b");
        reveal_strlit("c");
        reveal_strlit("d");
        reveal_strlit("e");
        reveal_strlit("f");
    }
    let r = match n {
        0 => "0",
        1 => "1",
        2 => "2",
        3 => "3",
        4 => "4",
        5 => "5",
        6 => "6",
        7 => "7",
        8 => "8",
        9 => "9",
        10 => "a",
        11 => "b",
        12 => "c",
        13 => "d",
        14 => "e",
        _ => "f",
    };
    assert(r@ =~= seq![hex_char(n)]);
    r
}

/// The hexadecimal digits of `b`, one nibble per entry, most significant first.
pub open spec fn nibbles(b: Seq<u8>) -> Seq<u8>
    decreases b.len(),
{
    if b.len() == 0 {
        Seq::empty()
    } else {
        nibbles(b.drop_last()) + seq![b.last() / 16, b.last() % 16]
    }
}

proof fn lemma_nibbles(b: Seq<u8>)
    ensures
        nibbles(b).len() == 2 * b.len(),
        full_hex(b) == nibbles(b).map_values(|n: u8| hex_char(n)),
        forall|i: int| 0 <= i < nibbles(b).len() ==> #[trigger] nibbles(b)[i] < 16,
    decreases b.len(),
{
    if b.len() > 0 {
        lemma_nibbles(b.drop_last());
        assert(full_hex(b) =~= nibbles(b).map_values(|n: u8| hex_char(n)));
    }
}

fn push_nibbles(out: &mut Vec<u8>, b: &[u8])
    requires
        old(out)@.len() + 2 * b@.len() <= usize::MAX,
    ensures
        final(out)@ == old(out)@ + nibbles(b@),
{
    let ghost start = out@;
    let mut i: usize = 0;
    while i < b.len()
        invariant
            i <= b@.len(),
            start.len() + 2 * b@.len() <= usize::MAX,
            out@ == start + nibbles(b@.subrange(0, i as int)),
        decreases b@.len() - i,
    {
        proof {
            lemma_nibbles(b@.subrange(0, i as int));
            let sub = b@.subrange(0, i + 1);
            assert(sub.drop_last() == b@.subrange(0, i as int));
        }
        out.push(b[i] / 16);
        out.push(b[i] % 16);
        proof {
            let sub = b@.subrange(0, i + 1);
            assert(out@ =~= start + nibbles(sub));
        }
        i = i + 1;
    }
    assert(b@.subrange(0, b@.len() as int) == b@);
}

/// Appends the hexadecimal digits `d[from..]` to `s`.
fn append_digits(s: &mut String, d: &Vec<u8>, from: usize)
    requires
        from <= d@.len(),
        forall|i: int| 0 <= i < d@.len() ==> #[trigger] d@[i] < 16,
    ensures
        final(s)@ == old(s)@ + d@.subrange(from as int, d@.len() as int).map_values(
            |n: u8| hex_char(n),
        ),
{
    let ghost start = s@;
    let mut i = from;
    while i < d.len()
        invariant
            from <= i <= d@.len(),
            forall|i: int| 0 <= i < d@.len() ==> #[trigger] d@[i] < 16,
            s@ == start + d@.subrange(from as int, i as int).map_values(|n: u8| hex_char(n)),
        decreases d@.len() - i,
    {
        s.append(hex_digit(d[i]));
        assert(d@.subrange(from as int, i + 1).map_values(|n: u8| hex_char(n)) =~= d@.subrange(
            from as int,
            i as int,
        ).map_values(|n: u8| hex_char(n)).push(hex_char(d@[i as int])));
        i = i + 1;
    }
}

/// `0x` and two lower-case hexadecimal digits per byte.
pub fn to_hex_padded(b: &[u8]) -> (r: String)
    requires
        2 * b@.len() <= usize::MAX,
    ensures
        r@ == "0x"@ + full_hex(b@),
{
    let mut d: Vec<u8> = Vec::new();
    push_nibbles(&mut d, b);
    proof {
        lemma_nibbles(b@);
        assert(d@ == nibbles(b@));
        assert(d@.subrange(0, d@.len() as int) == d@);
    }
    let mut s = "0x".to_owned();
    append_digits(&mut s, &d, 0);
    s
}

proof fn lemma_strip_zeros(d: Seq<char>, k: int)
    requires
        0 <= k < d.len(),
        forall|i: int| 0 <= i < k ==> #[trigger] d[i] == '0',
        k == d.len() - 1 || d[k] != '0',
    ensures
        strip_zeros(d) == d.subrange(k, d.len() as int),
    decreases k,
{
    if k > 0 {
        let t = d.drop_first();
        assert forall|i: int| 0 <= i < k - 1 implies #[trigger] t[i] == '0' by {
            assert(t[i] == d[i + 1]);
        }
        lemma_strip_zeros(t, k - 1);
        assert(t.subrange(k - 1, t.len() as int) =~= d.subrange(k, d.len() as int));
    } else {
        assert(d.subrange(0, d.len() as int) == d);
    }
}

/// `0x` and the lower-case hexadecimal digits of the big-endian number `b`,
/// without leading zeros (`0x0` for zero).
pub fn to_hex_trimmed(b: &[u8; 32]) -> (r: String)
    ensures
        r@ == number_hex(b@),
{
    let mut d: Vec<u8> = Vec::new();
    push_nibbles(&mut d, b);
    proof {
        lemma_nibbles(b@);
    }
    let mut k: usize = 0;
    while k + 1 < d.len() && d[k] == 0
        invariant
            d@ == nibbles(b@),
            d@.len() == 64,
            k < 64,
            forall|i: int| 0 <= i < k ==> #[trigger] d@[i] == 0,
        decreases 64 - k,
    {
        k = k + 1;
    }
    proof {
        let f = full_hex(b@);
        assert(f == d@.map_values(|n: u8| hex_char(n)));
        assert forall|i: int| 0 <= i < k implies #[trigger] f[i] == '0' by {
            assert(f[i] == hex_char(d@[i]));
        }
        assert(f[k as int] == hex_char(d@[k as int]));
        lemma_strip_zeros(f, k as int);
        assert(f.subrange(k as int, 64) =~= d@.subrange(k as int, 64).map_values(
            |n: u8| hex_char(n),
        ));
    }
    let mut s = "0x".to_owned();
    append_digits(&mut s, &d, k);
    s
}

impl SignedMessageHex {
    /// The wire form of a signature.
    pub fn from_signed(m: &SignedMessage) -> (r: SignedMessageHex)
        ensures
            r@ == hex_signature(*m),
    {
        SignedMessageHex { r: to_hex_trimmed(&m.r), s: to_hex_trimmed(&m.s), v: m.v }
    }
}

} // verus!

use vstd::prelude::*;

verus! {

/// The venue network a request is meant for.
#[derive(Clone, Copy, Debug, PartialEq, Eq, Structural)]
pub enum Network {
    Mainnet,
    Testnet,
}

/// The name a network carries inside signed payloads.
pub open spec fn network_name(n: Network) -> Seq<char> {
    match n {
        Network::Mainnet => "Mainnet"@,
        Network::Testnet => "Testnet"@,
    }
}

/// The base URL of a network's API.
pub open spec fn network_url(n: Network) -> Seq<char> {
    match n {
        Network::Mainnet => "https://api.hyperliquid.xyz"@,
        Network::Testnet => "https://api.hyperliquid-testnet.xyz"@,
    }
}

impl Network {
    /// `Mainnet` or `Testnet`.
    pub fn name(self) -> (r: String)
        ensures
            r@ == network_name(self),
    {
        match self {
            Network::Mainnet => "Mainnet".to_owned(),
            Network::Testnet => "Testnet".to_owned(),
        }
    }

    /// The base URL of this network's API.
    pub fn url(self) -> (r: String)
        ensures
            r@ == network_url(self),
    {
        match self {
            Network::Mainnet => "https://api.hyperliquid.xyz".to_owned(),
            Network::Testnet => "https://api.hyperliquid-testnet.xyz".to_owned(),
        }
    }

    /// Whether this is the main network.
    pub fn is_mainnet(self) -> (r: bool)
        ensures
            r == (self == Network::Mainnet),
    {
        match self {
            Network::Mainnet => true,
            Network::Testnet => false,
        }
    }
}

/// The value of a hexadecimal digit in either case; 16 for any other character.
pub open spec fn digit_val(c: char) -> nat {
    if '0' <= c && c <= '9' {
        (c as u32 - '0' as u32) as nat
    } else if 'a' <= c && c <= 'f' {
        (c as u32 - 'a' as u32 + 10) as nat
    } else if 'A' <= c && c <= 'F' {
        (c as u32 - 'A' as u32 + 10) as nat
    } else {
        16
    }
}

/// Whether every character of `d` is a digit in radix `r`.
pub open spec fn all_digits(d: Seq<char>, r: nat) -> bool {
    forall|i: int| 0 <= i < d.len() ==> digit_val(#[trigger] d[i]) < r
}

/// The number that the digits `d` spell in radix `r`, most significant first.
pub open spec fn digits_value(d: Seq<char>, r: nat) -> nat
    decreases d.len(),
{
    if d.len() == 0 {
        0
    } else {
        digits_value(d.drop_last(), r) * r + digit_val(d.last())
    }
}

/// An unsigned 64-bit integer in radix `r`, with an optional leading `+`: `None`
/// where there is no digit, a character is not a digit, or the value exceeds `u64::MAX`.
pub open spec fn radix_value(s: Seq<char>, r: nat) -> Option<u64> {
    let d = if s.len() > 0 && s[0] == '+' {
        s.drop_first()
    } else {
        s
    };
    if d.len() > 0 && all_digits(d, r) && digits_value(d, r) <= u64::MAX {
        Some(digits_value(d, r) as u64)
    } else {
        None
    }
}

/// A chain id: hexadecimal after a `0x` prefix; otherwise hexadecimal where
/// every character is a hexadecimal digit and the value fits, and decimal
/// where that fails.
pub open spec fn chain_id_value(s: Seq<char>) -> Option<u64> {
    if s.len() >= 2 && s[0] == '0' && s[1] == 'x' {
        radix_value(s.subrange(2, s.len() as int), 16)
    } else if all_digits(s, 16) && radix_value(s, 16) is Some {
        radix_value(s, 16)
    } else {
        radix_value(s, 10)
    }
}

/// A chain id string that no rule can read.
#[derive(Clone, Copy, Debug, PartialEq, Eq, Structural)]
pub struct InvalidChainId;

fn digit_of(c: char) -> (r: u64)
    ensures
        r == digit_val(c),
{
    if '0' <= c && c <= '9' {
        (c as u32 - '0' as u32) as u64
    } else if 'a' <= c && c <= 'f' {
        (c as u32 - 'a' as u32 + 10) as u64
    } else if 'A' <= c && c <= 'F' {
        (c as u32 - 'A' as u32 + 10) as u64
    } else {
        16
    }
}

/// Reads `s[start..]` as an unsigned number in radix `radix`.
fn read_radix(s: &str, start: usize, radix: u64) -> (r: Option<u64>)
    requires
        start <= s@.len(),
        radix == 10 || radix == 16,
    ensures
        r == radix_value(s@.subrange(start as int, s@.len() as int), radix as nat),
{
    let n = s.unicode_len();
    let ghost whole = s@.subrange(start as int, n as int);
    let mut first = start;
    if first < n && s.get_char(first) == '+' {
        first = first + 1;
    }
    let ghost d = s@.subrange(first as int, n as int);
    assert(d == (if whole.len() > 0 && whole[0] == '+' {
        whole.drop_first()
    } else {
        whole
    }));
    if first == n {
        return None;
    }
    let mut acc: u64 = 0;
    let mut overflow = false;
    let mut i = first;
    while i < n
        invariant
            first <= i <= n,
            n == s@.len(),
            radix == 10 || radix == 16,
            d == s@.subrange(first as int, n as int),
            whole == s@.subrange(start as int, n as int),
            d == (if whole.len() > 0 && whole[0] == '+' {
                whole.drop_first()
            } else {
                whole
            }),
            all_digits(s@.subrange(first as int, i as int), radix as nat),
            !overflow ==> acc == digits_value(s@.subrange(first as int, i as int), radix as nat),
            overflow ==> digits_value(s@.subrange(first as int, i as int), radix as nat)
                > u64::MAX,
        decreases n - i,
    {
        let c = s.get_char(i);
        let v = digit_of(c);
        let ghost pre = s@.subrange(first as int, i as int);
        let ghost next = s@.subrange(first as int, i + 1);
        assert(next.drop_last() == pre);
        assert(next.last() == c);
        if v >= radix {
            assert(d[i - first] == c);
            assert(!all_digits(d, radix as nat));
            return None;
        }
        let ghost pv = digits_value(pre, radix as nat);
        assert(digits_value(next, radix as nat) == pv * radix + v);
        if !overflow {
            match acc.checked_mul(radix) {
                Some(m) => match m.checked_add(v) {
                    Some(a) => {
                        acc = a;
                    },
                    None => {
                        overflow = true;
                    },
                },
                None => {
                    overflow = true;
                },
            }
        } else {
            assert(pv * radix >= pv) by (nonlinear_arith)
                requires
                    radix >= 1,
            ;
        }
        assert forall|j: int| 0 <= j < next.len() implies digit_val(#[trigger] next[j])
            < radix as nat by {
            if j < pre.len() {
                assert(next[j] == pre[j]);
            }
        }
        i = i + 1;
    }
    if overflow {
        None
    } else {
        Some(acc)
    }
}

/// Reads a chain id: `0x`-prefixed hexadecimal, bare hexadecimal, or decimal,
/// failing only where none of these forms reads.
pub fn parse_chain_id(chain_id: &str) -> (r: Result<u64, InvalidChainId>)
    ensures
        r matches Ok(v) ==> chain_id_value(chain_id@) == Some(v),
        r is Err <==> chain_id_value(chain_id@) is None,
{
    let n = chain_id.unicode_len();
    let parsed = if n >= 2 && chain_id.get_char(0) == '0' && chain_id.get_char(1) == 'x' {
        read_radix(chain_id, 2, 16)
    } else {
        let mut all_hex = true;
        let mut i: usize = 0;
        while i < n
            invariant
                i <= n,
                n == chain_id@.len(),
                all_hex == all_digits(chain_id@.subrange(0, i as int), 16),
            decreases n - i,
        {
            let c = chain_id.get_char(i);
            let ghost pre = chain_id@.subrange(0, i as int);
            let ghost next = chain_id@.subrange(0, i + 1);
            assert forall|j: int| 0 <= j < pre.len() implies #[trigger] next[j] == pre[j] by {}
            assert(next[i as int] == c);
            if digit_of(c) >= 16 {
                all_hex = false;
            }
            i = i + 1;
        }
        assert(chain_id@.subrange(0, n as int) == chain_id@);
        let hex = if all_hex {
            read_radix(chain_id, 0, 16)
        } else {
            None
        };
        match hex {
            Some(v) => Some(v),
            None => read_radix(chain_id, 0, 10),
        }
    };
    match parsed {
        Some(v) => Ok(v),
        None => Err(InvalidChainId),
    }
}

} // verus!

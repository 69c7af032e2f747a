use vstd::prelude::*;

verus! {

/// The perpetual universe: one entry per asset, in asset-id order.
#[derive(Clone, Debug)]
pub struct UniverseInfo {
    pub universe: Vec<Universe>,
}

/// One perpetual asset's static description.
#[derive(Clone, Debug)]
pub struct Universe {
    pub name: String,
    pub sz_decimals: i64,
    pub max_leverage: i64,
    pub margin_table_id: i64,
    pub only_isolated: Option<bool>,
    pub is_delisted: Option<bool>,
}

/// One perpetual asset's market data.
#[derive(Clone, Debug)]
pub struct PerpetualMetadata {
    pub day_ntl_vlm: String,
    pub funding: String,
    pub impact_pxs: Option<Vec<String>>,
    pub mark_px: String,
    pub mid_px: Option<String>,
    pub open_interest: String,
    pub oracle_px: String,
    pub premium: Option<String>,
    pub prev_day_px: String,
    pub day_base_vlm: String,
}

/// The perpetual universe and its market data, entry for entry.
pub type PerpetualsInfo = (UniverseInfo, Vec<PerpetualMetadata>);

/// A request for market information.
#[derive(Clone, Debug)]
pub struct GetInfoReq {
    pub asset_type: String,
    pub dex: Option<String>,
}

/// The spot universe and the spot markets' data.
#[derive(Clone, Debug)]
pub struct SpotResponse(pub SpotInfo, pub Vec<MarketData>);

/// The spot pairs and tokens.
#[derive(Clone, Debug)]
pub struct SpotInfo {
    pub universe: Vec<SpotUniverse>,
    pub tokens: Vec<Token>,
}

/// A spot token.
#[derive(Clone, Debug)]
pub struct Token {
    pub name: String,
    pub sz_decimals: i64,
    pub wei_decimals: i64,
    pub index: i64,
    pub token_id: String,
    pub is_canonical: bool,
    pub full_name: Option<String>,
    pub deployer_trading_fee_share: String,
}

/// A spot pair: the indices of its two tokens, its name and its index.
#[derive(Clone, Debug)]
pub struct SpotUniverse {
    pub tokens: Vec<i64>,
    pub name: String,
    pub index: i64,
    pub is_canonical: bool,
}

/// One spot pair's market data.
#[derive(Clone, Debug)]
pub struct MarketData {
    pub prev_day_px: String,
    pub day_ntl_vlm: String,
    pub mark_px: String,
    pub mid_px: Option<String>,
    pub circulating_supply: String,
    pub coin: String,
    pub total_supply: String,
    pub day_base_vlm: String,
}

/// A perpetual market, keyed by its name.
#[derive(Clone, Debug)]
pub struct PerpMarketInfo {
    pub asset_id: u32,
    pub name: String,
    pub mark_px: String,
    pub mid_px: Option<String>,
    pub funding: String,
    pub max_leverage: i64,
    pub sz_decimals: i64,
    pub oracle_px: String,
    pub open_interest: String,
    pub day_ntl_vlm: String,
    pub prev_day_px: String,
    pub margin_table_id: i64,
    pub only_isolated: Option<bool>,
    pub is_delisted: Option<bool>,
}

/// A spot market, keyed by its token's name.
#[derive(Clone, Debug)]
pub struct SpotMarketInfo {
    pub asset_id: u32,
    pub name: String,
    pub mark_px: String,
    pub mid_px: Option<String>,
    pub circulating_supply: String,
    pub total_supply: String,
    pub sz_decimals: i64,
    pub wei_decimals: i64,
    pub token_id: String,
    pub day_ntl_vlm: String,
    pub prev_day_px: String,
    pub deployer_trading_fee_share: String,
    pub is_canonical: bool,
}

/// The perpetual and the spot market of one base asset.
#[derive(Clone, Debug)]
pub struct CombinedMarketInfo {
    pub base_name: String,
    pub perp: Option<PerpMarketInfo>,
    pub spot: Option<SpotMarketInfo>,
}

/// Every market, three ways: perpetual markets by name, spot markets by token
/// name, and both together by base name. Each table holds one entry per key.
#[derive(Clone, Debug)]
pub struct UnifiedMarketInfo {
    pub perp_markets: Vec<PerpMarketInfo>,
    pub spot_markets: Vec<SpotMarketInfo>,
    pub unified_markets: Vec<CombinedMarketInfo>,
}

/// `s` up to its first `d`, or all of `s` where it holds none.
pub open spec fn prefix_before(s: Seq<char>, d: char) -> Seq<char>
    decreases s.len(),
{
    if s.len() == 0 {
        s
    } else if s[0] == d {
        Seq::empty()
    } else {
        seq![s[0]] + prefix_before(s.drop_first(), d)
    }
}

/// The base asset of a market name: before the first `-` of a perpetual name,
/// before the first `/` of a spot name.
pub open spec fn base_of(name: Seq<char>, is_perp: bool) -> Seq<char> {
    prefix_before(name, if is_perp { '-' } else { '/' })
}

proof fn lemma_prefix_before(s: Seq<char>, d: char, i: int)
    requires
        0 <= i <= s.len(),
        forall|j: int| 0 <= j < i ==> #[trigger] s[j] != d,
        i == s.len() || s[i] == d,
    ensures
        prefix_before(s, d) == s.subrange(0, i),
    decreases i,
{
    if i > 0 {
        let t = s.drop_first();
        assert forall|j: int| 0 <= j < i - 1 implies #[trigger] t[j] != d by {
            assert(t[j] == s[j + 1]);
        }
        lemma_prefix_before(t, d, i - 1);
        assert(seq![s[0]] + t.subrange(0, i - 1) =~= s.subrange(0, i));
    } else {
        assert(s.subrange(0, 0) =~= Seq::<char>::empty());
    }
}

/// The base asset of a market name.
pub fn extract_base_name(market_name: &str, is_perp: bool) -> (r: String)
    ensures
        r@ == base_of(market_name@, is_perp),
{
    let d = if is_perp {
        '-'
    } else {
        '/'
    };
    let n = market_name.unicode_len();
    let mut i: usize = 0;
    while i < n && market_name.get_char(i) != d
        invariant
            i <= n,
            n == market_name@.len(),
            forall|j: int| 0 <= j < i ==> #[trigger] market_name@[j] != d,
        decreases n - i,
    {
        i = i + 1;
    }
    proof {
        lemma_prefix_before(market_name@, d, i as int);
    }
    market_name.substring_char(0, i).to_owned()
}

/// The last index below `n` whose entry satisfies `p`, or -1 where none does.
pub open spec fn last_where(n: int, p: spec_fn(int) -> bool) -> int
    decreases n,
{
    if n <= 0 {
        -1
    } else if p(n - 1) {
        n - 1
    } else {
        last_where(n - 1, p)
    }
}

/// The perpetual market built from universe entry `u`, its data `m`, at index `i`.
pub open spec fn perp_market_of(u: Universe, m: PerpetualMetadata, i: usize) -> PerpMarketInfo {
    PerpMarketInfo {
        asset_id: i as u32,
        name: u.name,
        mark_px: m.mark_px,
        mid_px: m.mid_px,
        funding: m.funding,
        max_leverage: u.max_leverage,
        sz_decimals: u.sz_decimals,
        oracle_px: m.oracle_px,
        open_interest: m.open_interest,
        day_ntl_vlm: m.day_ntl_vlm,
        prev_day_px: m.prev_day_px,
        margin_table_id: u.margin_table_id,
        only_isolated: u.only_isolated,
        is_delisted: u.is_delisted,
    }
}

/// The number of perpetual markets: entries that have both a description and data.
pub open spec fn perp_count(info: PerpetualsInfo) -> int {
    if info.0.universe@.len() <= info.1@.len() {
        info.0.universe@.len() as int
    } else {
        info.1@.len() as int
    }
}

/// The last of the first `n` perpetual entries whose name satisfies `p`, as a
/// market, if any.
pub open spec fn last_perp(info: PerpetualsInfo, n: int, p: spec_fn(Seq<char>) -> bool) -> Option<
    PerpMarketInfo,
> {
    let l = last_where(n, |i: int| p(info.0.universe@[i].name@));
    if l >= 0 {
        Some(perp_market_of(info.0.universe@[l], info.1@[l], l as usize))
    } else {
        None
    }
}

/// The perpetual market named `k` among the first `n` entries: the last one.
pub open spec fn perp_named(info: PerpetualsInfo, n: int, k: Seq<char>) -> Option<PerpMarketInfo> {
    last_perp(info, n, |name: Seq<char>| name == k)
}

/// The perpetual market of base asset `b` among the first `n` entries: the last one.
pub open spec fn perp_of_base(info: PerpetualsInfo, n: int, b: Seq<char>) -> Option<PerpMarketInfo> {
    last_perp(info, n, |name: Seq<char>| base_of(name, true) == b)
}

/// A table of perpetual markets keyed by name: one entry per name, each the
/// market that `lookup` gives, and every name that `lookup` knows present.
pub open spec fn perp_table(t: Seq<PerpMarketInfo>, lookup: spec_fn(Seq<char>) -> Option<PerpMarketInfo>) -> bool {
    &&& forall|a: int, b: int|
        0 <= a < t.len() && 0 <= b < t.len() && #[trigger] t[a].name@ == #[trigger] t[b].name@
            ==> a == b
    &&& forall|j: int| 0 <= j < t.len() ==> lookup(#[trigger] t[j].name@) == Some(t[j])
    &&& forall|k: Seq<char>| #[trigger] lookup(k) is Some ==> exists|j: int| 0 <= j < t.len() && t[j].name@ == k
}

proof fn lemma_perp_named_step(info: PerpetualsInfo, n: int, k: Seq<char>)
    requires
        0 <= n,
    ensures
        perp_named(info, n + 1, k) == if info.0.universe@[n].name@ == k {
            Some(perp_market_of(info.0.universe@[n], info.1@[n], n as usize))
        } else {
            perp_named(info, n, k)
        },
{
}

/// A copy of an optional string.
fn copy_opt(o: &Option<String>) -> (r: Option<String>)
    ensures
        r == *o,
{
    match o {
        Some(s) => Some(s.clone()),
        None => None,
    }
}

impl PerpMarketInfo {
    /// An equal copy.
    pub fn duplicate(&self) -> (r: PerpMarketInfo)
        ensures
            r == *self,
    {
        PerpMarketInfo {
            asset_id: self.asset_id,
            name: self.name.clone(),
            mark_px: self.mark_px.clone(),
            mid_px: copy_opt(&self.mid_px),
            funding: self.funding.clone(),
            max_leverage: self.max_leverage,
            sz_decimals: self.sz_decimals,
            oracle_px: self.oracle_px.clone(),
            open_interest: self.open_interest.clone(),
            day_ntl_vlm: self.day_ntl_vlm.clone(),
            prev_day_px: self.prev_day_px.clone(),
            margin_table_id: self.margin_table_id,
            only_isolated: self.only_isolated,
            is_delisted: self.is_delisted,
        }
    }
}

fn build_perp_market(u: &Universe, m: &PerpetualMetadata, i: usize) -> (r: PerpMarketInfo)
    ensures
        r == perp_market_of(*u, *m, i),
{
    PerpMarketInfo {
        asset_id: i as u32,
        name: u.name.clone(),
        mark_px: m.mark_px.clone(),
        mid_px: copy_opt(&m.mid_px),
        funding: m.funding.clone(),
        max_leverage: u.max_leverage,
        sz_decimals: u.sz_decimals,
        oracle_px: m.oracle_px.clone(),
        open_interest: m.open_interest.clone(),
        day_ntl_vlm: m.day_ntl_vlm.clone(),
        prev_day_px: m.prev_day_px.clone(),
        margin_table_id: u.margin_table_id,
        only_isolated: u.only_isolated,
        is_delisted: u.is_delisted,
    }
}

/// The position of the perpetual market named `k`.
fn find_perp(t: &Vec<PerpMarketInfo>, k: &String) -> (r: Option<usize>)
    ensures
        r matches Some(j) ==> j < t@.len() && t@[j as int].name@ == k@,
        r is None ==> forall|j: int| 0 <= j < t@.len() ==> #[trigger] t@[j].name@ != k@,
{
    let mut j: usize = 0;
    while j < t.len()
        invariant
            j <= t@.len(),
            forall|i: int| 0 <= i < j ==> #[trigger] t@[i].name@ != k@,
        decreases t@.len() - j,
    {
        if t[j].name == *k {
            return Some(j);
        }
        j = j + 1;
    }
    None
}

/// A table of combined markets keyed by base name: one entry per base, each
/// holding the perpetual and spot markets that `perp` and `spot` give, and
/// every base that either knows present.
pub open spec fn unified_table(
    t: Seq<CombinedMarketInfo>,
    perp: spec_fn(Seq<char>) -> Option<PerpMarketInfo>,
    spot: spec_fn(Seq<char>) -> Option<SpotMarketInfo>,
) -> bool {
    &&& forall|a: int, b: int|
        0 <= a < t.len() && 0 <= b < t.len() && #[trigger] t[a].base_name@
            == #[trigger] t[b].base_name@ ==> a == b
    &&& forall|j: int|
        0 <= j < t.len() ==> #[trigger] t[j].perp == perp(t[j].base_name@) && t[j].spot == spot(
            t[j].base_name@,
        ) && (t[j].perp is Some || t[j].spot is Some)
    &&& forall|b: Seq<char>| #[trigger] perp(b) is Some ==> exists|j: int| 0 <= j < t.len() && t[j].base_name@ == b
    &&& forall|b: Seq<char>| #[trigger] spot(b) is Some ==> exists|j: int| 0 <= j < t.len() && t[j].base_name@ == b
}

/// The position of the combined market of base `k`.
fn find_base(t: &Vec<CombinedMarketInfo>, k: &String) -> (r: Option<usize>)
    ensures
        r matches Some(j) ==> j < t@.len() && t@[j as int].base_name@ == k@,
        r is None ==> forall|j: int| 0 <= j < t@.len() ==> #[trigger] t@[j].base_name@ != k@,
{
    let mut j: usize = 0;
    while j < t.len()
        invariant
            j <= t@.len(),
            forall|i: int| 0 <= i < j ==> #[trigger] t@[i].base_name@ != k@,
        decreases t@.len() - j,
    {
        if t[j].base_name == *k {
            return Some(j);
        }
        j = j + 1;
    }
    None
}

/// Sets the perpetual market of base `base`, adding its entry where missing;
/// returns the position of the entry that was there.
fn put_perp(t: &mut Vec<CombinedMarketInfo>, base: String, m: PerpMarketInfo) -> (r: Option<usize>)
    ensures
        r matches Some(j) ==> j < old(t)@.len() && old(t)@[j as int].base_name@ == base@
            && final(t)@ == old(t)@.update(
            j as int,
            CombinedMarketInfo {
                base_name: old(t)@[j as int].base_name,
                perp: Some(m),
                spot: old(t)@[j as int].spot,
            },
        ),
        r is None ==> (forall|j: int| 0 <= j < old(t)@.len() ==> #[trigger] old(t)@[j].base_name@ != base@)
            && final(t)@ == old(t)@.push(CombinedMarketInfo { base_name: base, perp: Some(m), spot: None }),
{
    match find_base(t, &base) {
        Some(j) => {
            let mut e = CombinedMarketInfo { base_name: String::new(), perp: None, spot: None };
            t.set_and_swap(j, &mut e);
            e.perp = Some(m);
            t.set(j, e);
            Some(j)
        },
        None => {
            t.push(CombinedMarketInfo { base_name: base, perp: Some(m), spot: None });
            None
        },
    }
}

/// Sets the perpetual market named like `m`, adding it where missing.
fn upsert_perp(t: &mut Vec<PerpMarketInfo>, m: PerpMarketInfo) -> (r: Option<usize>)
    ensures
        r matches Some(j) ==> j < old(t)@.len() && old(t)@[j as int].name@ == m.name@
            && final(t)@ == old(t)@.update(j as int, m),
        r is None ==> (forall|j: int| 0 <= j < old(t)@.len() ==> #[trigger] old(t)@[j].name@ != m.name@)
            && final(t)@ == old(t)@.push(m),
{
    match find_perp(t, &m.name) {
        Some(j) => {
            t.set(j, m);
            Some(j)
        },
        None => {
            t.push(m);
            None
        },
    }
}

/// Adds every perpetual market: by name to `perp_markets`, and as the
/// perpetual side of its base asset to `unified_markets`. Where a name or a
/// base repeats, the later entry wins.
fn process_perp_markets(
    perp_info: &PerpetualsInfo,
    perp_markets: &mut Vec<PerpMarketInfo>,
    unified_markets: &mut Vec<CombinedMarketInfo>,
)
    requires
        old(perp_markets)@.len() == 0,
        old(unified_markets)@.len() == 0,
    ensures
        perp_table(final(perp_markets)@, |k: Seq<char>| perp_named(*perp_info, perp_count(*perp_info), k)),
        unified_table(
            final(unified_markets)@,
            |b: Seq<char>| perp_of_base(*perp_info, perp_count(*perp_info), b),
            |b: Seq<char>| None,
        ),
{
    let us = &perp_info.0.universe;
    let ms = &perp_info.1;
    let n = if us.len() <= ms.len() {
        us.len()
    } else {
        ms.len()
    };
    let mut i: usize = 0;
    while i < n
        invariant
            i <= n,
            n == perp_count(*perp_info),
            us == &perp_info.0.universe,
            ms == &perp_info.1,
            n <= us@.len(),
            n <= ms@.len(),
            perp_table(perp_markets@, |k: Seq<char>| perp_named(*perp_info, i as int, k)),
            unified_table(
                unified_markets@,
                |b: Seq<char>| perp_of_base(*perp_info, i as int, b),
                |b: Seq<char>| None,
            ),
        decreases n - i,
    {
        let m = build_perp_market(&us[i], &ms[i], i);
        let base = extract_base_name(us[i].name.as_str(), true);
        let ghost old_pm = perp_markets@;
        let ghost old_um = unified_markets@;
        let ghost k0 = us@[i as int].name@;
        let ghost b0 = base@;
        let m2 = m.duplicate();
        let rp = upsert_perp(perp_markets, m2);
        let ru = put_perp(unified_markets, base, m);
        proof {
            let pn_old = |k: Seq<char>| perp_named(*perp_info, i as int, k);
            let pn_new = |k: Seq<char>| perp_named(*perp_info, i + 1, k);
            let pb_old = |b: Seq<char>| perp_of_base(*perp_info, i as int, b);
            let pb_new = |b: Seq<char>| perp_of_base(*perp_info, i + 1, b);
            assert forall|k: Seq<char>| #[trigger] pn_new(k) == (if k == k0 { Some(m) } else { pn_old(k) }) by {
                lemma_perp_named_step(*perp_info, i as int, k);
            }
            assert forall|b: Seq<char>| #[trigger] pb_new(b) == (if b == b0 { Some(m) } else { pb_old(b) }) by {
                lemma_perp_base_step(*perp_info, i as int, b);
            }
            let t = perp_markets@;
            assert(m.name@ == k0);
            assert forall|a: int, c: int|
                0 <= a < t.len() && 0 <= c < t.len() && #[trigger] t[a].name@ == #[trigger] t[c].name@
                implies a == c by {
                if rp is None {
                    if a < old_pm.len() && c < old_pm.len() {
                        assert(old_pm[a].name@ == old_pm[c].name@);
                    } else if a < old_pm.len() {
                        assert(old_pm[a].name@ != k0);
                    } else if c < old_pm.len() {
                        assert(old_pm[c].name@ != k0);
                    }
                } else {
                    let jj = rp->Some_0 as int;
                    assert(old_pm[a].name@ == t[a].name@);
                    assert(old_pm[c].name@ == t[c].name@);
                }
            }
            assert forall|j: int| 0 <= j < t.len() implies pn_new(#[trigger] t[j].name@) == Some(t[j]) by {
                if rp is None {
                    if j < old_pm.len() {
                        assert(old_pm[j].name@ != k0);
                        assert(pn_old(old_pm[j].name@) == Some(old_pm[j]));
                    }
                } else {
                    let jj = rp->Some_0 as int;
                    if j != jj {
                        assert(old_pm[j].name@ == old_pm[jj].name@ ==> j == jj);
                        assert(pn_old(old_pm[j].name@) == Some(old_pm[j]));
                    }
                }
            }
            assert forall|k: Seq<char>| #[trigger] pn_new(k) is Some implies exists|j: int|
                0 <= j < t.len() && t[j].name@ == k by {
                if k == k0 {
                    if rp is None {
                        assert(t[old_pm.len() as int].name@ == k);
                    } else {
                        assert(t[rp->Some_0 as int].name@ == k);
                    }
                } else {
                    assert(pn_old(k) is Some);
                    let q = choose|q: int| 0 <= q < old_pm.len() && old_pm[q].name@ == k;
                    assert(t[q].name@ == k);
                }
            }
            let u = unified_markets@;
            let none_spot = |b: Seq<char>| None::<SpotMarketInfo>;
            assert(b0 == base_of(k0, true));
            assert forall|a: int, c: int|
                0 <= a < u.len() && 0 <= c < u.len() && #[trigger] u[a].base_name@
                    == #[trigger] u[c].base_name@ implies a == c by {
                if ru is None {
                    if a < old_um.len() && c < old_um.len() {
                        assert(old_um[a].base_name@ == old_um[c].base_name@);
                    } else if a < old_um.len() {
                        assert(old_um[a].base_name@ != b0);
                    } else if c < old_um.len() {
                        assert(old_um[c].base_name@ != b0);
                    }
                } else {
                    assert(old_um[a].base_name@ == u[a].base_name@);
                    assert(old_um[c].base_name@ == u[c].base_name@);
                }
            }
            assert forall|j: int| 0 <= j < u.len() implies #[trigger] u[j].perp == pb_new(
                u[j].base_name@,
            ) && u[j].spot == none_spot(u[j].base_name@) && (u[j].perp is Some || u[j].spot is Some) by {
                if ru is None {
                    if j < old_um.len() {
                        assert(old_um[j].base_name@ != b0);
                        assert(old_um[j].perp == pb_old(old_um[j].base_name@));
                    }
                } else {
                    let jj = ru->Some_0 as int;
                    if j != jj {
                        assert(old_um[j].base_name@ == old_um[jj].base_name@ ==> j == jj);
                        assert(old_um[j].perp == pb_old(old_um[j].base_name@));
                    } else {
                        assert(old_um[j].spot == none_spot(old_um[j].base_name@));
                    }
                }
            }
            assert forall|b: Seq<char>| #[trigger] pb_new(b) is Some implies exists|j: int|
                0 <= j < u.len() && u[j].base_name@ == b by {
                if b == b0 {
                    if ru is None {
                        assert(u[old_um.len() as int].base_name@ == b);
                    } else {
                        assert(u[ru->Some_0 as int].base_name@ == b);
                    }
                } else {
                    assert(pb_old(b) is Some);
                    let q = choose|q: int| 0 <= q < old_um.len() && old_um[q].base_name@ == b;
                    assert(u[q].base_name@ == b);
                }
            }
            assert forall|b: Seq<char>| #[trigger] none_spot(b) is Some implies exists|j: int|
                0 <= j < u.len() && u[j].base_name@ == b by {}
        }
        i = i + 1;
    }
}

proof fn lemma_perp_base_step(info: PerpetualsInfo, n: int, b: Seq<char>)
    requires
        0 <= n,
    ensures
        perp_of_base(info, n + 1, b) == if base_of(info.0.universe@[n].name@, true) == b {
            Some(perp_market_of(info.0.universe@[n], info.1@[n], n as usize))
        } else {
            perp_of_base(info, n, b)
        },
{
}

/// Whether spot pair `u` trades token `index` against token 0.
pub open spec fn pair_of_token(u: SpotUniverse, index: i64) -> bool {
    u.tokens@.len() >= 2 && u.tokens@[1] == 0 && u.tokens@[0] == index
}

/// The last spot pair that trades token `index` against token 0, or -1.
pub open spec fn pair_for(us: Seq<SpotUniverse>, index: i64) -> int {
    last_where(us.len() as int, |j: int| pair_of_token(us[j], index))
}

/// The last market data entry of coin `coin`, or -1.
pub open spec fn data_for(ds: Seq<MarketData>, coin: Seq<char>) -> int {
    last_where(ds.len() as int, |j: int| ds[j].coin@ == coin)
}

/// The spot market built from token `t`, its pair `u` and the pair's data `d`.
pub open spec fn spot_market_of(t: Token, u: SpotUniverse, d: MarketData) -> SpotMarketInfo {
    SpotMarketInfo {
        asset_id: (u.index as u32).wrapping_add(10000u32),
        name: t.name,
        mark_px: d.mark_px,
        mid_px: d.mid_px,
        circulating_supply: d.circulating_supply,
        total_supply: d.total_supply,
        sz_decimals: t.sz_decimals,
        wei_decimals: t.wei_decimals,
        token_id: t.token_id,
        day_ntl_vlm: d.day_ntl_vlm,
        prev_day_px: d.prev_day_px,
        deployer_trading_fee_share: t.deployer_trading_fee_share,
        is_canonical: t.is_canonical,
    }
}

/// The spot market of token `t`: present where a pair trades it against token
/// 0 and that pair has market data.
pub open spec fn spot_of_token(si: SpotResponse, t: Token) -> Option<SpotMarketInfo> {
    let p = pair_for(si.0.universe@, t.index);
    if p < 0 {
        None
    } else {
        let d = data_for(si.1@, si.0.universe@[p].name@);
        if d < 0 {
            None
        } else {
            Some(spot_market_of(t, si.0.universe@[p], si.1@[d]))
        }
    }
}

/// The spot market of the last of the first `k` tokens whose name satisfies
/// `p` and which has a spot market, if any.
pub open spec fn last_spot(si: SpotResponse, k: int, p: spec_fn(Seq<char>) -> bool) -> Option<
    SpotMarketInfo,
> {
    let l = last_where(
        k,
        |j: int| p(si.0.tokens@[j].name@) && spot_of_token(si, si.0.tokens@[j]) is Some,
    );
    if l >= 0 {
        spot_of_token(si, si.0.tokens@[l])
    } else {
        None
    }
}

/// The spot market of the token named `n` among the first `k` tokens.
pub open spec fn spot_named(si: SpotResponse, k: int, n: Seq<char>) -> Option<SpotMarketInfo> {
    last_spot(si, k, |name: Seq<char>| name == n)
}

/// The spot market of base asset `b` among the first `k` tokens.
pub open spec fn spot_of_base(si: SpotResponse, k: int, b: Seq<char>) -> Option<SpotMarketInfo> {
    last_spot(si, k, |name: Seq<char>| base_of(name, false) == b)
}

/// A table of spot markets keyed by token name, as `perp_table` is for
/// perpetual markets.
pub open spec fn spot_table(t: Seq<SpotMarketInfo>, lookup: spec_fn(Seq<char>) -> Option<SpotMarketInfo>) -> bool {
    &&& forall|a: int, b: int|
        0 <= a < t.len() && 0 <= b < t.len() && #[trigger] t[a].name@ == #[trigger] t[b].name@
            ==> a == b
    &&& forall|j: int| 0 <= j < t.len() ==> lookup(#[trigger] t[j].name@) == Some(t[j])
    &&& forall|k: Seq<char>| #[trigger] lookup(k) is Some ==> exists|j: int| 0 <= j < t.len() && t[j].name@ == k
}

/// The position of the last pair that trades token `index` against token 0.
fn find_pair(us: &Vec<SpotUniverse>, index: i64) -> (r: Option<usize>)
    ensures
        r is None <==> pair_for(us@, index) < 0,
        r matches Some(p) ==> p == pair_for(us@, index) && p < us@.len(),
{
    let ghost pred = |j: int| pair_of_token(us@[j], index);
    let mut i = us.len();
    while i > 0
        invariant
            i <= us@.len(),
            last_where(i as int, pred) == pair_for(us@, index),
            pred == (|j: int| pair_of_token(us@[j], index)),
        decreases i,
    {
        let u = &us[i - 1];
        if u.tokens.len() >= 2 && u.tokens[1] == 0 && u.tokens[0] == index {
            assert(pred(i - 1));
            return Some(i - 1);
        }
        assert(!pred(i - 1));
        i = i - 1;
    }
    None
}

/// The position of the last market data entry of coin `coin`.
fn find_data(ds: &Vec<MarketData>, coin: &String) -> (r: Option<usize>)
    ensures
        r is None <==> data_for(ds@, coin@) < 0,
        r matches Some(d) ==> d == data_for(ds@, coin@) && d < ds@.len(),
{
    let ghost pred = |j: int| ds@[j].coin@ == coin@;
    let mut i = ds.len();
    while i > 0
        invariant
            i <= ds@.len(),
            last_where(i as int, pred) == data_for(ds@, coin@),
            pred == (|j: int| ds@[j].coin@ == coin@),
        decreases i,
    {
        if ds[i - 1].coin == *coin {
            assert(pred(i - 1));
            return Some(i - 1);
        }
        assert(!pred(i - 1));
        i = i - 1;
    }
    None
}

impl SpotMarketInfo {
    /// An equal copy.
    pub fn duplicate(&self) -> (r: SpotMarketInfo)
        ensures
            r == *self,
    {
        SpotMarketInfo {
            asset_id: self.asset_id,
            name: self.name.clone(),
            mark_px: self.mark_px.clone(),
            mid_px: copy_opt(&self.mid_px),
            circulating_supply: self.circulating_supply.clone(),
            total_supply: self.total_supply.clone(),
            sz_decimals: self.sz_decimals,
            wei_decimals: self.wei_decimals,
            token_id: self.token_id.clone(),
            day_ntl_vlm: self.day_ntl_vlm.clone(),
            prev_day_px: self.prev_day_px.clone(),
            deployer_trading_fee_share: self.deployer_trading_fee_share.clone(),
            is_canonical: self.is_canonical,
        }
    }
}

fn build_spot_market(t: &Token, u: &SpotUniverse, d: &MarketData) -> (r: SpotMarketInfo)
    ensures
        r == spot_market_of(*t, *u, *d),
{
    SpotMarketInfo {
        asset_id: (u.index as u32).wrapping_add(10000u32),
        name: t.name.clone(),
        mark_px: d.mark_px.clone(),
        mid_px: copy_opt(&d.mid_px),
        circulating_supply: d.circulating_supply.clone(),
        total_supply: d.total_supply.clone(),
        sz_decimals: t.sz_decimals,
        wei_decimals: t.wei_decimals,
        token_id: t.token_id.clone(),
        day_ntl_vlm: d.day_ntl_vlm.clone(),
        prev_day_px: d.prev_day_px.clone(),
        deployer_trading_fee_share: t.deployer_trading_fee_share.clone(),
        is_canonical: t.is_canonical,
    }
}

/// The position of the spot market named `k`.
fn find_spot(t: &Vec<SpotMarketInfo>, k: &String) -> (r: Option<usize>)
    ensures
        r matches Some(j) ==> j < t@.len() && t@[j as int].name@ == k@,
        r is None ==> forall|j: int| 0 <= j < t@.len() ==> #[trigger] t@[j].name@ != k@,
{
    let mut j: usize = 0;
    while j < t.len()
        invariant
            j <= t@.len(),
            forall|i: int| 0 <= i < j ==> #[trigger] t@[i].name@ != k@,
        decreases t@.len() - j,
    {
        if t[j].name == *k {
            return Some(j);
        }
        j = j + 1;
    }
    None
}

/// Sets the spot market named like `m`, adding it where missing.
fn upsert_spot(t: &mut Vec<SpotMarketInfo>, m: SpotMarketInfo) -> (r: Option<usize>)
    ensures
        r matches Some(j) ==> j < old(t)@.len() && old(t)@[j as int].name@ == m.name@
            && final(t)@ == old(t)@.update(j as int, m),
        r is None ==> (forall|j: int| 0 <= j < old(t)@.len() ==> #[trigger] old(t)@[j].name@ != m.name@)
            && final(t)@ == old(t)@.push(m),
{
    match find_spot(t, &m.name) {
        Some(j) => {
            t.set(j, m);
            Some(j)
        },
        None => {
            t.push(m);
            None
        },
    }
}

/// Sets the spot market of base `base`, adding its entry where missing;
/// returns the position of the entry that was there.
fn put_spot(t: &mut Vec<CombinedMarketInfo>, base: String, m: SpotMarketInfo) -> (r: Option<usize>)
    ensures
        r matches Some(j) ==> j < old(t)@.len() && old(t)@[j as int].base_name@ == base@
            && final(t)@ == old(t)@.update(
            j as int,
            CombinedMarketInfo {
                base_name: old(t)@[j as int].base_name,
                perp: old(t)@[j as int].perp,
                spot: Some(m),
            },
        ),
        r is None ==> (forall|j: int| 0 <= j < old(t)@.len() ==> #[trigger] old(t)@[j].base_name@ != base@)
            && final(t)@ == old(t)@.push(CombinedMarketInfo { base_name: base, perp: None, spot: Some(m) }),
{
    match find_base(t, &base) {
        Some(j) => {
            let mut e = CombinedMarketInfo { base_name: String::new(), perp: None, spot: None };
            t.set_and_swap(j, &mut e);
            e.spot = Some(m);
            t.set(j, e);
            Some(j)
        },
        None => {
            t.push(CombinedMarketInfo { base_name: base, perp: None, spot: Some(m) });
            None
        },
    }
}

proof fn lemma_spot_step(si: SpotResponse, k: int, p: spec_fn(Seq<char>) -> bool)
    requires
        0 <= k,
    ensures
        last_spot(si, k + 1, p) == if p(si.0.tokens@[k].name@) && spot_of_token(
            si,
            si.0.tokens@[k],
        ) is Some {
            spot_of_token(si, si.0.tokens@[k])
        } else {
            last_spot(si, k, p)
        },
{
}

/// Adds the spot market of every token that a pair trades against token 0
/// and that has market data: by token name to `spot_markets`, and as the spot
/// side of its base asset to `unified_markets`. Where a name or a base
/// repeats, the later token wins.
fn process_spot_markets(
    spot_info: &SpotResponse,
    spot_markets: &mut Vec<SpotMarketInfo>,
    unified_markets: &mut Vec<CombinedMarketInfo>,
    Ghost(pb): Ghost<spec_fn(Seq<char>) -> Option<PerpMarketInfo>>,
)
    requires
        old(spot_markets)@.len() == 0,
        unified_table(old(unified_markets)@, pb, |b: Seq<char>| None),
    ensures
        spot_table(
            final(spot_markets)@,
            |n: Seq<char>| spot_named(*spot_info, spot_info.0.tokens@.len() as int, n),
        ),
        unified_table(
            final(unified_markets)@,
            pb,
            |b: Seq<char>| spot_of_base(*spot_info, spot_info.0.tokens@.len() as int, b),
        ),
{
    let tokens = &spot_info.0.tokens;
    let us = &spot_info.0.universe;
    let ds = &spot_info.1;
    let ghost si = *spot_info;
    let mut k: usize = 0;
    assert(unified_markets@ == old(unified_markets)@);
    proof {
        let s0 = |b: Seq<char>| spot_of_base(si, 0, b);
        let none = |b: Seq<char>| None::<SpotMarketInfo>;
        assert(s0 =~= none);
    }
    while k < tokens.len()
        invariant
            k <= tokens@.len(),
            si == *spot_info,
            tokens == &spot_info.0.tokens,
            us == &spot_info.0.universe,
            ds == &spot_info.1,
            spot_table(spot_markets@, |n: Seq<char>| spot_named(si, k as int, n)),
            unified_table(unified_markets@, pb, |b: Seq<char>| spot_of_base(si, k as int, b)),
        decreases tokens@.len() - k,
    {
        let t = &tokens[k];
        let ghost old_sm = spot_markets@;
        let ghost old_um = unified_markets@;
        let ghost sn_old = |n: Seq<char>| spot_named(si, k as int, n);
        let ghost sn_new = |n: Seq<char>| spot_named(si, k + 1, n);
        let ghost sb_old = |b: Seq<char>| spot_of_base(si, k as int, b);
        let ghost sb_new = |b: Seq<char>| spot_of_base(si, k + 1, b);
        let ghost found = spot_of_token(si, tokens@[k as int]);
        let mut built: Option<SpotMarketInfo> = None;
        match find_pair(us, t.index) {
            Some(p) => match find_data(ds, &us[p].name) {
                Some(d) => {
                    built = Some(build_spot_market(t, &us[p], &ds[d]));
                },
                None => {},
            },
            None => {},
        }
        assert(built == found);
        match built {
            None => {
                proof {
                    assert forall|n: Seq<char>| #[trigger] sn_new(n) == sn_old(n) by {
                        lemma_spot_step(si, k as int, |name: Seq<char>| name == n);
                    }
                    assert forall|b: Seq<char>| #[trigger] sb_new(b) == sb_old(b) by {
                        lemma_spot_step(si, k as int, |name: Seq<char>| base_of(name, false) == b);
                    }
                    assert(sn_new =~= sn_old);
                    assert(sb_new =~= sb_old);
                }
            },
            Some(m) => {
                let base = extract_base_name(t.name.as_str(), false);
                let ghost k0 = tokens@[k as int].name@;
                let ghost b0 = base@;
                let m2 = m.duplicate();
                let rs = upsert_spot(spot_markets, m2);
                let ru = put_spot(unified_markets, base, m);
                proof {
                    assert forall|n: Seq<char>| #[trigger] sn_new(n) == (if n == k0 {
                        Some(m)
                    } else {
                        sn_old(n)
                    }) by {
                        lemma_spot_step(si, k as int, |name: Seq<char>| name == n);
                    }
                    assert forall|b: Seq<char>| #[trigger] sb_new(b) == (if b == b0 {
                        Some(m)
                    } else {
                        sb_old(b)
                    }) by {
                        lemma_spot_step(si, k as int, |name: Seq<char>| base_of(name, false) == b);
                    }
                    let t2 = spot_markets@;
                    assert(m.name@ == k0);
                    assert forall|a: int, c: int|
                        0 <= a < t2.len() && 0 <= c < t2.len() && #[trigger] t2[a].name@
                            == #[trigger] t2[c].name@ implies a == c by {
                        if rs is None {
                            if a < old_sm.len() && c < old_sm.len() {
                                assert(old_sm[a].name@ == old_sm[c].name@);
                            } else if a < old_sm.len() {
                                assert(old_sm[a].name@ != k0);
                            } else if c < old_sm.len() {
                                assert(old_sm[c].name@ != k0);
                            }
                        } else {
                            assert(old_sm[a].name@ == t2[a].name@);
                            assert(old_sm[c].name@ == t2[c].name@);
                        }
                    }
                    assert forall|j: int| 0 <= j < t2.len() implies sn_new(#[trigger] t2[j].name@)
                        == Some(t2[j]) by {
                        if rs is None {
                            if j < old_sm.len() {
                                assert(old_sm[j].name@ != k0);
                                assert(sn_old(old_sm[j].name@) == Some(old_sm[j]));
                            }
                        } else {
                            let jj = rs->Some_0 as int;
                            if j != jj {
                                assert(old_sm[j].name@ == old_sm[jj].name@ ==> j == jj);
                                assert(sn_old(old_sm[j].name@) == Some(old_sm[j]));
                            }
                        }
                    }
                    assert forall|n: Seq<char>| #[trigger] sn_new(n) is Some implies exists|j: int|
                        0 <= j < t2.len() && t2[j].name@ == n by {
                        if n == k0 {
                            if rs is None {
                                assert(t2[old_sm.len() as int].name@ == n);
                            } else {
                                assert(t2[rs->Some_0 as int].name@ == n);
                            }
                        } else {
                            assert(sn_old(n) is Some);
                            let q = choose|q: int| 0 <= q < old_sm.len() && old_sm[q].name@ == n;
                            assert(t2[q].name@ == n);
                        }
                    }
                    let u = unified_markets@;
                    assert(b0 == base_of(k0, false));
                    assert forall|a: int, c: int|
                        0 <= a < u.len() && 0 <= c < u.len() && #[trigger] u[a].base_name@
                            == #[trigger] u[c].base_name@ implies a == c by {
                        if ru is None {
                            if a < old_um.len() && c < old_um.len() {
                                assert(old_um[a].base_name@ == old_um[c].base_name@);
                            } else if a < old_um.len() {
                                assert(old_um[a].base_name@ != b0);
                            } else if c < old_um.len() {
                                assert(old_um[c].base_name@ != b0);
                            }
                        } else {
                            assert(old_um[a].base_name@ == u[a].base_name@);
                            assert(old_um[c].base_name@ == u[c].base_name@);
                        }
                    }
                    assert forall|j: int| 0 <= j < u.len() implies #[trigger] u[j].perp == pb(
                        u[j].base_name@,
                    ) && u[j].spot == sb_new(u[j].base_name@) && (u[j].perp is Some
                        || u[j].spot is Some) by {
                        if ru is None {
                            if j < old_um.len() {
                                assert(old_um[j].base_name@ != b0);
                                assert(old_um[j].perp == pb(old_um[j].base_name@));
                            } else {
                                if pb(b0) is Some {
                                    let q = choose|q: int|
                                        0 <= q < old_um.len() && old_um[q].base_name@ == b0;
                                    assert(old_um[q].base_name@ != b0);
                                }
                            }
                        } else {
                            let jj = ru->Some_0 as int;
                            if j != jj {
                                assert(old_um[j].base_name@ == old_um[jj].base_name@ ==> j == jj);
                                assert(old_um[j].perp == pb(old_um[j].base_name@));
                            } else {
                                assert(old_um[j].perp == pb(old_um[j].base_name@));
                            }
                        }
                    }
                    assert forall|b: Seq<char>| #[trigger] pb(b) is Some implies exists|j: int|
                        0 <= j < u.len() && u[j].base_name@ == b by {
                        let q = choose|q: int| 0 <= q < old_um.len() && old_um[q].base_name@ == b;
                        assert(u[q].base_name@ == b);
                    }
                    assert forall|b: Seq<char>| #[trigger] sb_new(b) is Some implies exists|j: int|
                        0 <= j < u.len() && u[j].base_name@ == b by {
                        if b == b0 {
                            if ru is None {
                                assert(u[old_um.len() as int].base_name@ == b);
                            } else {
                                assert(u[ru->Some_0 as int].base_name@ == b);
                            }
                        } else {
                            assert(sb_old(b) is Some);
                            let q = choose|q: int| 0 <= q < old_um.len() && old_um[q].base_name@ == b;
                            assert(u[q].base_name@ == b);
                        }
                    }
                }
            },
        }
        k = k + 1;
    }
}

/// Every perpetual and spot market, by name and by base asset.
pub fn create_unified_market_info(perp_info: PerpetualsInfo, spot_info: SpotResponse) -> (r:
    UnifiedMarketInfo)
    ensures
        perp_table(r.perp_markets@, |k: Seq<char>| perp_named(perp_info, perp_count(perp_info), k)),
        spot_table(
            r.spot_markets@,
            |n: Seq<char>| spot_named(spot_info, spot_info.0.tokens@.len() as int, n),
        ),
        unified_table(
            r.unified_markets@,
            |b: Seq<char>| perp_of_base(perp_info, perp_count(perp_info), b),
            |b: Seq<char>| spot_of_base(spot_info, spot_info.0.tokens@.len() as int, b),
        ),
{
    let mut perp_markets: Vec<PerpMarketInfo> = Vec::new();
    let mut spot_markets: Vec<SpotMarketInfo> = Vec::new();
    let mut unified_markets: Vec<CombinedMarketInfo> = Vec::new();
    process_perp_markets(&perp_info, &mut perp_markets, &mut unified_markets);
    process_spot_markets(
        &spot_info,
        &mut spot_markets,
        &mut unified_markets,
        Ghost(|b: Seq<char>| perp_of_base(perp_info, perp_count(perp_info), b)),
    );
    UnifiedMarketInfo { perp_markets, spot_markets, unified_markets }
}

/// The lower-case form of a string.
pub uninterp spec fn lower_of(s: Seq<char>) -> Seq<char>;

/// Relies on `str::to_lowercase`: the lower-case mapping of the characters,
/// which depends on the characters alone.
#[verifier::external_body]
fn to_lowercase(s: &str) -> (r: String)
    ensures
        r@ == lower_of(s@),
{
    s.to_lowercase()
}

/// The first index below `n` whose entry satisfies `p`, or -1 where none does.
pub open spec fn first_where(n: int, p: spec_fn(int) -> bool) -> int
    decreases n,
{
    if n <= 0 {
        -1
    } else {
        let r = first_where(n - 1, p);
        if r >= 0 {
            r
        } else if p(n - 1) {
            n - 1
        } else {
            -1
        }
    }
}

proof fn lemma_first_where_stable(m: int, n: int, p: spec_fn(int) -> bool)
    requires
        0 <= m <= n,
        first_where(m, p) >= 0,
    ensures
        first_where(n, p) == first_where(m, p),
    decreases n - m,
{
    if n > m {
        lemma_first_where_stable(m, n - 1, p);
    }
}

/// The combined market found under `name`: the first entry whose base name is
/// `name`, failing that the first whose base name equals `name` once both are
/// lower-cased.
pub open spec fn market_found(t: Seq<CombinedMarketInfo>, name: Seq<char>) -> Option<
    CombinedMarketInfo,
> {
    let e = first_where(t.len() as int, |j: int| t[j].base_name@ == name);
    if e >= 0 {
        Some(t[e])
    } else {
        let l = first_where(t.len() as int, |j: int| lower_of(t[j].base_name@) == lower_of(name));
        if l >= 0 {
            Some(t[l])
        } else {
            None
        }
    }
}

/// The position of the first entry whose base name is `name`.
fn scan_exact(t: &Vec<CombinedMarketInfo>, name: &String) -> (r: Option<usize>)
    ensures
        r is None <==> first_where(t@.len() as int, |j: int| t@[j].base_name@ == name@) < 0,
        r matches Some(j) ==> j == first_where(t@.len() as int, |j: int| t@[j].base_name@ == name@)
            && j < t@.len(),
{
    let ghost p = |j: int| t@[j].base_name@ == name@;
    let mut j: usize = 0;
    while j < t.len()
        invariant
            j <= t@.len(),
            p == (|j: int| t@[j].base_name@ == name@),
            first_where(j as int, p) == -1,
        decreases t@.len() - j,
    {
        if t[j].base_name == *name {
            proof {
                assert(first_where(j + 1, p) == j);
                lemma_first_where_stable(j + 1, t@.len() as int, p);
            }
            return Some(j);
        }
        j = j + 1;
    }
    None
}

/// The combined market of base asset `name`; failing an exact match, the
/// first whose base name equals `name` once both are lower-cased.
pub fn find_market_by_name<'a>(unified_info: &'a UnifiedMarketInfo, name: &str) -> (r: Option<
    &'a CombinedMarketInfo,
>)
    ensures
        r is None <==> market_found(unified_info.unified_markets@, name@) is None,
        r matches Some(e) ==> market_found(unified_info.unified_markets@, name@) == Some(*e),
{
    let t = &unified_info.unified_markets;
    let key = name.to_owned();
    if let Some(j) = scan_exact(t, &key) {
        return Some(&t[j]);
    }
    let name_lower = to_lowercase(name);
    let ghost p = |j: int| lower_of(t@[j].base_name@) == lower_of(name@);
    let mut j: usize = 0;
    while j < t.len()
        invariant
            j <= t@.len(),
            name_lower@ == lower_of(name@),
            t == &unified_info.unified_markets,
            p == (|j: int| lower_of(t@[j].base_name@) == lower_of(name@)),
            first_where(j as int, p) == -1,
            first_where(t@.len() as int, |j: int| t@[j].base_name@ == name@) < 0,
        decreases t@.len() - j,
    {
        let lowered = to_lowercase(t[j].base_name.as_str());
        if lowered == name_lower {
            proof {
                assert(first_where(j + 1, p) == j);
                lemma_first_where_stable(j + 1, t@.len() as int, p);
                let q = |i: int| lower_of(unified_info.unified_markets@[i].base_name@) == lower_of(
                    name@,
                );
                assert(p =~= q);
            }
            return Some(&t[j]);
        }
        j = j + 1;
    }
    proof {
        let q = |i: int| lower_of(unified_info.unified_markets@[i].base_name@) == lower_of(name@);
        assert(p =~= q);
    }
    None
}

/// The asset id of one side of a combined market.
pub open spec fn asset_of(e: CombinedMarketInfo, is_perp: bool) -> Option<u32> {
    if is_perp {
        match e.perp {
            Some(p) => Some(p.asset_id),
            None => None,
        }
    } else {
        match e.spot {
            Some(s) => Some(s.asset_id),
            None => None,
        }
    }
}

/// The asset id of the perpetual or spot market of base asset `name`, found
/// as `find_market_by_name` finds it.
pub fn get_asset_id(unified_info: &UnifiedMarketInfo, name: &str, is_perp: bool) -> (r: Option<u32>)
    ensures
        r == match market_found(unified_info.unified_markets@, name@) {
            Some(e) => asset_of(e, is_perp),
            None => None,
        },
{
    match find_market_by_name(unified_info, name) {
        Some(market) => {
            if is_perp {
                match &market.perp {
                    Some(p) => Some(p.asset_id),
                    None => None,
                }
            } else {
                match &market.spot {
                    Some(s) => Some(s.asset_id),
                    None => None,
                }
            }
        },
        None => None,
    }
}

} // verus!

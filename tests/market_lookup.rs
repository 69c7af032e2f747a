use hyperqit::{
    create_unified_market_info, extract_base_name, find_market_by_name, get_asset_id,
    MarketData, PerpetualMetadata, SpotInfo, SpotResponse, SpotUniverse, Token, Universe,
    UniverseInfo,
};

fn universe(name: &str) -> Universe {
    Universe {
        name: name.to_string(),
        sz_decimals: 3,
        max_leverage: 50,
        margin_table_id: 1,
        only_isolated: None,
        is_delisted: None,
    }
}

fn meta(px: &str) -> PerpetualMetadata {
    PerpetualMetadata {
        day_ntl_vlm: "0".to_string(),
        funding: "0.0001".to_string(),
        impact_pxs: None,
        mark_px: px.to_string(),
        mid_px: Some(px.to_string()),
        open_interest: "0".to_string(),
        oracle_px: px.to_string(),
        premium: None,
        prev_day_px: px.to_string(),
        day_base_vlm: "0".to_string(),
    }
}

fn token(name: &str, index: i64) -> Token {
    Token {
        name: name.to_string(),
        sz_decimals: 2,
        wei_decimals: 8,
        index,
        token_id: format!("0x{}", index),
        is_canonical: true,
        full_name: None,
        deployer_trading_fee_share: "0".to_string(),
    }
}

fn pair(name: &str, tokens: Vec<i64>, index: i64) -> SpotUniverse {
    SpotUniverse { tokens, name: name.to_string(), index, is_canonical: true }
}

fn data(coin: &str, px: &str) -> MarketData {
    MarketData {
        prev_day_px: px.to_string(),
        day_ntl_vlm: "0".to_string(),
        mark_px: px.to_string(),
        mid_px: None,
        circulating_supply: "1".to_string(),
        coin: coin.to_string(),
        total_supply: "1".to_string(),
        day_base_vlm: "0".to_string(),
    }
}

fn sample() -> hyperqit::UnifiedMarketInfo {
    let perps = (
        UniverseInfo { universe: vec![universe("BTC"), universe("ETH"), universe("SOL")] },
        vec![meta("60000"), meta("3000")],
    );
    let spot = SpotResponse(
        SpotInfo {
            universe: vec![
                pair("PURR/USDC", vec![1, 0], 0),
                pair("@1", vec![2, 0], 1),
                pair("@2", vec![0, 3], 2),
            ],
            tokens: vec![token("USDC", 0), token("PURR", 1), token("ETH", 2), token("HYPE", 3)],
        },
        vec![data("PURR/USDC", "0.2"), data("@1", "3001")],
    );
    create_unified_market_info(perps, spot)
}

#[test]
fn base_names() {
    assert_eq!(extract_base_name("BTC-PERP", true), "BTC");
    assert_eq!(extract_base_name("PURR/USDC", false), "PURR");
    assert_eq!(extract_base_name("PURR/USDC", true), "PURR/USDC");
    assert_eq!(extract_base_name("", true), "");
}

#[test]
fn perp_markets_follow_universe_order() {
    let info = sample();
    assert_eq!(info.perp_markets.len(), 2);
    assert_eq!(get_asset_id(&info, "BTC", true), Some(0));
    assert_eq!(get_asset_id(&info, "ETH", true), Some(1));
    assert_eq!(get_asset_id(&info, "SOL", true), None);
}

#[test]
fn spot_markets_need_a_pair_and_data() {
    let info = sample();
    assert_eq!(info.spot_markets.len(), 2);
    assert_eq!(get_asset_id(&info, "PURR", false), Some(10000));
    assert_eq!(get_asset_id(&info, "ETH", false), Some(10001));
    assert_eq!(get_asset_id(&info, "HYPE", false), None);
    assert_eq!(get_asset_id(&info, "USDC", false), None);
}

#[test]
fn unified_markets_join_both_sides() {
    let info = sample();
    let eth = find_market_by_name(&info, "ETH").unwrap();
    assert_eq!(eth.perp.as_ref().unwrap().mark_px, "3000");
    assert_eq!(eth.spot.as_ref().unwrap().mark_px, "3001");
    let purr = find_market_by_name(&info, "PURR").unwrap();
    assert!(purr.perp.is_none());
    assert_eq!(info.unified_markets.len(), 3);
}

#[test]
fn lookup_falls_back_to_lower_case() {
    let info = sample();
    assert_eq!(find_market_by_name(&info, "eth").unwrap().base_name, "ETH");
    assert_eq!(get_asset_id(&info, "btc", true), Some(0));
    assert!(find_market_by_name(&info, "doge").is_none());
}

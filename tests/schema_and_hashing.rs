use hyperqit::{
    canonical_type_string, derive_multisig_schema, encode_data, hash_raw_action,
    hash_typed_struct, parse_chain_id, usd_class_transfer_schema, FieldKind, FieldValue,
    HashError, SchemaError, SchemaField, TransferRequest, TypeSchema,
};
use std::collections::HashSet;

fn hex(b: &[u8]) -> String {
    b.iter().map(|x| format!("{:02x}", x)).collect()
}

fn transfer(sig_chain_id: &str) -> TransferRequest {
    TransferRequest {
        sig_chain_id: sig_chain_id.to_string(),
        chain: "Testnet".to_string(),
        amount: "10".to_string(),
        to_perp: false,
        nonce: 1000000,
    }
}

#[test]
fn type_string_of_transfer() {
    let s = usd_class_transfer_schema();
    assert_eq!(
        canonical_type_string(&s),
        "HyperliquidTransaction:UsdClassTransfer(string hyperliquidChain,string amount,bool toPerp,uint64 nonce)"
    );
}

#[test]
fn type_string_of_empty_schema() {
    let s = TypeSchema::new("Empty", vec![]);
    assert_eq!(canonical_type_string(&s), "HyperliquidTransaction:Empty()");
}

#[test]
fn multisig_schema_inserts_after_anchor() {
    let s = usd_class_transfer_schema();
    let d = derive_multisig_schema(&s).unwrap();
    assert_eq!(d.len(), s.len() + 2);
    assert_eq!(d.fields[0].name, "hyperliquidChain");
    assert_eq!(d.fields[1].name, "payloadMultiSigUser");
    assert_eq!(d.fields[1].kind, FieldKind::Address);
    assert_eq!(d.fields[2].name, "outerSigner");
    assert_eq!(d.fields[2].kind, FieldKind::Address);
    assert_eq!(d.fields[3].name, "amount");
    assert_eq!(
        canonical_type_string(&d),
        "HyperliquidTransaction:UsdClassTransfer(string hyperliquidChain,address payloadMultiSigUser,address outerSigner,string amount,bool toPerp,uint64 nonce)"
    );
}

#[test]
fn multisig_schema_with_anchor_in_middle() {
    let s = TypeSchema::new(
        "Mid",
        vec![
            SchemaField::new(FieldKind::Str, "a"),
            SchemaField::new(FieldKind::Str, "hyperliquidChain"),
            SchemaField::new(FieldKind::Uint64, "b"),
        ],
    );
    let d = derive_multisig_schema(&s).unwrap();
    assert_eq!(d.len(), 5);
    assert_eq!(d.fields[2].name, "payloadMultiSigUser");
    assert_eq!(d.fields[3].name, "outerSigner");
    assert_eq!(d.fields[4].name, "b");
}

#[test]
fn multisig_schema_without_anchor_fails() {
    let s = TypeSchema::new(
        "NoAnchor",
        vec![SchemaField::new(FieldKind::Str, "amount"), SchemaField::new(FieldKind::Uint64, "nonce")],
    );
    match derive_multisig_schema(&s) {
        Err(SchemaError::MissingAnchor(name)) => assert_eq!(name, "NoAnchor"),
        Ok(_) => panic!("derived a variant without anchor"),
    }
    assert!(matches!(derive_multisig_schema(&s), Err(SchemaError::MissingAnchor(_))));
    let empty = TypeSchema::new("Empty", vec![]);
    assert!(derive_multisig_schema(&empty).is_err());
}

#[test]
fn reordering_fields_changes_type_string() {
    let a = TypeSchema::new(
        "T",
        vec![SchemaField::new(FieldKind::Str, "x"), SchemaField::new(FieldKind::Bool, "y")],
    );
    let b = TypeSchema::new(
        "T",
        vec![SchemaField::new(FieldKind::Bool, "y"), SchemaField::new(FieldKind::Str, "x")],
    );
    assert_ne!(canonical_type_string(&a), canonical_type_string(&b));
}

#[test]
fn chain_id_forms() {
    assert_eq!(parse_chain_id("0x66eee"), Ok(421614));
    assert_eq!(parse_chain_id("66eee"), Ok(421614));
    assert_eq!(parse_chain_id("0xA4B1"), Ok(42161));
    assert_eq!(parse_chain_id("421614"), Ok(0x421614));
    assert_eq!(parse_chain_id("+12"), Ok(12));
    assert_eq!(parse_chain_id("0x+ff"), Ok(255));
    assert_eq!(parse_chain_id("0xffffffffffffffff"), Ok(u64::MAX));
    assert!(parse_chain_id("0x10000000000000000").is_err());
    assert_eq!(parse_chain_id("10000000000000000"), Ok(10_000_000_000_000_000));
    assert_eq!(parse_chain_id("18446744073709551615"), Ok(u64::MAX));
    assert!(parse_chain_id("18446744073709551616").is_err());
    assert!(parse_chain_id("fffffffffffffffff").is_err());
    assert!(parse_chain_id("").is_err());
    assert!(parse_chain_id("0x").is_err());
    assert!(parse_chain_id("+").is_err());
    assert!(parse_chain_id("-1").is_err());
    assert!(parse_chain_id("xyz").is_err());
    assert!(parse_chain_id("0X10").is_err());
}

#[test]
fn transfer_golden_hash() {
    let h = transfer("0x66eee").signing_hash().unwrap();
    assert_eq!(hex(&h), "1e56e3d03d0ab60512bf384135c4cbe6f44594402203fb7fed282be121cb528b");
}

#[test]
fn transfer_hash_through_generic_pipeline() {
    let t = transfer("0x66eee");
    let h = hash_typed_struct(&usd_class_transfer_schema(), &t.typed_values(), "0x66eee").unwrap();
    assert_eq!(hex(&h), "1e56e3d03d0ab60512bf384135c4cbe6f44594402203fb7fed282be121cb528b");
}

#[test]
fn chain_id_separates_domains() {
    let a = transfer("0x66eee").signing_hash().unwrap();
    let b = transfer("1").signing_hash().unwrap();
    assert_ne!(a, b);
    assert_eq!(hex(&b), "c82b702ce77d21434cdc4f27d3c25cc99cc5ce094b562a38fdb16794cf8d4cf9");
}

#[test]
fn invalid_chain_id_is_reported() {
    assert_eq!(transfer("mainnet").signing_hash(), Err(HashError::InvalidChainId));
}

#[test]
fn mismatched_payload_is_reported() {
    let s = usd_class_transfer_schema();
    let values = vec![FieldValue::Str("Testnet".to_string())];
    assert_eq!(hash_typed_struct(&s, &values, "0x1"), Err(HashError::PayloadMismatch));
    let wrong_kind = vec![
        FieldValue::Str("Testnet".to_string()),
        FieldValue::Str("10".to_string()),
        FieldValue::Uint64(0),
        FieldValue::Uint64(1),
    ];
    assert_eq!(hash_typed_struct(&s, &wrong_kind, "0x1"), Err(HashError::PayloadMismatch));
    assert_eq!(hash_typed_struct(&s, &wrong_kind, "zz"), Err(HashError::InvalidChainId));
}

#[test]
fn encoded_words() {
    let values = vec![
        FieldValue::Bool(true),
        FieldValue::Uint64(0x0102),
        FieldValue::Address([0xab; 20]),
    ];
    let e = encode_data(&values);
    assert_eq!(e.len(), 96);
    assert!(e[..31].iter().all(|b| *b == 0));
    assert_eq!(e[31], 1);
    assert!(e[32..62].iter().all(|b| *b == 0));
    assert_eq!(e[62], 1);
    assert_eq!(e[63], 2);
    assert!(e[64..76].iter().all(|b| *b == 0));
    assert!(e[76..].iter().all(|b| *b == 0xab));
}

#[test]
fn raw_action_golden_hashes() {
    assert_eq!(
        hex(&hash_raw_action(&[], false, 0)),
        "89e8009bb689934cf5939051a66c0cf6775f1f64c0cc1a2feeaeaa314a57b792"
    );
    let action = [0x81u8, 0xa1, b'a', 0x01];
    assert_eq!(
        hex(&hash_raw_action(&action, true, 7)),
        "c0e1c6f4db554700599009d6ead037440ac15b64624b2f8f14f3a9c143391a66"
    );
    assert_eq!(
        hex(&hash_raw_action(&action, true, 8)),
        "7db80a5799bca6eca672c787fb3062f52965601847279f716ca0224f693eb9d3"
    );
}

#[test]
fn raw_action_hash_is_deterministic_and_nonce_sensitive() {
    let action = [0x81u8, 0xa4, b't', b'y', b'p', b'e', 0xa6, b'c', b'a', b'n', b'c', b'e', b'l'];
    assert_eq!(hash_raw_action(&action, true, 42), hash_raw_action(&action, true, 42));
    assert_ne!(hash_raw_action(&action, true, 42), hash_raw_action(&action, true, 43));
    assert_ne!(hash_raw_action(&action, true, 42), hash_raw_action(&action, false, 42));
    let mut seen = HashSet::new();
    for n in 0..1000u64 {
        assert!(seen.insert(hash_raw_action(&action, false, 1_700_000_000_000 + n)));
    }
}

#[test]
fn agent_message_and_domain() {
    let (agent, domain) = hyperqit::generate_action_params(&[], false, 0);
    assert_eq!(agent.source, "b");
    assert_eq!(domain.name, "Exchange");
    assert_eq!(domain.version, "1");
    assert_eq!(domain.chain_id, 1337);
    assert_eq!(
        hex(&agent.hyperliquid_signing_hash(&domain)),
        "89e8009bb689934cf5939051a66c0cf6775f1f64c0cc1a2feeaeaa314a57b792"
    );
    let (mainnet_agent, _) = hyperqit::generate_action_params(&[], true, 0);
    assert_eq!(mainnet_agent.source, "a");
    assert_eq!(mainnet_agent.connection_id, agent.connection_id);
}

#[test]
fn typed_hash_from_type_string() {
    let t = transfer("0x66eee");
    let h = hyperqit::hyperliquid_signing_hash_with_default_domain(
        "HyperliquidTransaction:UsdClassTransfer(string hyperliquidChain,string amount,bool toPerp,uint64 nonce)",
        &t.typed_values(),
        421614,
    );
    assert_eq!(hex(&h), "1e56e3d03d0ab60512bf384135c4cbe6f44594402203fb7fed282be121cb528b");
}

#[test]
fn spellings_of_one_chain_id_share_a_domain() {
    let a = transfer("0x66eee").signing_hash().unwrap();
    let b = transfer("66eee").signing_hash().unwrap();
    assert_eq!(a, b);
}

#[test]
fn multisig_fields_follow_last_anchor() {
    let s = TypeSchema::new(
        "Twice",
        vec![
            SchemaField::new(FieldKind::Str, "hyperliquidChain"),
            SchemaField::new(FieldKind::Str, "a"),
            SchemaField::new(FieldKind::Str, "hyperliquidChain"),
            SchemaField::new(FieldKind::Uint64, "b"),
        ],
    );
    let d = derive_multisig_schema(&s).unwrap();
    assert_eq!(d.len(), 6);
    assert_eq!(d.fields[1].name, "a");
    assert_eq!(d.fields[3].name, "payloadMultiSigUser");
    assert_eq!(d.fields[4].name, "outerSigner");
    assert_eq!(d.fields[5].name, "b");
}

#[test]
fn signers_sorted_ascending() {
    let mut a = [0u8; 20];
    a[0] = 2;
    let mut b = [0u8; 20];
    b[0] = 1;
    b[19] = 9;
    let mut c = [0u8; 20];
    c[0] = 1;
    c[19] = 3;
    let sorted = hyperqit::sorted_signers(vec![a, b, c, b]);
    assert_eq!(sorted, vec![c, b, b, a]);
    assert!(hyperqit::sorted_signers(vec![]).is_empty());
}

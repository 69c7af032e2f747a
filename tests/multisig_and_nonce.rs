use hyperqit::{
    multisig_envelope, nonce_from, to_hex_padded, to_hex_trimmed, usd_class_transfer_schema,
    Actions, ComposeError, FieldKind, FieldValue, MultiSigSession, Network, NonceManager,
    SchemaField, SignedMessage, SignedMessageHex, SignerTurn, TransferRequest, TypeSchema,
};

fn hex(b: &[u8]) -> String {
    b.iter().map(|x| format!("{:02x}", x)).collect()
}

fn transfer() -> TransferRequest {
    TransferRequest {
        sig_chain_id: "0x66eee".to_string(),
        chain: "Testnet".to_string(),
        amount: "10".to_string(),
        to_perp: false,
        nonce: 1000000,
    }
}

fn sig(tag: u8) -> SignedMessage {
    let mut r = [0u8; 32];
    r[31] = tag;
    SignedMessage { r, s: [tag; 32], v: 27 }
}

fn start(co_signers: usize, chain: &str) -> Result<MultiSigSession, ComposeError> {
    let t = transfer();
    MultiSigSession::start(
        &usd_class_transfer_schema(),
        t.typed_values(),
        [0x11; 20],
        [0x22; 20],
        co_signers,
        chain.to_string(),
        Actions::UsdClassTransfer(t),
    )
}

#[test]
fn inner_hash_golden() {
    let s = start(2, "0x66eee").unwrap();
    assert_eq!(hex(&s.inner_hash), "020ce5c397e424fb6d103fd76aa47914ae78c037b94854fb3e6823840e90b3d3");
}

#[test]
fn leader_signs_first_then_co_signers_in_order() {
    let mut s = start(2, "0x66eee").unwrap();
    assert_eq!(s.next_signer(), Some(SignerTurn::Leader));
    s.record_signature(&sig(1));
    assert_eq!(s.next_signer(), Some(SignerTurn::CoSigner(0)));
    s.record_signature(&sig(2));
    assert_eq!(s.next_signer(), Some(SignerTurn::CoSigner(1)));
    assert!(!s.is_complete());
    s.record_signature(&sig(3));
    assert_eq!(s.next_signer(), None);
    assert!(s.is_complete());
    let req = s.into_request();
    assert_eq!(req.signatures.len(), 3);
    assert_eq!(req.signatures[0].r, "0x1");
    assert_eq!(req.signatures[1].r, "0x2");
    assert_eq!(req.signatures[2].r, "0x3");
    assert_eq!(req.sig_chain_id, "0x66eee");
    assert_eq!(req.payload.multi_sig_user, format!("0x{}", "11".repeat(20)));
    assert_eq!(req.payload.outer_signer, format!("0x{}", "22".repeat(20)));
    assert!(matches!(*req.payload.action, Actions::UsdClassTransfer(_)));
    let env = multisig_envelope(req, sig(9), 1000000);
    assert_eq!(env.nonce, 1000000);
    assert_eq!(env.signature.r[31], 9);
    assert!(matches!(env.action, Actions::MultiSig(_)));
}

#[test]
fn composition_errors() {
    assert!(matches!(start(1, "nope"), Err(ComposeError::InvalidChainId)));
    let base = TypeSchema::new("NoAnchor", vec![SchemaField::new(FieldKind::Str, "amount")]);
    let r = MultiSigSession::start(
        &base,
        vec![FieldValue::Str("1".to_string())],
        [1; 20],
        [2; 20],
        0,
        "0x1".to_string(),
        Actions::UsdClassTransfer(transfer()),
    );
    assert!(matches!(r, Err(ComposeError::MissingAnchor(ref n)) if n == "NoAnchor"));
    let r = MultiSigSession::start(
        &usd_class_transfer_schema(),
        vec![FieldValue::Bool(true)],
        [1; 20],
        [2; 20],
        0,
        "0x1".to_string(),
        Actions::UsdClassTransfer(transfer()),
    );
    assert!(matches!(r, Err(ComposeError::PayloadMismatch)));
}

#[test]
fn signature_wire_form() {
    let mut r = [0u8; 32];
    r[30] = 0x01;
    r[31] = 0xa0;
    let h = SignedMessageHex::from_signed(&SignedMessage { r, s: [0u8; 32], v: 28 });
    assert_eq!(h.r, "0x1a0");
    assert_eq!(h.s, "0x0");
    assert_eq!(h.v, 28);
    assert_eq!(to_hex_trimmed(&[0xff; 32]), format!("0x{}", "ff".repeat(32)));
    assert_eq!(to_hex_padded(&[0x0a, 0x00, 0xbc]), "0x0a00bc");
}

#[test]
fn nonce_formula() {
    assert_eq!(nonce_from(1_700_000_000_000, 1234), 1_700_000_000_234);
    assert_eq!(nonce_from(5, 999), 1004);
    assert_eq!(nonce_from(u64::MAX, 5), u64::MAX);
    assert_eq!(nonce_from(u64::MAX - 1, 7), u64::MAX);
}

#[test]
fn nonce_collision_across_milliseconds() {
    // The scheme is best-effort: a counter 999 ahead one millisecond later collides.
    assert_eq!(nonce_from(1_000, 500), nonce_from(1_001, 1_499));
}

#[test]
fn nonce_manager_advances() {
    let m = NonceManager::new();
    let a = m.get_next_nonce();
    let b = m.get_next_nonce();
    assert!(b > a);
    assert!(a > 1_600_000_000_000);
}

#[test]
fn network_names() {
    assert_eq!(Network::Mainnet.name(), "Mainnet");
    assert_eq!(Network::Testnet.name(), "Testnet");
    assert_eq!(Network::Testnet.url(), "https://api.hyperliquid-testnet.xyz");
    assert!(Network::Mainnet.is_mainnet());
    assert!(!Network::Testnet.is_mainnet());
}

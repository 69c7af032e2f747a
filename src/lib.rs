//! Typed-transaction schemas, domain-separated signing hashes, multi-signature
//! composition and request nonces for a trading venue's authorization protocol.

pub mod bytes;
pub mod digest;
pub mod eip712;
pub mod market;
pub mod multisig;
pub mod network;
pub mod nonce;
pub mod requests;
pub mod responses;
pub mod schema;
pub mod signature;
pub mod signers;
pub mod transactions;

pub use eip712::{
    generate_action_params, hyperliquid_signing_hash, hyperliquid_signing_hash_with_default_domain,
    Agent, SigningDomain, domain_separator_of, encode_data, hash_raw_action, hash_typed_struct, payload_matches,
    signing_hash_of, struct_hash_of, typed_hash_on_chain, FieldValue, HashError,
};
pub use market::{
    create_unified_market_info, extract_base_name, find_market_by_name, get_asset_id,
    CombinedMarketInfo, GetInfoReq, MarketData, PerpMarketInfo, PerpetualMetadata,
    PerpetualsInfo, SpotInfo, SpotMarketInfo, SpotResponse, SpotUniverse, Token,
    UnifiedMarketInfo, Universe, UniverseInfo,
};
pub use multisig::{
    multisig_envelope, ComposeError, MultiSigSession, SignerTurn, TransactionEnvelope,
};
pub use network::{parse_chain_id, InvalidChainId, Network};
pub use nonce::{nonce_from, NonceManager};
pub use requests::{
    Actions, BulkCancel, BulkOrder, CancelOrder, ConvertToMultiSigUserRequest, HaltTrading, Limit,
    MultiSigConfig, MultiSigPayload, MultiSigRequest, Order, OrderRequest, OrderType,
    PerpDeployAction, PerpDexSchemaInput, RegisterAsset, RegisterAssetRequest, SendAssetRequest,
    SetFundingMultipliers, SetOracle, TransferRequest, UpdateLeverage, UsdSendRequest,
};
pub use responses::{
    ExchangeOrderResponse, FilledOrder, OrderStatus, OrderStatusResponse, RestingOrder,
    SetGlobalResponse,
};
pub use schema::{
    anchor_position, canonical_type_string, derive_multisig_schema, FieldKind, SchemaError,
    SchemaField, TypeSchema,
};
pub use signers::sorted_signers;
pub use signature::{to_hex_padded, to_hex_trimmed, SignedMessage, SignedMessageHex};
pub use transactions::{
    convert_to_multi_sig_user_schema, send_asset_schema, usd_class_transfer_schema,
    usd_send_schema,
};

use vstd::prelude::*;
use crate::signature::SignedMessageHex;

verus! {

/// A limit order's time-in-force.
#[derive(Clone, Debug)]
pub struct Limit {
    pub tif: String,
}

/// The type of an order.
#[derive(Clone, Debug)]
pub enum OrderType {
    Limit(Limit),
}

/// The type of an order, under its shorter name.
pub type Order = OrderType;

/// One order of a bulk order.
#[derive(Clone, Debug)]
pub struct OrderRequest {
    pub asset: u32,
    pub is_buy: bool,
    pub limit_px: String,
    pub sz: String,
    pub reduce_only: bool,
    pub order_type: OrderType,
    pub cloid: Option<String>,
}

/// A transfer of USD between the spot and perpetual balances.
#[derive(Clone, Debug)]
pub struct TransferRequest {
    pub sig_chain_id: String,
    pub chain: String,
    pub amount: String,
    pub to_perp: bool,
    pub nonce: u64,
}

/// Every transaction kind that the venue accepts.
#[derive(Debug)]
pub enum Actions {
    Order(BulkOrder),
    UsdClassTransfer(TransferRequest),
    UsdSend(UsdSendRequest),
    Cancel(BulkCancel),
    UpdateLeverage(UpdateLeverage),
    PerpDeploy(PerpDeployAction),
    SendAsset(SendAssetRequest),
    ConvertToMultiSigUser(ConvertToMultiSigUserRequest),
    MultiSig(MultiSigRequest),
}

/// Orders placed together.
#[derive(Clone, Debug)]
pub struct BulkOrder {
    pub orders: Vec<OrderRequest>,
    pub grouping: String,
}

/// Orders cancelled together.
#[derive(Clone, Debug)]
pub struct BulkCancel {
    pub cancels: Vec<CancelOrder>,
}

/// The cancellation of one order.
#[derive(Clone, Debug)]
pub struct CancelOrder {
    pub asset: u32,
    pub oid: i64,
}

/// A change of an asset's leverage.
#[derive(Clone, Debug)]
pub struct UpdateLeverage {
    pub asset: u32,
    pub is_cross: bool,
    pub leverage: u32,
}

/// The schema of a new perpetual venue.
#[derive(Clone, Debug)]
pub struct PerpDexSchemaInput {
    pub full_name: String,
    pub collateral_token: u64,
    pub oracle_updater: Option<String>,
}

/// The asset that a registration adds.
#[derive(Clone, Debug)]
pub struct RegisterAssetRequest {
    pub coin: String,
    pub sz_decimals: u64,
    pub oracle_px: String,
    pub margin_table_id: u64,
    pub only_isolated: bool,
}

/// The registration of an asset on a perpetual venue.
#[derive(Clone, Debug)]
pub struct RegisterAsset {
    pub max_gas: Option<u64>,
    pub asset_request: RegisterAssetRequest,
    pub dex: String,
    pub schema: Option<PerpDexSchemaInput>,
}

/// Pairs of coin and funding multiplier.
pub type SetFundingMultipliers = Vec<[String; 2]>;

/// An administrative action on a perpetual venue.
#[derive(Clone, Debug)]
pub enum PerpDeployAction {
    RegisterAsset(RegisterAsset),
    SetFundingMultiplier(SetFundingMultipliers),
    SetOracle(SetOracle),
    HaltTrading(HaltTrading),
}

/// New oracle and mark prices of a perpetual venue.
#[derive(Clone, Debug)]
pub struct SetOracle {
    pub dex: String,
    pub oracle_pxs: Vec<[String; 2]>,
    pub mark_pxs: Vec<Vec<[String; 2]>>,
}

/// Halting or resuming the trading of a coin.
#[derive(Clone, Debug)]
pub struct HaltTrading {
    pub coin: String,
    pub is_halted: bool,
}

/// A transfer of a token between venues or accounts.
#[derive(Clone, Debug)]
pub struct SendAssetRequest {
    pub sig_chain_id: String,
    pub chain: String,
    pub destination: String,
    pub source_dex: String,
    pub dst_dex: String,
    pub token: String,
    pub amount: String,
    pub from_sub_account: String,
    pub nonce: u64,
}

/// The conversion of an account into a multi-signature account.
#[derive(Clone, Debug)]
pub struct ConvertToMultiSigUserRequest {
    pub sig_chain_id: String,
    pub chain: String,
    pub signers: String,
    pub nonce: u64,
}

/// The authorized signers of a multi-signature account and how many must sign.
#[derive(Clone, Debug)]
pub struct MultiSigConfig {
    pub authorized_users: Vec<String>,
    pub threshold: u64,
}

/// A withdrawal of USD to an address.
#[derive(Clone, Debug)]
pub struct UsdSendRequest {
    pub sig_chain_id: String,
    pub chain: String,
    pub destination: String,
    pub amount: String,
    pub time: u64,
}

/// An action authorized by several signers of a multi-signature account.
#[derive(Debug)]
pub struct MultiSigRequest {
    pub sig_chain_id: String,
    pub signatures: Vec<SignedMessageHex>,
    pub payload: MultiSigPayload,
}

/// The account, the leader and the action of a multi-signature request.
#[derive(Debug)]
pub struct MultiSigPayload {
    pub multi_sig_user: String,
    pub outer_signer: String,
    pub action: Box<Actions>,
}

} // verus!

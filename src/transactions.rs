use vstd::prelude::*;
use crate::eip712::{
    hash_typed_struct, payload_fits, typed_hash, value_views, FieldValue, HashError, ValueView,
};
use crate::network::chain_id_value;
use crate::requests::{
    ConvertToMultiSigUserRequest, SendAssetRequest, TransferRequest, UsdSendRequest,
};
use crate::schema::{
    default_anchor, FieldKind, SchemaField, SchemaView, TypeSchema,
};

verus! {

/// `UsdClassTransfer(string hyperliquidChain,string amount,bool toPerp,uint64 nonce)`.
pub open spec fn usd_class_transfer_view() -> SchemaView {
    SchemaView {
        name: "UsdClassTransfer"@,
        fields: seq![
            (FieldKind::Str, "hyperliquidChain"@),
            (FieldKind::Str, "amount"@),
            (FieldKind::Bool, "toPerp"@),
            (FieldKind::Uint64, "nonce"@),
        ],
        anchor: default_anchor(),
    }
}

/// `SendAsset(string hyperliquidChain,string destination,string sourceDex,
/// string destinationDex,string token,string amount,string fromSubAccount,uint64 nonce)`.
pub open spec fn send_asset_view() -> SchemaView {
    SchemaView {
        name: "SendAsset"@,
        fields: seq![
            (FieldKind::Str, "hyperliquidChain"@),
            (FieldKind::Str, "destination"@),
            (FieldKind::Str, "sourceDex"@),
            (FieldKind::Str, "destinationDex"@),
            (FieldKind::Str, "token"@),
            (FieldKind::Str, "amount"@),
            (FieldKind::Str, "fromSubAccount"@),
            (FieldKind::Uint64, "nonce"@),
        ],
        anchor: default_anchor(),
    }
}

/// `ConvertToMultiSigUser(string hyperliquidChain,string signers,uint64 nonce)`.
pub open spec fn convert_to_multi_sig_user_view() -> SchemaView {
    SchemaView {
        name: "ConvertToMultiSigUser"@,
        fields: seq![
            (FieldKind::Str, "hyperliquidChain"@),
            (FieldKind::Str, "signers"@),
            (FieldKind::Uint64, "nonce"@),
        ],
        anchor: default_anchor(),
    }
}

/// `UsdSend(string hyperliquidChain,string destination,string amount,uint64 time)`.
pub open spec fn usd_send_view() -> SchemaView {
    SchemaView {
        name: "UsdSend"@,
        fields: seq![
            (FieldKind::Str, "hyperliquidChain"@),
            (FieldKind::Str, "destination"@),
            (FieldKind::Str, "amount"@),
            (FieldKind::Uint64, "time"@),
        ],
        anchor: default_anchor(),
    }
}

/// The schema of a transfer between the spot and perpetual balances.
pub fn usd_class_transfer_schema() -> (r: TypeSchema)
    ensures
        r@ == usd_class_transfer_view(),
{
    let fields = vec![
        SchemaField::new(FieldKind::Str, "hyperliquidChain"),
        SchemaField::new(FieldKind::Str, "amount"),
        SchemaField::new(FieldKind::Bool, "toPerp"),
        SchemaField::new(FieldKind::Uint64, "nonce"),
    ];
    let r = TypeSchema::new("UsdClassTransfer", fields);
    assert(r@.fields =~= usd_class_transfer_view().fields);
    r
}

/// The schema of a transfer of a token between venues or accounts.
pub fn send_asset_schema() -> (r: TypeSchema)
    ensures
        r@ == send_asset_view(),
{
    let fields = vec![
        SchemaField::new(FieldKind::Str, "hyperliquidChain"),
        SchemaField::new(FieldKind::Str, "destination"),
        SchemaField::new(FieldKind::Str, "sourceDex"),
        SchemaField::new(FieldKind::Str, "destinationDex"),
        SchemaField::new(FieldKind::Str, "token"),
        SchemaField::new(FieldKind::Str, "amount"),
        SchemaField::new(FieldKind::Str, "fromSubAccount"),
        SchemaField::new(FieldKind::Uint64, "nonce"),
    ];
    let r = TypeSchema::new("SendAsset", fields);
    assert(r@.fields =~= send_asset_view().fields);
    r
}

/// The schema of the conversion into a multi-signature account.
pub fn convert_to_multi_sig_user_schema() -> (r: TypeSchema)
    ensures
        r@ == convert_to_multi_sig_user_view(),
{
    let fields = vec![
        SchemaField::new(FieldKind::Str, "hyperliquidChain"),
        SchemaField::new(FieldKind::Str, "signers"),
        SchemaField::new(FieldKind::Uint64, "nonce"),
    ];
    let r = TypeSchema::new("ConvertToMultiSigUser", fields);
    assert(r@.fields =~= convert_to_multi_sig_user_view().fields);
    r
}

/// The schema of a withdrawal of USD.
pub fn usd_send_schema() -> (r: TypeSchema)
    ensures
        r@ == usd_send_view(),
{
    let fields = vec![
        SchemaField::new(FieldKind::Str, "hyperliquidChain"),
        SchemaField::new(FieldKind::Str, "destination"),
        SchemaField::new(FieldKind::Str, "amount"),
        SchemaField::new(FieldKind::Uint64, "time"),
    ];
    let r = TypeSchema::new("UsdSend", fields);
    assert(r@.fields =~= usd_send_view().fields);
    r
}

impl TransferRequest {
    /// The values of the typed struct, in schema order.
    pub fn typed_values(&self) -> (r: Vec<FieldValue>)
        ensures
            value_views(r@) == seq![
                ValueView::Str(self.chain@),
                ValueView::Str(self.amount@),
                ValueView::Bool(self.to_perp),
                ValueView::Uint64(self.nonce),
            ],
    {
        let r = vec![
            FieldValue::Str(self.chain.clone()),
            FieldValue::Str(self.amount.clone()),
            FieldValue::Bool(self.to_perp),
            FieldValue::Uint64(self.nonce),
        ];
        assert(value_views(r@) =~= seq![
            ValueView::Str(self.chain@),
            ValueView::Str(self.amount@),
            ValueView::Bool(self.to_perp),
            ValueView::Uint64(self.nonce),
        ]);
        r
    }

    /// The typed-struct signing hash of this transfer.
    pub fn signing_hash(&self) -> (r: Result<[u8; 32], HashError>)
        ensures
            r is Err <==> chain_id_value(self.sig_chain_id@) is None,
            r matches Ok(h) ==> h@ == typed_hash(
                usd_class_transfer_view(),
                seq![
                    ValueView::Str(self.chain@),
                    ValueView::Str(self.amount@),
                    ValueView::Bool(self.to_perp),
                    ValueView::Uint64(self.nonce),
                ],
                chain_id_value(self.sig_chain_id@)->Some_0,
            ),
    {
        let schema = usd_class_transfer_schema();
        let values = self.typed_values();
        assert(payload_fits(schema@, value_views(values@)));
        hash_typed_struct(&schema, &values, self.sig_chain_id.as_str())
    }
}

impl SendAssetRequest {
    /// The values of the typed struct, in schema order.
    pub fn typed_values(&self) -> (r: Vec<FieldValue>)
        ensures
            value_views(r@) == seq![
                ValueView::Str(self.chain@),
                ValueView::Str(self.destination@),
                ValueView::Str(self.source_dex@),
                ValueView::Str(self.dst_dex@),
                ValueView::Str(self.token@),
                ValueView::Str(self.amount@),
                ValueView::Str(self.from_sub_account@),
                ValueView::Uint64(self.nonce),
            ],
    {
        let r = vec![
            FieldValue::Str(self.chain.clone()),
            FieldValue::Str(self.destination.clone()),
            FieldValue::Str(self.source_dex.clone()),
            FieldValue::Str(self.dst_dex.clone()),
            FieldValue::Str(self.token.clone()),
            FieldValue::Str(self.amount.clone()),
            FieldValue::Str(self.from_sub_account.clone()),
            FieldValue::Uint64(self.nonce),
        ];
        assert(value_views(r@) =~= seq![
            ValueView::Str(self.chain@),
            ValueView::Str(self.destination@),
            ValueView::Str(self.source_dex@),
            ValueView::Str(self.dst_dex@),
            ValueView::Str(self.token@),
            ValueView::Str(self.amount@),
            ValueView::Str(self.from_sub_account@),
            ValueView::Uint64(self.nonce),
        ]);
        r
    }

    /// The typed-struct signing hash of this transfer.
    pub fn signing_hash(&self) -> (r: Result<[u8; 32], HashError>)
        ensures
            r is Err <==> chain_id_value(self.sig_chain_id@) is None,
            r matches Ok(h) ==> h@ == typed_hash(
                send_asset_view(),
                seq![
                    ValueView::Str(self.chain@),
                    ValueView::Str(self.destination@),
                    ValueView::Str(self.source_dex@),
                    ValueView::Str(self.dst_dex@),
                    ValueView::Str(self.token@),
                    ValueView::Str(self.amount@),
                    ValueView::Str(self.from_sub_account@),
                    ValueView::Uint64(self.nonce),
                ],
                chain_id_value(self.sig_chain_id@)->Some_0,
            ),
    {
        let schema = send_asset_schema();
        let values = self.typed_values();
        assert(payload_fits(schema@, value_views(values@)));
        hash_typed_struct(&schema, &values, self.sig_chain_id.as_str())
    }
}

impl ConvertToMultiSigUserRequest {
    /// The values of the typed struct, in schema order.
    pub fn typed_values(&self) -> (r: Vec<FieldValue>)
        ensures
            value_views(r@) == seq![
                ValueView::Str(self.chain@),
                ValueView::Str(self.signers@),
                ValueView::Uint64(self.nonce),
            ],
    {
        let r = vec![
            FieldValue::Str(self.chain.clone()),
            FieldValue::Str(self.signers.clone()),
            FieldValue::Uint64(self.nonce),
        ];
        assert(value_views(r@) =~= seq![
            ValueView::Str(self.chain@),
            ValueView::Str(self.signers@),
            ValueView::Uint64(self.nonce),
        ]);
        r
    }

    /// The typed-struct signing hash of this conversion.
    pub fn signing_hash(&self) -> (r: Result<[u8; 32], HashError>)
        ensures
            r is Err <==> chain_id_value(self.sig_chain_id@) is None,
            r matches Ok(h) ==> h@ == typed_hash(
                convert_to_multi_sig_user_view(),
                seq![
                    ValueView::Str(self.chain@),
                    ValueView::Str(self.signers@),
                    ValueView::Uint64(self.nonce),
                ],
                chain_id_value(self.sig_chain_id@)->Some_0,
            ),
    {
        let schema = convert_to_multi_sig_user_schema();
        let values = self.typed_values();
        assert(payload_fits(schema@, value_views(values@)));
        hash_typed_struct(&schema, &values, self.sig_chain_id.as_str())
    }
}

impl UsdSendRequest {
    /// The values of the typed struct, in schema order.
    pub fn typed_values(&self) -> (r: Vec<FieldValue>)
        ensures
            value_views(r@) == seq![
                ValueView::Str(self.chain@),
                ValueView::Str(self.destination@),
                ValueView::Str(self.amount@),
                ValueView::Uint64(self.time),
            ],
    {
        let r = vec![
            FieldValue::Str(self.chain.clone()),
            FieldValue::Str(self.destination.clone()),
            FieldValue::Str(self.amount.clone()),
            FieldValue::Uint64(self.time),
        ];
        assert(value_views(r@) =~= seq![
            ValueView::Str(self.chain@),
            ValueView::Str(self.destination@),
            ValueView::Str(self.amount@),
            ValueView::Uint64(self.time),
        ]);
        r
    }
}

} // verus!

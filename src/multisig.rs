use vstd::prelude::*;
use crate::eip712::{
    payload_fits, typed_hash_on_chain, payload_matches, typed_hash, value_views, FieldValue,
    ValueView,
};
use crate::network::{chain_id_value, parse_chain_id};
use crate::requests::{Actions, MultiSigPayload, MultiSigRequest};
use crate::schema::{
    anchor_position, derive_multisig_schema, has_anchor, index_of_field, multisig_view,
    SchemaView, TypeSchema,
};
use crate::signature::{
    address_hex, hex_signature, to_hex_padded, SignedMessage, SignedMessageHex,
    SignedMessageHexView,
};

verus! {

/// `vs` with the multi-signature account and the leader inserted, as two
/// addresses, right after index `at`.
pub open spec fn insert_signers(vs: Seq<ValueView>, at: int, user: Seq<u8>, leader: Seq<u8>) -> Seq<
    ValueView,
> {
    vs.subrange(0, at + 1) + seq![ValueView::Address(user), ValueView::Address(leader)]
        + vs.subrange(at + 1, vs.len() as int)
}

/// The inner hash that every signer of a multi-signature request signs.
pub open spec fn inner_hash(
    base: SchemaView,
    vs: Seq<ValueView>,
    user: Seq<u8>,
    leader: Seq<u8>,
    chain_id: u64,
) -> Seq<u8> {
    typed_hash(
        multisig_view(base),
        insert_signers(vs, index_of_field(base.fields, base.anchor), user, leader),
        chain_id,
    )
}

/// Why a multi-signature request could not be composed.
#[derive(Clone, Debug)]
pub enum ComposeError {
    /// The payload's schema, of this name, has no anchor field.
    MissingAnchor(String),
    /// The chain id string is not a number in any accepted form.
    InvalidChainId,
    /// The values do not match the schema's fields one for one.
    PayloadMismatch,
    /// A signer could not sign: 0 is the leader, `i + 1` the co-signer `i`.
    SignerFailed(usize),
}

/// Who signs the inner hash next.
#[derive(Clone, Copy, Debug, PartialEq, Eq, Structural)]
pub enum SignerTurn {
    Leader,
    CoSigner(usize),
}

/// The turn after `signed` signatures with `co_signers` co-signers: the leader
/// first, then each co-signer in order, then nobody.
pub open spec fn turn_after(signed: nat, co_signers: nat) -> Option<SignerTurn> {
    if signed == 0 {
        Some(SignerTurn::Leader)
    } else if signed <= co_signers {
        Some(SignerTurn::CoSigner((signed - 1) as usize))
    } else {
        None
    }
}

/// The views of a list of wire signatures.
pub open spec fn hex_views(v: Seq<SignedMessageHex>) -> Seq<SignedMessageHexView> {
    v.map_values(|h: SignedMessageHex| h@)
}

/// One multi-signature composition: the inner hash, and the signatures over
/// it collected so far, the leader's first.
pub struct MultiSigSession {
    pub sig_chain_id: String,
    pub inner_hash: [u8; 32],
    pub multi_sig_user: [u8; 20],
    pub leader: [u8; 20],
    pub co_signers: usize,
    pub signatures: Vec<SignedMessageHex>,
    pub action: Actions,
}

/// `values` with the two signer addresses inserted right after position `at`.
fn insert_signer_values(values: Vec<FieldValue>, at: usize, user: [u8; 20], leader: [u8; 20]) -> (r:
    Vec<FieldValue>)
    requires
        at < values@.len(),
        values@.len() + 2 <= usize::MAX,
    ensures
        value_views(r@) == insert_signers(value_views(values@), at as int, user@, leader@),
        r@.len() == values@.len() + 2,
{
    let n = values.len();
    let mut v = values;
    v.insert(at + 1, FieldValue::Address(user));
    v.insert(at + 2, FieldValue::Address(leader));
    assert(value_views(v@) =~= insert_signers(value_views(values@), at as int, user@, leader@));
    v
}

impl MultiSigSession {
    /// Starts a composition: derives the multi-signature schema of `base`,
    /// inserts the account and the leader into `values` at the same place, and
    /// hashes them in the domain of `sig_chain_id`. Nothing is signed yet.
    pub fn start(
        base: &TypeSchema,
        values: Vec<FieldValue>,
        multi_sig_user: [u8; 20],
        leader: [u8; 20],
        co_signers: usize,
        sig_chain_id: String,
        action: Actions,
    ) -> (r: Result<MultiSigSession, ComposeError>)
        requires
            32 * values@.len() + 128 <= usize::MAX,
        ensures
            (r matches Err(ComposeError::MissingAnchor(_))) <==> !has_anchor(base@),
            r matches Err(ComposeError::MissingAnchor(name)) ==> name@ == base@.name,
            (r matches Err(ComposeError::InvalidChainId)) <==> has_anchor(base@) && chain_id_value(
                sig_chain_id@,
            ) is None,
            (r matches Err(ComposeError::PayloadMismatch)) <==> has_anchor(base@) && chain_id_value(
                sig_chain_id@,
            ) is Some && !payload_fits(base@, value_views(values@)),
            !(r matches Err(ComposeError::SignerFailed(_))),
            r is Ok <==> has_anchor(base@) && chain_id_value(sig_chain_id@) is Some
                && payload_fits(base@, value_views(values@)),
            r matches Ok(s) ==> {
                &&& s.inner_hash@ == inner_hash(
                    base@,
                    value_views(values@),
                    multi_sig_user@,
                    leader@,
                    chain_id_value(sig_chain_id@)->Some_0,
                )
                &&& s.signatures@.len() == 0
                &&& s.co_signers == co_signers
                &&& s.sig_chain_id@ == sig_chain_id@
                &&& s.multi_sig_user == multi_sig_user
                &&& s.leader == leader
                &&& s.action == action
            },
    {
        let k = match anchor_position(base) {
            Some(k) => k,
            None => {
                return Err(ComposeError::MissingAnchor(base.name.clone()));
            },
        };
        let chain_id = match parse_chain_id(sig_chain_id.as_str()) {
            Ok(c) => c,
            Err(_) => {
                return Err(ComposeError::InvalidChainId);
            },
        };
        if !payload_matches(base, &values) {
            return Err(ComposeError::PayloadMismatch);
        }
        let schema = match derive_multisig_schema(base) {
            Ok(d) => d,
            Err(_) => {
                return Err(ComposeError::MissingAnchor(base.name.clone()));
            },
        };
        let inner_values = insert_signer_values(values, k, multi_sig_user, leader);
        let h = typed_hash_on_chain(&schema, &inner_values, chain_id);
        Ok(
            MultiSigSession {
                sig_chain_id,
                inner_hash: h,
                multi_sig_user,
                leader,
                co_signers,
                signatures: Vec::new(),
                action,
            },
        )
    }

    /// Who signs the inner hash next; `None` once every signer has signed.
    pub fn next_signer(&self) -> (r: Option<SignerTurn>)
        ensures
            r == turn_after(self.signatures@.len(), self.co_signers as nat),
    {
        let n = self.signatures.len();
        if n == 0 {
            Some(SignerTurn::Leader)
        } else if n <= self.co_signers {
            Some(SignerTurn::CoSigner(n - 1))
        } else {
            None
        }
    }

    /// Whether the leader and every co-signer have signed.
    pub fn is_complete(&self) -> (r: bool)
        ensures
            r == (self.signatures@.len() > self.co_signers),
    {
        self.signatures.len() > self.co_signers
    }

    /// Records the signature of the signer whose turn it is.
    pub fn record_signature(&mut self, sig: &SignedMessage)
        requires
            old(self).signatures@.len() <= old(self).co_signers,
        ensures
            hex_views(final(self).signatures@) == hex_views(old(self).signatures@).push(
                hex_signature(*sig),
            ),
            final(self).inner_hash == old(self).inner_hash,
            final(self).co_signers == old(self).co_signers,
            final(self).sig_chain_id == old(self).sig_chain_id,
            final(self).multi_sig_user == old(self).multi_sig_user,
            final(self).leader == old(self).leader,
            final(self).action == old(self).action,
    {
        let h = SignedMessageHex::from_signed(sig);
        self.signatures.push(h);
        assert(hex_views(self.signatures@) =~= hex_views(old(self).signatures@).push(
            hex_signature(*sig),
        ));
    }

    /// The request that the leader signs again as a raw action: the chain id,
    /// the signatures in the order they were recorded, the account and the
    /// leader as lower-case hexadecimal addresses, and the action.
    pub fn into_request(self) -> (r: MultiSigRequest)
        requires
            self.signatures@.len() == self.co_signers + 1,
        ensures
            r.signatures@.len() == self.co_signers + 1,
            r.sig_chain_id@ == self.sig_chain_id@,
            hex_views(r.signatures@) == hex_views(self.signatures@),
            r.payload.multi_sig_user@ == address_hex(self.multi_sig_user@),
            r.payload.outer_signer@ == address_hex(self.leader@),
            *r.payload.action == self.action,
    {
        let user = to_hex_padded(&self.multi_sig_user);
        let outer = to_hex_padded(&self.leader);
        MultiSigRequest {
            sig_chain_id: self.sig_chain_id,
            signatures: self.signatures,
            payload: MultiSigPayload {
                multi_sig_user: user,
                outer_signer: outer,
                action: Box::new(self.action),
            },
        }
    }
}

/// The signed request handed to the transport: the action, the signature over
/// its raw-action hash, and the nonce.
#[derive(Debug)]
pub struct TransactionEnvelope {
    pub action: Actions,
    pub signature: SignedMessage,
    pub nonce: u64,
}

impl TransactionEnvelope {
    pub fn new(action: Actions, signature: SignedMessage, nonce: u64) -> (r: TransactionEnvelope)
        ensures
            r.action == action,
            r.signature == signature,
            r.nonce == nonce,
    {
        TransactionEnvelope { action, signature, nonce }
    }
}

/// The envelope of a multi-signature request, signed by the leader alone.
pub fn multisig_envelope(request: MultiSigRequest, outer_signature: SignedMessage, nonce: u64) -> (r:
    TransactionEnvelope)
    ensures
        r.action == Actions::MultiSig(request),
        r.signature == outer_signature,
        r.nonce == nonce,
{
    TransactionEnvelope::new(Actions::MultiSig(request), outer_signature, nonce)
}

/// Values that fit a schema still fit its multi-signature variant once the
/// account and the leader are inserted at the anchor: the type string and the
/// encoded struct are derived alike.
pub proof fn lemma_signers_fit_multisig_schema(
    s: SchemaView,
    vs: Seq<ValueView>,
    user: Seq<u8>,
    leader: Seq<u8>,
)
    requires
        has_anchor(s),
        payload_fits(s, vs),
    ensures
        payload_fits(
            multisig_view(s),
            insert_signers(vs, index_of_field(s.fields, s.anchor), user, leader),
        ),
{
    crate::schema::lemma_multisig_shape(s);
    let i = index_of_field(s.fields, s.anchor);
    let d = multisig_view(s).fields;
    let w = insert_signers(vs, i, user, leader);
    assert forall|j: int| 0 <= j < w.len() implies crate::eip712::value_kind(#[trigger] w[j])
        == d[j].0 by {
        if j > i + 2 {
            assert(w[j] == vs[j - 2]);
            assert(d[(j - 2) + 2] == s.fields[j - 2]);
        } else if j <= i {
            assert(w[j] == vs[j]);
        }
    }
}

} // verus!

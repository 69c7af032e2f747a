use vstd::prelude::*;
use vstd::string::StringSliceAdditionalSpecFns;
use vstd::utf8::encode_utf8;
use crate::bytes::{be_u64, push_all, push_be_u64, push_zeros, zeros};
use crate::digest::{keccak256, keccak_of};
use crate::network::{chain_id_value, parse_chain_id};
use crate::schema::{canonical_type_string, type_string, FieldKind, SchemaView, TypeSchema};

verus! {

/// The value of one field of a typed transaction.
pub enum FieldValue {
    Str(String),
    Bool(bool),
    Uint64(u64),
    Address([u8; 20]),
    Bytes32([u8; 32]),
}

/// The mathematical content of a field value.
pub ghost enum ValueView {
    Str(Seq<char>),
    Bool(bool),
    Uint64(u64),
    Address(Seq<u8>),
    Bytes32(Seq<u8>),
}

impl View for FieldValue {
    type V = ValueView;

    open spec fn view(&self) -> ValueView {
        match self {
            FieldValue::Str(s) => ValueView::Str(s@),
            FieldValue::Bool(b) => ValueView::Bool(*b),
            FieldValue::Uint64(n) => ValueView::Uint64(*n),
            FieldValue::Address(a) => ValueView::Address(a@),
            FieldValue::Bytes32(h) => ValueView::Bytes32(h@),
        }
    }
}

/// The kind of a field value.
pub open spec fn value_kind(v: ValueView) -> FieldKind {
    match v {
        ValueView::Str(_) => FieldKind::Str,
        ValueView::Bool(_) => FieldKind::Bool,
        ValueView::Uint64(_) => FieldKind::Uint64,
        ValueView::Address(_) => FieldKind::Address,
        ValueView::Bytes32(_) => FieldKind::Bytes32,
    }
}

/// The views of a sequence of field values.
pub open spec fn value_views(v: Seq<FieldValue>) -> Seq<ValueView> {
    v.map_values(|x: FieldValue| x@)
}

/// Whether the values match the schema's fields one for one, kind for kind.
pub open spec fn payload_fits(s: SchemaView, vs: Seq<ValueView>) -> bool {
    &&& vs.len() == s.fields.len()
    &&& forall|j: int| 0 <= j < vs.len() ==> value_kind(#[trigger] vs[j]) == s.fields[j].0
}

/// The 32-byte EIP-712 encoding of one value: strings are hashed, integers,
/// booleans and addresses are left-padded with zeros.
pub open spec fn encode_word(v: ValueView) -> Seq<u8> {
    match v {
        ValueView::Str(s) => keccak_of(encode_utf8(s)),
        ValueView::Bool(b) => zeros(31) + seq![if b { 1u8 } else { 0u8 }],
        ValueView::Uint64(n) => zeros(24) + be_u64(n),
        ValueView::Address(a) => zeros(12) + a,
        ValueView::Bytes32(h) => h,
    }
}

/// The encodings of all values, in order.
pub open spec fn encode_values(vs: Seq<ValueView>) -> Seq<u8>
    decreases vs.len(),
{
    if vs.len() == 0 {
        Seq::empty()
    } else {
        encode_values(vs.drop_last()) + encode_word(vs.last())
    }
}

/// `keccak(keccak(type string) ++ encoded values)`.
pub open spec fn struct_hash(type_str: Seq<char>, vs: Seq<ValueView>) -> Seq<u8> {
    keccak_of(keccak_of(encode_utf8(type_str)) + encode_values(vs))
}

/// The type string of the signing domain.
pub open spec fn domain_type() -> Seq<char> {
    "EIP712Domain(string name,string version,uint256 chainId,address verifyingContract)"@
}

/// The separator of a domain with the given name, version and chain id and the
/// zero verifying contract.
pub open spec fn domain_separator(name: Seq<char>, version: Seq<char>, chain_id: u64) -> Seq<u8> {
    keccak_of(domain_preimage(name, version, chain_id))
}

/// The bytes whose digest is the domain separator.
pub open spec fn domain_preimage(name: Seq<char>, version: Seq<char>, chain_id: u64) -> Seq<u8> {
    keccak_of(encode_utf8(domain_type())) + keccak_of(encode_utf8(name)) + keccak_of(
        encode_utf8(version),
    ) + zeros(24) + be_u64(chain_id) + zeros(32)
}

/// `keccak(0x19 0x01 ++ domain separator ++ struct hash)`.
pub open spec fn signing_hash(domain_sep: Seq<u8>, struct_h: Seq<u8>) -> Seq<u8> {
    keccak_of(seq![0x19u8, 0x01u8] + domain_sep + struct_h)
}

/// The domain of user-signed transactions on chain `chain_id`.
pub open spec fn transaction_domain(chain_id: u64) -> Seq<u8> {
    domain_separator("HyperliquidSignTransaction"@, "1"@, chain_id)
}

/// The fixed domain of raw actions.
pub open spec fn exchange_domain() -> Seq<u8> {
    domain_separator("Exchange"@, "1"@, 1337)
}

/// The typed-struct signing hash of `vs` under schema `s` on chain `chain_id`.
pub open spec fn typed_hash(s: SchemaView, vs: Seq<ValueView>, chain_id: u64) -> Seq<u8> {
    signing_hash(transaction_domain(chain_id), struct_hash(type_string(s), vs))
}

/// The fingerprint of a serialized action: `keccak(action ++ nonce ++ 0x00)`.
pub open spec fn connection_id(action: Seq<u8>, nonce: u64) -> Seq<u8> {
    keccak_of(connection_preimage(action, nonce))
}

/// The bytes whose digest is the connection id.
pub open spec fn connection_preimage(action: Seq<u8>, nonce: u64) -> Seq<u8> {
    action + be_u64(nonce) + seq![0u8]
}

/// The type string of the agent message.
pub open spec fn agent_type() -> Seq<char> {
    "Agent(string source,bytes32 connectionId)"@
}

/// `a` on the main network, `b` elsewhere.
pub open spec fn agent_source(is_mainnet: bool) -> Seq<char> {
    if is_mainnet {
        "a"@
    } else {
        "b"@
    }
}

/// The raw-action signing hash of a serialized action.
pub open spec fn raw_action_hash(action: Seq<u8>, is_mainnet: bool, nonce: u64) -> Seq<u8> {
    signing_hash(
        exchange_domain(),
        struct_hash(
            agent_type(),
            seq![
                ValueView::Str(agent_source(is_mainnet)),
                ValueView::Bytes32(connection_id(action, nonce)),
            ],
        ),
    )
}

/// Why a typed-struct hash could not be computed.
#[derive(Clone, Copy, Debug, PartialEq, Eq, Structural)]
pub enum HashError {
    /// The chain id string is not a number in any accepted form.
    InvalidChainId,
    /// The values do not match the schema's fields one for one.
    PayloadMismatch,
}

/// The Keccak-256 digest of the UTF-8 bytes of `s`.
fn keccak_str(s: &str) -> (r: [u8; 32])
    ensures
        r@ == keccak_of(encode_utf8(s@)),
{
    keccak256(s.as_bytes())
}

/// Appends the 32-byte encoding of `v`.
fn push_word(out: &mut Vec<u8>, v: &FieldValue)
    requires
        old(out)@.len() + 32 <= usize::MAX,
    ensures
        final(out)@ == old(out)@ + encode_word(v@),
        final(out)@.len() == old(out)@.len() + 32,
{
    match v {
        FieldValue::Str(s) => {
            let h = keccak_str(s.as_str());
            push_all(out, &h);
        },
        FieldValue::Bool(b) => {
            push_zeros(out, 31);
            let ghost mid = out@;
            out.push(if *b { 1u8 } else { 0u8 });
            assert(out@ == mid + seq![if *b { 1u8 } else { 0u8 }]);
        },
        FieldValue::Uint64(n) => {
            push_zeros(out, 24);
            push_be_u64(out, *n);
        },
        FieldValue::Address(a) => {
            push_zeros(out, 12);
            push_all(out, a);
        },
        FieldValue::Bytes32(h) => {
            push_all(out, h);
        },
    }
}

/// The EIP-712 encoding of the values, in order.
pub fn encode_data(values: &Vec<FieldValue>) -> (r: Vec<u8>)
    requires
        32 * values@.len() + 32 <= usize::MAX,
    ensures
        r@ == encode_values(value_views(values@)),
        r@.len() == 32 * values@.len(),
{
    let ghost vs = value_views(values@);
    let mut out: Vec<u8> = Vec::new();
    let mut i: usize = 0;
    while i < values.len()
        invariant
            i <= values@.len(),
            32 * values@.len() + 32 <= usize::MAX,
            vs == value_views(values@),
            out@.len() == 32 * i,
            out@ == encode_values(vs.subrange(0, i as int)),
        decreases values@.len() - i,
    {
        push_word(&mut out, &values[i]);
        proof {
            let sub = vs.subrange(0, i + 1);
            assert(sub.drop_last() == vs.subrange(0, i as int));
            assert(sub.last() == values@[i as int]@);
        }
        i = i + 1;
    }
    assert(vs.subrange(0, vs.len() as int) == vs);
    out
}

impl FieldValue {
    /// The kind of this value.
    pub fn kind(&self) -> (r: FieldKind)
        ensures
            r == value_kind(self@),
    {
        match self {
            FieldValue::Str(_) => FieldKind::Str,
            FieldValue::Bool(_) => FieldKind::Bool,
            FieldValue::Uint64(_) => FieldKind::Uint64,
            FieldValue::Address(_) => FieldKind::Address,
            FieldValue::Bytes32(_) => FieldKind::Bytes32,
        }
    }
}

/// Whether the values match the schema's fields one for one, kind for kind.
pub fn payload_matches(schema: &TypeSchema, payload: &Vec<FieldValue>) -> (r: bool)
    ensures
        r == payload_fits(schema@, value_views(payload@)),
{
    if payload.len() != schema.fields.len() {
        return false;
    }
    let mut i: usize = 0;
    while i < payload.len()
        invariant
            i <= payload@.len(),
            payload@.len() == schema@.fields.len(),
            forall|j: int|
                0 <= j < i ==> value_kind(#[trigger] value_views(payload@)[j])
                    == schema@.fields[j].0,
        decreases payload@.len() - i,
    {
        if payload[i].kind() != schema.fields[i].kind {
            assert(value_views(payload@)[i as int] == payload@[i as int]@);
            assert(schema@.fields[i as int] == schema.fields@[i as int]@);
            return false;
        }
        assert(value_views(payload@)[i as int] == payload@[i as int]@);
        assert(schema@.fields[i as int] == schema.fields@[i as int]@);
        i = i + 1;
    }
    true
}

/// `keccak(keccak(type string) ++ encoded values)`.
pub fn struct_hash_of(type_str: &str, values: &Vec<FieldValue>) -> (r: [u8; 32])
    requires
        32 * values@.len() + 32 <= usize::MAX,
    ensures
        r@ == struct_hash(type_str@, value_views(values@)),
{
    let data = encode_data(values);
    let th = keccak_str(type_str);
    let mut buf: Vec<u8> = Vec::new();
    push_all(&mut buf, &th);
    push_all(&mut buf, data.as_slice());
    keccak256(buf.as_slice())
}

/// The separator of the domain with the given name, version and chain id and
/// the zero verifying contract.
pub fn domain_separator_of(name: &str, version: &str, chain_id: u64) -> (r: [u8; 32])
    ensures
        r@ == domain_separator(name@, version@, chain_id),
{
    let mut buf: Vec<u8> = Vec::new();
    let t = keccak_str(
        "EIP712Domain(string name,string version,uint256 chainId,address verifyingContract)",
    );
    push_all(&mut buf, &t);
    let n = keccak_str(name);
    push_all(&mut buf, &n);
    let v = keccak_str(version);
    push_all(&mut buf, &v);
    push_zeros(&mut buf, 24);
    push_be_u64(&mut buf, chain_id);
    push_zeros(&mut buf, 32);
    keccak256(buf.as_slice())
}

/// `keccak(0x19 0x01 ++ domain separator ++ struct hash)`.
pub fn signing_hash_of(domain_sep: &[u8; 32], struct_h: &[u8; 32]) -> (r: [u8; 32])
    ensures
        r@ == signing_hash(domain_sep@, struct_h@),
{
    let mut buf: Vec<u8> = Vec::new();
    buf.push(0x19u8);
    buf.push(0x01u8);
    assert(buf@ == seq![0x19u8, 0x01u8]);
    push_all(&mut buf, domain_sep);
    push_all(&mut buf, struct_h);
    keccak256(buf.as_slice())
}

/// A signing domain: its name, version and chain id; the verifying contract is
/// always the zero address.
pub struct SigningDomain {
    pub name: String,
    pub version: String,
    pub chain_id: u64,
}

impl SigningDomain {
    /// The fixed domain of raw actions: `Exchange`, version 1, chain 1337.
    pub fn exchange() -> (r: SigningDomain)
        ensures
            r.name@ == "Exchange"@,
            r.version@ == "1"@,
            r.chain_id == 1337,
    {
        SigningDomain { name: "Exchange".to_owned(), version: "1".to_owned(), chain_id: 1337 }
    }

    /// The domain of user-signed transactions on chain `chain_id`.
    pub fn transaction(chain_id: u64) -> (r: SigningDomain)
        ensures
            r.name@ == "HyperliquidSignTransaction"@,
            r.version@ == "1"@,
            r.chain_id == chain_id,
    {
        SigningDomain {
            name: "HyperliquidSignTransaction".to_owned(),
            version: "1".to_owned(),
            chain_id,
        }
    }

    /// This domain's separator.
    pub fn separator(&self) -> (r: [u8; 32])
        ensures
            r@ == domain_separator(self.name@, self.version@, self.chain_id),
    {
        domain_separator_of(self.name.as_str(), self.version.as_str(), self.chain_id)
    }
}

/// The signing hash of the struct with type string `type_str` and field values
/// `data` in the domain whose separator is `domain_sep`.
pub fn hyperliquid_signing_hash(type_str: &str, data: &Vec<FieldValue>, domain_sep: &[u8; 32]) -> (r:
    [u8; 32])
    requires
        32 * data@.len() + 32 <= usize::MAX,
    ensures
        r@ == signing_hash(domain_sep@, struct_hash(type_str@, value_views(data@))),
{
    let sh = struct_hash_of(type_str, data);
    signing_hash_of(domain_sep, &sh)
}

/// The signing hash of the struct with type string `type_str` and field values
/// `data` in the transaction domain of chain `sig_chain`.
pub fn hyperliquid_signing_hash_with_default_domain(
    type_str: &str,
    data: &Vec<FieldValue>,
    sig_chain: u64,
) -> (r: [u8; 32])
    requires
        32 * data@.len() + 32 <= usize::MAX,
    ensures
        r@ == signing_hash(transaction_domain(sig_chain), struct_hash(type_str@, value_views(data@))),
{
    let domain = SigningDomain::transaction(sig_chain);
    let sep = domain.separator();
    hyperliquid_signing_hash(type_str, data, &sep)
}

/// The typed-struct signing hash of `payload` under `schema` on chain `chain_id`.
pub fn typed_hash_on_chain(schema: &TypeSchema, payload: &Vec<FieldValue>, chain_id: u64) -> (r:
    [u8; 32])
    requires
        32 * payload@.len() + 32 <= usize::MAX,
    ensures
        r@ == typed_hash(schema@, value_views(payload@), chain_id),
{
    let type_str = canonical_type_string(schema);
    hyperliquid_signing_hash_with_default_domain(type_str.as_str(), payload, chain_id)
}

/// The typed-struct signing hash of `payload` under `schema`, in the domain of
/// the chain that `sig_chain_id` names.
pub fn hash_typed_struct(schema: &TypeSchema, payload: &Vec<FieldValue>, sig_chain_id: &str) -> (r:
    Result<[u8; 32], HashError>)
    requires
        32 * payload@.len() + 32 <= usize::MAX,
    ensures
        r == Err::<[u8; 32], HashError>(HashError::InvalidChainId) <==> chain_id_value(
            sig_chain_id@,
        ) is None,
        r == Err::<[u8; 32], HashError>(HashError::PayloadMismatch) <==> chain_id_value(
            sig_chain_id@,
        ) is Some && !payload_fits(schema@, value_views(payload@)),
        r is Ok <==> chain_id_value(sig_chain_id@) is Some && payload_fits(
            schema@,
            value_views(payload@),
        ),
        r matches Ok(h) ==> h@ == typed_hash(
            schema@,
            value_views(payload@),
            chain_id_value(sig_chain_id@)->Some_0,
        ),
{
    let chain_id = match parse_chain_id(sig_chain_id) {
        Ok(c) => c,
        Err(_) => {
            return Err(HashError::InvalidChainId);
        },
    };
    if !payload_matches(schema, payload) {
        return Err(HashError::PayloadMismatch);
    }
    Ok(typed_hash_on_chain(schema, payload, chain_id))
}

/// The message signed for a raw action: the network's source letter and the
/// fingerprint of the serialized action.
pub struct Agent {
    pub source: String,
    pub connection_id: [u8; 32],
}

impl Agent {
    /// The signing hash of this message in `domain`.
    pub fn hyperliquid_signing_hash(&self, domain: &SigningDomain) -> (r: [u8; 32])
        ensures
            r@ == signing_hash(
                domain_separator(domain.name@, domain.version@, domain.chain_id),
                struct_hash(
                    agent_type(),
                    seq![ValueView::Str(self.source@), ValueView::Bytes32(self.connection_id@)],
                ),
            ),
    {
        let values = vec![
            FieldValue::Str(self.source.clone()),
            FieldValue::Bytes32(self.connection_id),
        ];
        assert(value_views(values@) =~= seq![
            ValueView::Str(self.source@),
            ValueView::Bytes32(self.connection_id@),
        ]);
        let sep = domain.separator();
        hyperliquid_signing_hash("Agent(string source,bytes32 connectionId)", &values, &sep)
    }
}

/// The agent message and the domain under which a serialized action is signed.
pub fn generate_action_params(action: &[u8], is_mainnet: bool, nonce: u64) -> (r: (
    Agent,
    SigningDomain,
))
    requires
        action@.len() + 9 <= usize::MAX,
    ensures
        r.0.source@ == agent_source(is_mainnet),
        r.0.connection_id@ == connection_id(action@, nonce),
        r.1.name@ == "Exchange"@,
        r.1.version@ == "1"@,
        r.1.chain_id == 1337,
{
    let mut buf: Vec<u8> = Vec::new();
    push_all(&mut buf, action);
    push_be_u64(&mut buf, nonce);
    buf.push(0u8);
    assert(buf@ =~= action@ + be_u64(nonce) + seq![0u8]);
    let cid = keccak256(buf.as_slice());
    let source = if is_mainnet {
        "a".to_owned()
    } else {
        "b".to_owned()
    };
    (Agent { source, connection_id: cid }, SigningDomain::exchange())
}

/// The raw-action signing hash of the serialized action `action` with `nonce`.
pub fn hash_raw_action(action: &[u8], is_mainnet: bool, nonce: u64) -> (r: [u8; 32])
    requires
        action@.len() + 9 <= usize::MAX,
    ensures
        r@ == raw_action_hash(action@, is_mainnet, nonce),
{
    let (agent, domain) = generate_action_params(action, is_mainnet, nonce);
    agent.hyperliquid_signing_hash(&domain)
}

/// Two different nonces give two different byte strings to digest into the
/// connection id of the same action.
pub proof fn lemma_nonce_changes_connection_preimage(action: Seq<u8>, n1: u64, n2: u64)
    requires
        n1 != n2,
    ensures
        connection_preimage(action, n1) != connection_preimage(action, n2),
{
    let pre_a = connection_preimage(action, n1);
    let pre_b = connection_preimage(action, n2);
    if pre_a == pre_b {
        assert(be_u64(n1) =~= pre_a.subrange(action.len() as int, action.len() + 8int));
        assert(be_u64(n2) =~= pre_b.subrange(action.len() as int, action.len() + 8int));
        lemma_be_u64_injective(n1, n2);
    }
}

/// Two different chain ids give two different byte strings to digest into the
/// separator of a domain with the same name and version.
pub proof fn lemma_chain_id_changes_domain_preimage(
    name: Seq<char>,
    version: Seq<char>,
    c1: u64,
    c2: u64,
)
    requires
        c1 != c2,
    ensures
        domain_preimage(name, version, c1) != domain_preimage(name, version, c2),
{
    let pre_a = domain_preimage(name, version, c1);
    let pre_b = domain_preimage(name, version, c2);
    if pre_a == pre_b {
        let head = keccak_of(encode_utf8(domain_type())) + keccak_of(encode_utf8(name)) + keccak_of(
            encode_utf8(version),
        );
        let at = head.len() + 24int;
        assert(be_u64(c1) =~= pre_a.subrange(at, at + 8));
        assert(be_u64(c2) =~= pre_b.subrange(at, at + 8));
        lemma_be_u64_injective(c1, c2);
    }
}

/// Equal big-endian encodings come from equal numbers.
pub proof fn lemma_be_u64_injective(a: u64, b: u64)
    requires
        be_u64(a) == be_u64(b),
    ensures
        a == b,
{
    assert(be_u64(a)[0] == (a >> 56u64) as u8);
    assert(be_u64(b)[0] == (b >> 56u64) as u8);
    assert(be_u64(a)[0] == be_u64(b)[0]);
    assert(be_u64(a)[1] == (a >> 48u64) as u8);
    assert(be_u64(b)[1] == (b >> 48u64) as u8);
    assert(be_u64(a)[1] == be_u64(b)[1]);
    assert(be_u64(a)[2] == (a >> 40u64) as u8);
    assert(be_u64(b)[2] == (b >> 40u64) as u8);
    assert(be_u64(a)[2] == be_u64(b)[2]);
    assert(be_u64(a)[3] == (a >> 32u64) as u8);
    assert(be_u64(b)[3] == (b >> 32u64) as u8);
    assert(be_u64(a)[3] == be_u64(b)[3]);
    assert(be_u64(a)[4] == (a >> 24u64) as u8);
    assert(be_u64(b)[4] == (b >> 24u64) as u8);
    assert(be_u64(a)[4] == be_u64(b)[4]);
    assert(be_u64(a)[5] == (a >> 16u64) as u8);
    assert(be_u64(b)[5] == (b >> 16u64) as u8);
    assert(be_u64(a)[5] == be_u64(b)[5]);
    assert(be_u64(a)[6] == (a >> 8u64) as u8);
    assert(be_u64(b)[6] == (b >> 8u64) as u8);
    assert(be_u64(a)[6] == be_u64(b)[6]);
    assert(be_u64(a)[7] == (a >> 0u64) as u8);
    assert(be_u64(b)[7] == (b >> 0u64) as u8);
    assert(be_u64(a)[7] == be_u64(b)[7]);
    assert(a == b) by (bit_vector)
        requires
            (a >> 56u64) as u8 == (b >> 56u64) as u8,
            (a >> 48u64) as u8 == (b >> 48u64) as u8,
            (a >> 40u64) as u8 == (b >> 40u64) as u8,
            (a >> 32u64) as u8 == (b >> 32u64) as u8,
            (a >> 24u64) as u8 == (b >> 24u64) as u8,
            (a >> 16u64) as u8 == (b >> 16u64) as u8,
            (a >> 8u64) as u8 == (b >> 8u64) as u8,
            (a >> 0u64) as u8 == (b >> 0u64) as u8,
    ;
}

} // verus!

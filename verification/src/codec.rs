//! The encodings that the fork takes from other crates: XDR, base64, SHA-256
//! and ed25519. Each function here is one call into such a crate, from plain
//! values to plain values.
//!
//! XDR values that the fork does not look into are held as their XDR bytes.
//! The bytes that these functions hand out are what `to_xdr` writes.

use vstd::prelude::*;

use base64::Engine;
use sha2::Digest;
use soroban_env_host::xdr;
use soroban_env_host::xdr::{Limits, ReadXdr, WriteXdr};

use crate::ledger::{
    AccountEntry, AccountView, ContractDataEntry, ContractDataView, TrustLineEntry, TrustLineView,
};
use crate::scval::{AddressView, ScAddress};

verus! {

// ---------------------------------------------------------------------------
// Base64, SHA-256, ed25519
// ---------------------------------------------------------------------------

/// What base64's standard engine decodes from a text: the bytes, or the
/// message of its error.
pub uninterp spec fn base64_decoded(s: Seq<char>) -> Result<Seq<u8>, Seq<char>>;

/// What base64's standard engine makes of some bytes.
pub uninterp spec fn base64_encoded(bytes: Seq<u8>) -> Seq<char>;

/// The SHA-256 digest of some bytes.
pub uninterp spec fn sha256_of(bytes: Seq<u8>) -> Seq<u8>;

/// The ed25519 public key of a seed.
pub uninterp spec fn ed25519_public_of(seed: Seq<u8>) -> Seq<u8>;

/// The view of a byte-string result.
pub open spec fn bytes_result(r: Result<Vec<u8>, String>) -> Result<Seq<u8>, Seq<char>> {
    match r {
        Ok(b) => Ok(b@),
        Err(e) => Err(e@),
    }
}

/// The view of an optional byte string.
pub open spec fn bytes_option(r: Option<Vec<u8>>) -> Option<Seq<u8>> {
    match r {
        Some(b) => Some(b@),
        None => None,
    }
}

/// A byte string that was decoded without error.
pub open spec fn intact(bytes: Seq<u8>) -> Result<Seq<u8>, Seq<char>> {
    Ok(bytes)
}

/// Whether a text is the base64 of these bytes and decodes to them.
pub open spec fn carries(text: Seq<char>, bytes: Seq<u8>) -> bool {
    text == base64_encoded(bytes) && base64_decoded(text) == intact(bytes)
}

/// Calls `decode` of base64's standard engine.
#[verifier::external_body]
pub(crate) fn base64_decode(s: &str) -> (r: Result<Vec<u8>, String>)
    ensures
        bytes_result(r) == base64_decoded(s@),
{
    base64::engine::general_purpose::STANDARD.decode(s).map_err(|e| e.to_string())
}

/// Calls `encode` of base64's standard engine; decoding gives the bytes back.
#[verifier::external_body]
pub(crate) fn base64_encode(bytes: &[u8]) -> (r: String)
    ensures
        r@ == base64_encoded(bytes@),
        base64_decoded(r@) == intact(bytes@),
{
    base64::engine::general_purpose::STANDARD.encode(bytes)
}

/// Calls `Sha256::digest`.
#[verifier::external_body]
pub(crate) fn sha256(bytes: &[u8]) -> (r: [u8; 32])
    ensures
        r@ == sha256_of(bytes@),
{
    sha2::Sha256::digest(bytes).into()
}

/// Calls `SigningKey::from_bytes` and gives the bytes of its verifying key.
#[verifier::external_body]
pub(crate) fn ed25519_public(seed: &[u8; 32]) -> (r: [u8; 32])
    ensures
        r@ == ed25519_public_of(seed@),
{
    ed25519_dalek::SigningKey::from_bytes(seed).verifying_key().to_bytes()
}

// ---------------------------------------------------------------------------
// Ledger keys
// ---------------------------------------------------------------------------

/// A 32-bit number as four bytes, most significant first.
pub open spec fn be32(n: int) -> Seq<u8> {
    seq![
        (n / 0x100_0000 % 0x100) as u8,
        (n / 0x1_0000 % 0x100) as u8,
        (n / 0x100 % 0x100) as u8,
        (n % 0x100) as u8,
    ]
}

/// How long an entry of contract storage lives.
#[derive(Debug, Clone, Copy, PartialEq, Eq, Structural)]
pub enum Durability {
    Temporary,
    Persistent,
}

/// An asset that a trustline can hold.
#[derive(Debug, Clone, Copy, PartialEq, Eq)]
#[allow(inconsistent_fields)]
pub enum TrustLineAsset {
    Native,
    CreditAlphanum4 { code: [u8; 4], issuer: [u8; 32] },
    CreditAlphanum12 { code: [u8; 12], issuer: [u8; 32] },
    PoolShare([u8; 32]),
}

/// The six network settings that make up the fee schedule.
#[derive(Debug, Clone, Copy, PartialEq, Eq, Structural)]
pub enum ConfigSettingId {
    ContractComputeV0,
    ContractLedgerCostV0,
    ContractLedgerCostExtV0,
    ContractHistoricalDataV0,
    ContractEventsV0,
    ContractBandwidthV0,
}

/// The XDR of an asset.
pub open spec fn asset_xdr(a: TrustLineAsset) -> Seq<u8> {
    match a {
        TrustLineAsset::Native => be32(0),
        TrustLineAsset::CreditAlphanum4 { code, issuer } => be32(1) + code@ + be32(0) + issuer@,
        TrustLineAsset::CreditAlphanum12 { code, issuer } => be32(2) + code@ + be32(0) + issuer@,
        TrustLineAsset::PoolShare(h) => be32(3) + h@,
    }
}

/// The XDR of an account's ledger key: the entry type, the key type, the key.
pub open spec fn account_key_xdr(account: Seq<u8>) -> Seq<u8> {
    be32(0) + be32(0) + account
}

/// The XDR of a trustline's ledger key.
pub open spec fn trustline_key_xdr(account: Seq<u8>, asset: Seq<u8>) -> Seq<u8> {
    be32(1) + be32(0) + account + asset
}

/// The XDR of the address of a contract.
pub open spec fn contract_address_xdr(contract: Seq<u8>) -> Seq<u8> {
    be32(1) + contract
}

/// Whether some bytes are the XDR of an asset.
pub open spec fn is_asset(x: Seq<u8>) -> bool {
    exists|a: TrustLineAsset| x == #[trigger] asset_xdr(a)
}

/// Whether some bytes are the XDR of the address of a contract.
pub open spec fn is_contract_address(x: Seq<u8>) -> bool {
    exists|c: Seq<u8>| c.len() == 32 && x == #[trigger] contract_address_xdr(c)
}

/// The XDR of the value that stands for a contract's own instance entry.
pub open spec fn instance_key_scval() -> Seq<u8> {
    be32(20)
}

/// The XDR of a contract storage key.
pub open spec fn contract_data_key_xdr(
    contract: Seq<u8>,
    key: Seq<u8>,
    durability: Durability,
) -> Seq<u8> {
    be32(6) + contract_address_xdr(contract) + key + be32(
        match durability {
            Durability::Temporary => 0,
            Durability::Persistent => 1,
        },
    )
}

/// The XDR of a contract code key.
pub open spec fn contract_code_key_xdr(hash: Seq<u8>) -> Seq<u8> {
    be32(7) + hash
}

/// The number of a network setting.
pub open spec fn setting_number(id: ConfigSettingId) -> int {
    match id {
        ConfigSettingId::ContractComputeV0 => 1,
        ConfigSettingId::ContractLedgerCostV0 => 2,
        ConfigSettingId::ContractLedgerCostExtV0 => 15,
        ConfigSettingId::ContractHistoricalDataV0 => 3,
        ConfigSettingId::ContractEventsV0 => 4,
        ConfigSettingId::ContractBandwidthV0 => 5,
    }
}

/// The XDR of a network setting's ledger key.
pub open spec fn config_setting_key_xdr(id: ConfigSettingId) -> Seq<u8> {
    be32(8) + be32(setting_number(id))
}

/// What a ledger key identifies, as far as it is shown.
pub enum KeyParts {
    Account(Seq<u8>),
    Trustline(Seq<u8>),
    ContractData { contract: AddressView, key: Seq<u8>, durability: Durability },
    ContractCode(Seq<u8>),
    ConfigSetting,
    Ttl,
    Other,
}

/// The kind of a ledger key.
#[derive(Debug, Clone, Copy, PartialEq, Eq, Structural)]
pub enum KeyKind {
    Account,
    Trustline,
    ContractData,
    ContractCode,
    ConfigSetting,
    Ttl,
    Other,
}

/// What `LedgerKey::from_xdr` followed by `to_xdr` makes of some bytes: the
/// key's own XDR, or the message of the decoding error.
pub uninterp spec fn canonical_key_of(xdr: Seq<u8>) -> Result<Seq<u8>, Seq<char>>;

/// The kind of the ledger key that some bytes encode; bytes that encode none
/// are of the last kind.
pub uninterp spec fn key_kind_of(xdr: Seq<u8>) -> KeyKind;

/// The owner that the key of an account or trustline names.
pub uninterp spec fn key_owner_of(xdr: Seq<u8>) -> Option<Seq<u8>>;

/// The hash that a contract code key names.
pub uninterp spec fn key_hash_of(xdr: Seq<u8>) -> Option<Seq<u8>>;

/// The contract, storage key and durability that a contract storage key names.
pub uninterp spec fn key_storage_of(xdr: Seq<u8>) -> Option<(AddressView, Seq<u8>, Durability)>;

/// What a ledger key identifies.
pub open spec fn key_parts_of(xdr: Seq<u8>) -> KeyParts {
    match key_kind_of(xdr) {
        KeyKind::Account => KeyParts::Account(key_owner_of(xdr)->0),
        KeyKind::Trustline => KeyParts::Trustline(key_owner_of(xdr)->0),
        KeyKind::ContractData => {
            let (contract, key, durability) = key_storage_of(xdr)->0;
            KeyParts::ContractData { contract, key, durability }
        },
        KeyKind::ContractCode => KeyParts::ContractCode(key_hash_of(xdr)->0),
        KeyKind::ConfigSetting => KeyParts::ConfigSetting,
        KeyKind::Ttl => KeyParts::Ttl,
        KeyKind::Other => KeyParts::Other,
    }
}

/// Decodes a ledger key with `LedgerKey::from_xdr` and encodes it again with
/// `to_xdr`. What comes out is left as it is by a second pass.
#[verifier::external_body]
pub(crate) fn canonical_key(xdr: &[u8]) -> (r: Result<Vec<u8>, String>)
    ensures
        bytes_result(r) == canonical_key_of(xdr@),
        r matches Ok(k) ==> canonical_key_of(k@) == intact(k@),
{
    let key = xdr::LedgerKey::from_xdr(xdr, Limits::none()).map_err(|e| e.to_string())?;
    key.to_xdr(Limits::none()).map_err(|e| e.to_string())
}

/// How one key stands to another.
#[derive(Debug, Clone, Copy, PartialEq, Eq, Structural)]
pub enum KeyOrder {
    Less,
    Equal,
    Greater,
}

/// The order of two keys, seen from the second one.
pub open spec fn turned(o: KeyOrder) -> KeyOrder {
    match o {
        KeyOrder::Less => KeyOrder::Greater,
        KeyOrder::Equal => KeyOrder::Equal,
        KeyOrder::Greater => KeyOrder::Less,
    }
}

/// How the keys that two byte strings encode are ordered by `Ord` of
/// `LedgerKey`; equal where one of them encodes no key.
pub uninterp spec fn key_order_of(a: Seq<u8>, b: Seq<u8>) -> KeyOrder;

/// Whether the key that one byte string encodes comes before the other's.
pub open spec fn key_before(a: Seq<u8>, b: Seq<u8>) -> bool {
    key_order_of(a, b) == KeyOrder::Less
}

/// Decodes two ledger keys with `LedgerKey::from_xdr` and compares them with
/// `Ord`, which is a total order: it is turned around with its arguments, it
/// is transitive, and only the same key is equal.
#[verifier::external_body]
pub(crate) fn key_order(a: &[u8], b: &[u8]) -> (r: KeyOrder)
    ensures
        r == key_order_of(a@, b@),
        key_order_of(b@, a@) == turned(r),
        r == KeyOrder::Less ==> forall|c: Seq<u8>| key_before(c, a@) ==> #[trigger] key_before(c, b@),
        r == KeyOrder::Greater ==> forall|c: Seq<u8>| key_before(a@, c) ==> #[trigger] key_before(b@, c),
        r == KeyOrder::Equal && canonical_key_of(a@) == intact(a@) && canonical_key_of(b@) == intact(b@)
            ==> a@ == b@,
{
    match (xdr::LedgerKey::from_xdr(a, Limits::none()), xdr::LedgerKey::from_xdr(b, Limits::none())) {
        (Ok(a), Ok(b)) => match a.cmp(&b) {
            std::cmp::Ordering::Less => KeyOrder::Less,
            std::cmp::Ordering::Equal => KeyOrder::Equal,
            std::cmp::Ordering::Greater => KeyOrder::Greater,
        },
        _ => KeyOrder::Equal,
    }
}

/// Decodes a ledger key with `LedgerKey::from_xdr` and tells its kind.
#[verifier::external_body]
pub(crate) fn key_kind(xdr: &[u8]) -> (r: KeyKind)
    ensures
        r == key_kind_of(xdr@),
{
    match xdr::LedgerKey::from_xdr(xdr, Limits::none()) {
        Ok(xdr::LedgerKey::Account(_)) => KeyKind::Account,
        Ok(xdr::LedgerKey::Trustline(_)) => KeyKind::Trustline,
        Ok(xdr::LedgerKey::ContractData(_)) => KeyKind::ContractData,
        Ok(xdr::LedgerKey::ContractCode(_)) => KeyKind::ContractCode,
        Ok(xdr::LedgerKey::ConfigSetting(_)) => KeyKind::ConfigSetting,
        Ok(xdr::LedgerKey::Ttl(_)) => KeyKind::Ttl,
        _ => KeyKind::Other,
    }
}

/// Decodes a ledger key with `LedgerKey::from_xdr` and gives the account that
/// an account or trustline key names.
#[verifier::external_body]
pub(crate) fn key_owner(xdr: &[u8]) -> (r: Option<[u8; 32]>)
    ensures
        array_option(r) == key_owner_of(xdr@),
        (key_kind_of(xdr@) == KeyKind::Account || key_kind_of(xdr@) == KeyKind::Trustline) ==> r is Some,
{
    let id = match xdr::LedgerKey::from_xdr(xdr, Limits::none()) {
        Ok(xdr::LedgerKey::Account(k)) => k.account_id,
        Ok(xdr::LedgerKey::Trustline(k)) => k.account_id,
        _ => return None,
    };
    let xdr::PublicKey::PublicKeyTypeEd25519(key) = id.0;
    Some(key.0)
}

/// Decodes a ledger key with `LedgerKey::from_xdr` and gives the hash that a
/// contract code key names.
#[verifier::external_body]
pub(crate) fn key_hash(xdr: &[u8]) -> (r: Option<[u8; 32]>)
    ensures
        array_option(r) == key_hash_of(xdr@),
        key_kind_of(xdr@) == KeyKind::ContractCode ==> r is Some,
{
    match xdr::LedgerKey::from_xdr(xdr, Limits::none()) {
        Ok(xdr::LedgerKey::ContractCode(k)) => Some(k.hash.0),
        _ => None,
    }
}

/// Decodes a ledger key with `LedgerKey::from_xdr` and gives the parts of a
/// contract storage key, the storage key as XDR.
#[verifier::external_body]
pub(crate) fn key_storage(xdr: &[u8]) -> (r: Option<(ScAddress, Vec<u8>, Durability)>)
    ensures
        storage_option(r) == key_storage_of(xdr@),
        key_kind_of(xdr@) == KeyKind::ContractData ==> r is Some,
{
    let Ok(xdr::LedgerKey::ContractData(k)) = xdr::LedgerKey::from_xdr(xdr, Limits::none()) else { return None };
    let contract = match k.contract {
        xdr::ScAddress::Account(xdr::AccountId(xdr::PublicKey::PublicKeyTypeEd25519(id))) => ScAddress::Account(id.0),
        xdr::ScAddress::Contract(id) => ScAddress::Contract(id.0 .0),
        other => ScAddress::Other(other.to_xdr(Limits::none()).ok()?),
    };
    let durability = match k.durability {
        xdr::ContractDataDurability::Temporary => Durability::Temporary,
        xdr::ContractDataDurability::Persistent => Durability::Persistent,
    };
    Some((contract, k.key.to_xdr(Limits::none()).ok()?, durability))
}

/// The view of an optional array.
pub open spec fn array_option(r: Option<[u8; 32]>) -> Option<Seq<u8>> {
    match r {
        Some(a) => Some(a@),
        None => None,
    }
}

/// The view of the parts of a contract storage key.
pub open spec fn storage_option(
    r: Option<(ScAddress, Vec<u8>, Durability)>,
) -> Option<(AddressView, Seq<u8>, Durability)> {
    match r {
        Some((c, k, d)) => Some((c@, k@, d)),
        None => None,
    }
}

/// What `ScVal::from_xdr` followed by `to_xdr` makes of some bytes: the
/// value's own XDR, or the message of the decoding error.
pub uninterp spec fn canonical_scval_of(xdr: Seq<u8>) -> Result<Seq<u8>, Seq<char>>;

/// Decodes a contract value with `ScVal::from_xdr` and encodes it again with
/// `to_xdr`. What comes out is left as it is by a second pass.
#[verifier::external_body]
pub(crate) fn canonical_scval(xdr: &[u8]) -> (r: Result<Vec<u8>, String>)
    ensures
        bytes_result(r) == canonical_scval_of(xdr@),
        r matches Ok(v) ==> canonical_scval_of(v@) == intact(v@),
{
    let value = xdr::ScVal::from_xdr(xdr, Limits::none()).map_err(|e| e.to_string())?;
    value.to_xdr(Limits::none()).map_err(|e| e.to_string())
}

/// Encodes the value that stands for a contract's own instance entry with
/// `to_xdr`, which cannot fail on a value of fixed size.
#[verifier::external_body]
pub(crate) fn encode_instance_key_scval() -> (r: Vec<u8>)
    ensures
        r@ == instance_key_scval(),
        canonical_scval_of(r@) == intact(r@),
{
    xdr::ScVal::LedgerKeyContractInstance.to_xdr(Limits::none()).expect("fixed-size XDR")
}

/// What the key of an entry of a contract's storage identifies.
pub open spec fn storage_parts(contract: Seq<u8>, key: Seq<u8>, durability: Durability) -> KeyParts {
    KeyParts::ContractData { contract: AddressView::Contract(contract), key, durability }
}

/// Encodes a `LedgerKey::ContractData` of a contract with `to_xdr`. The
/// storage key is decoded with `ScVal::from_xdr` first; the call fails
/// exactly where that does. Decoding gives the parts back, and encoding them
/// again the same XDR.
#[verifier::external_body]
pub(crate) fn encode_contract_data_key(contract: &[u8; 32], key: &[u8], durability: Durability) -> (r:
    Option<Vec<u8>>)
    ensures
        r is Some <==> canonical_scval_of(key@) is Ok,
        r matches Some(k) ==> k@ == contract_data_key_xdr(contract@, canonical_scval_of(key@)->Ok_0, durability),
        r matches Some(k) ==> key_parts_of(k@) == storage_parts(contract@, canonical_scval_of(key@)->Ok_0, durability),
        r matches Some(k) ==> canonical_key_of(k@) == intact(k@),
{
    let durability = match durability {
        Durability::Temporary => xdr::ContractDataDurability::Temporary,
        Durability::Persistent => xdr::ContractDataDurability::Persistent,
    };
    let key = xdr::LedgerKey::ContractData(xdr::LedgerKeyContractData {
        contract: xdr::ScAddress::Contract(xdr::ContractId(xdr::Hash(*contract))),
        key: xdr::ScVal::from_xdr(key, Limits::none()).ok()?,
        durability,
    });
    key.to_xdr(Limits::none()).ok()
}

/// Encodes a `LedgerKey::Trustline` with `to_xdr`, which cannot fail on a
/// value of fixed size. Decoding gives the parts back, and encoding them again
/// the same XDR.
#[verifier::external_body]
pub(crate) fn encode_trustline_key(account: &[u8; 32], asset: &TrustLineAsset) -> (r: Vec<u8>)
    ensures
        r@ == trustline_key_xdr(account@, asset_xdr(*asset)),
        key_parts_of(r@) == KeyParts::Trustline(account@),
        canonical_key_of(r@) == intact(r@),
{
    let id = |k: &[u8; 32]| xdr::AccountId(xdr::PublicKey::PublicKeyTypeEd25519(xdr::Uint256(*k)));
    let asset = match asset {
        TrustLineAsset::Native => xdr::TrustLineAsset::Native,
        TrustLineAsset::CreditAlphanum4 { code, issuer } => xdr::TrustLineAsset::CreditAlphanum4(
            xdr::AlphaNum4 { asset_code: xdr::AssetCode4(*code), issuer: id(issuer) },
        ),
        TrustLineAsset::CreditAlphanum12 { code, issuer } => xdr::TrustLineAsset::CreditAlphanum12(
            xdr::AlphaNum12 { asset_code: xdr::AssetCode12(*code), issuer: id(issuer) },
        ),
        TrustLineAsset::PoolShare(h) => xdr::TrustLineAsset::PoolShare(xdr::PoolId(xdr::Hash(*h))),
    };
    let key = xdr::LedgerKey::Trustline(xdr::LedgerKeyTrustLine { account_id: id(account), asset });
    key.to_xdr(Limits::none()).expect("fixed-size XDR")
}

/// Encodes a `TrustLineAsset` with `to_xdr`, which cannot fail on a value of
/// fixed size.
#[verifier::external_body]
pub(crate) fn encode_asset(asset: &TrustLineAsset) -> (r: Vec<u8>)
    ensures
        r@ == asset_xdr(*asset),
{
    let id = |k: &[u8; 32]| xdr::AccountId(xdr::PublicKey::PublicKeyTypeEd25519(xdr::Uint256(*k)));
    let asset = match asset {
        TrustLineAsset::Native => xdr::TrustLineAsset::Native,
        TrustLineAsset::CreditAlphanum4 { code, issuer } => xdr::TrustLineAsset::CreditAlphanum4(
            xdr::AlphaNum4 { asset_code: xdr::AssetCode4(*code), issuer: id(issuer) },
        ),
        TrustLineAsset::CreditAlphanum12 { code, issuer } => xdr::TrustLineAsset::CreditAlphanum12(
            xdr::AlphaNum12 { asset_code: xdr::AssetCode12(*code), issuer: id(issuer) },
        ),
        TrustLineAsset::PoolShare(h) => xdr::TrustLineAsset::PoolShare(xdr::PoolId(xdr::Hash(*h))),
    };
    asset.to_xdr(Limits::none()).expect("fixed-size XDR")
}

/// Encodes a `LedgerKey::Account` with `to_xdr`, which cannot fail on a value
/// of fixed size. Decoding gives the parts back, and encoding them again the
/// same XDR.
#[verifier::external_body]
pub(crate) fn encode_account_key(account: &[u8; 32]) -> (r: Vec<u8>)
    ensures
        r@ == account_key_xdr(account@),
        key_parts_of(r@) == KeyParts::Account(account@),
        canonical_key_of(r@) == intact(r@),
{
    let account_id = xdr::AccountId(xdr::PublicKey::PublicKeyTypeEd25519(xdr::Uint256(*account)));
    let key = xdr::LedgerKey::Account(xdr::LedgerKeyAccount { account_id });
    key.to_xdr(Limits::none()).expect("fixed-size XDR")
}

/// Encodes a `LedgerKey::ContractCode` with `to_xdr`, which cannot fail on a
/// value of fixed size. Decoding gives the parts back, and encoding them again
/// the same XDR.
#[verifier::external_body]
pub(crate) fn encode_contract_code_key(hash: &[u8; 32]) -> (r: Vec<u8>)
    ensures
        r@ == contract_code_key_xdr(hash@),
        key_parts_of(r@) == KeyParts::ContractCode(hash@),
        canonical_key_of(r@) == intact(r@),
{
    let key = xdr::LedgerKey::ContractCode(xdr::LedgerKeyContractCode { hash: xdr::Hash(*hash) });
    key.to_xdr(Limits::none()).expect("fixed-size XDR")
}

/// Encodes a `LedgerKey::ConfigSetting` with `to_xdr`, which cannot fail on a
/// value of fixed size. Decoding gives the parts back, and encoding them again
/// the same XDR.
#[verifier::external_body]
pub(crate) fn encode_config_setting_key(id: ConfigSettingId) -> (r: Vec<u8>)
    ensures
        r@ == config_setting_key_xdr(id),
        key_parts_of(r@) == KeyParts::ConfigSetting,
        canonical_key_of(r@) == intact(r@),
{
    let config_setting_id = match id {
        ConfigSettingId::ContractComputeV0 => xdr::ConfigSettingId::ContractComputeV0,
        ConfigSettingId::ContractLedgerCostV0 => xdr::ConfigSettingId::ContractLedgerCostV0,
        ConfigSettingId::ContractLedgerCostExtV0 => xdr::ConfigSettingId::ContractLedgerCostExtV0,
        ConfigSettingId::ContractHistoricalDataV0 => xdr::ConfigSettingId::ContractHistoricalDataV0,
        ConfigSettingId::ContractEventsV0 => xdr::ConfigSettingId::ContractEventsV0,
        ConfigSettingId::ContractBandwidthV0 => xdr::ConfigSettingId::ContractBandwidthV0,
    };
    let key = xdr::LedgerKey::ConfigSetting(xdr::LedgerKeyConfigSetting { config_setting_id });
    key.to_xdr(Limits::none()).expect("fixed-size XDR")
}

// ---------------------------------------------------------------------------
// Ledger entries
// ---------------------------------------------------------------------------

/// The kind of what a ledger entry holds.
#[derive(Debug, Clone, Copy, PartialEq, Eq, Structural)]
pub enum DataKind {
    Account,
    Trustline,
    ContractData,
    ConfigSetting,
    Other,
}

/// The parts of a ledger entry: the ledger that last changed it, what it
/// holds as XDR, its extension as XDR.
pub type EntryParts = (u32, Seq<u8>, Seq<u8>);

/// What `LedgerEntry::from_xdr` finds in some bytes, or the message of the
/// decoding error.
pub uninterp spec fn entry_parts_of(xdr: Seq<u8>) -> Result<EntryParts, Seq<char>>;

/// The XDR that `to_xdr` writes for a ledger entry of these parts, or the
/// message of the error where one of them is not XDR of its type.
pub uninterp spec fn entry_xdr_of(last_modified: u32, data: Seq<u8>, ext: Seq<u8>) -> Result<
    Seq<u8>,
    Seq<char>,
>;

/// What `LedgerEntryData::from_xdr` followed by `to_xdr` makes of some bytes:
/// the entry data's own XDR, or the message of the decoding error.
pub uninterp spec fn canonical_data_of(xdr: Seq<u8>) -> Result<Seq<u8>, Seq<char>>;

/// The kind of the entry data that some bytes encode, or the message of the
/// decoding error.
pub uninterp spec fn data_kind_of(xdr: Seq<u8>) -> Result<DataKind, Seq<char>>;

/// The account that some XDR of entry data encodes.
pub uninterp spec fn account_of(data: Seq<u8>) -> Option<AccountView>;

/// The XDR of entry data that holds an account; nothing where one of the
/// parts is not XDR of its type.
pub uninterp spec fn account_xdr_of(a: AccountView) -> Option<Seq<u8>>;

/// The trustline that some XDR of entry data encodes.
pub uninterp spec fn trustline_of(data: Seq<u8>) -> Option<TrustLineView>;

/// The XDR of entry data that holds a trustline; nothing where one of the
/// parts is not XDR of its type.
pub uninterp spec fn trustline_xdr_of(t: TrustLineView) -> Option<Seq<u8>>;

/// The storage entry that some XDR of entry data encodes.
pub uninterp spec fn contract_data_of(data: Seq<u8>) -> Option<ContractDataView>;

/// The XDR of entry data that holds a storage entry; nothing where one of the
/// parts is not XDR of its type.
pub uninterp spec fn contract_data_xdr_of(c: ContractDataView) -> Option<Seq<u8>>;

/// The `Debug` text of the entry data that some XDR encodes.
pub uninterp spec fn data_debug_of(data: Seq<u8>) -> Seq<char>;

/// The view of the parts of an entry.
pub open spec fn parts_result(r: Result<(u32, Vec<u8>, Vec<u8>), String>) -> Result<
    EntryParts,
    Seq<char>,
> {
    match r {
        Ok((m, d, x)) => Ok((m, d@, x@)),
        Err(e) => Err(e@),
    }
}

/// The view of the kind of entry data.
pub open spec fn kind_result(r: Result<DataKind, String>) -> Result<DataKind, Seq<char>> {
    match r {
        Ok(k) => Ok(k),
        Err(e) => Err(e@),
    }
}

/// The view of an optional account.
pub open spec fn account_option(r: Option<AccountEntry>) -> Option<AccountView> {
    match r {
        Some(a) => Some(a@),
        None => None,
    }
}

/// The view of an optional trustline.
pub open spec fn trustline_option(r: Option<TrustLineEntry>) -> Option<TrustLineView> {
    match r {
        Some(t) => Some(t@),
        None => None,
    }
}

/// The view of an optional storage entry.
pub open spec fn contract_data_option(r: Option<ContractDataEntry>) -> Option<ContractDataView> {
    match r {
        Some(c) => Some(c@),
        None => None,
    }
}

/// Entry data of a kind that was told without error.
pub open spec fn of_kind(k: DataKind) -> Result<DataKind, Seq<char>> {
    Ok(k)
}

/// An entry that was taken apart without error.
pub open spec fn parted(last_modified: u32, data: Seq<u8>, ext: Seq<u8>) -> Result<
    EntryParts,
    Seq<char>,
> {
    Ok((last_modified, data, ext))
}

/// Whether some XDR is entry data of a kind, as the codec writes it.
pub open spec fn holds_kind(data: Seq<u8>, kind: DataKind) -> bool {
    data_kind_of(data) == of_kind(kind) && canonical_data_of(data) == intact(data)
}

/// Whether an account can be encoded and decoded again.
pub open spec fn account_intact(a: AccountView) -> bool {
    account_xdr_of(a) matches Some(d) && account_of(d) == Some(a) && holds_kind(d, DataKind::Account)
}

/// Whether an account can be encoded and decoded again whatever its balance
/// and its sequence number are.
pub open spec fn account_writable(a: AccountView) -> bool {
    forall|balance: i64, seq_num: i64|
        #[trigger] account_intact(AccountView { balance, seq_num, ..a })
}

/// Whether a trustline can be encoded and decoded again.
pub open spec fn trustline_intact(t: TrustLineView) -> bool {
    trustline_xdr_of(t) matches Some(d) && trustline_of(d) == Some(t) && holds_kind(
        d,
        DataKind::Trustline,
    )
}

/// Whether a trustline can be encoded and decoded again whatever its balance
/// is.
pub open spec fn trustline_writable(t: TrustLineView) -> bool {
    forall|balance: i64| #[trigger] trustline_intact(TrustLineView { balance, ..t })
}

/// Whether a storage entry can be encoded and decoded again.
pub open spec fn contract_data_intact(c: ContractDataView) -> bool {
    contract_data_xdr_of(c) matches Some(d) && contract_data_of(d) == Some(c) && holds_kind(
        d,
        DataKind::ContractData,
    )
}

/// Whether an entry with this extension can be encoded and taken apart again
/// whatever it holds.
pub open spec fn ext_writable(ext: Seq<u8>) -> bool {
    forall|last_modified: u32, data: Seq<u8>|
        canonical_data_of(data) == intact(data) ==> ((#[trigger] entry_xdr_of(
            last_modified,
            data,
            ext,
        )) matches Ok(x) && entry_parts_of(x) == parted(last_modified, data, ext))
}

/// Decodes a ledger entry with `LedgerEntry::from_xdr` and gives its parts,
/// each encoded with `to_xdr`. The entry data it hands out is left as it is
/// by another pass through the codec, and the extension can be decoded again,
/// so it can be encoded with any entry data.
#[verifier::external_body]
pub(crate) fn decode_entry_parts(xdr: &[u8]) -> (r: Result<(u32, Vec<u8>, Vec<u8>), String>)
    ensures
        parts_result(r) == entry_parts_of(xdr@),
        r matches Ok(p) ==> canonical_data_of(p.1@) == intact(p.1@) && ext_writable(p.2@),
{
    let entry = xdr::LedgerEntry::from_xdr(xdr, Limits::none()).map_err(|e| e.to_string())?;
    let data = entry.data.to_xdr(Limits::none()).map_err(|e| e.to_string())?;
    let ext = entry.ext.to_xdr(Limits::none()).map_err(|e| e.to_string())?;
    Ok((entry.last_modified_ledger_seq, data, ext))
}

/// Encodes a ledger entry with `to_xdr`, from its parts decoded with
/// `from_xdr`. Taking the result apart gives the same number and extension,
/// and the entry data as the codec writes it. Entry data that can be decoded
/// and an empty extension can always be encoded.
#[verifier::external_body]
pub(crate) fn encode_entry_parts(last_modified: u32, data: &[u8], ext: &[u8]) -> (r: Result<
    Vec<u8>,
    String,
>)
    ensures
        bytes_result(r) == entry_xdr_of(last_modified, data@, ext@),
        r matches Ok(x) ==> canonical_data_of(data@) is Ok && entry_parts_of(x@) == parted(
            last_modified,
            canonical_data_of(data@)->Ok_0,
            ext@,
        ),
        canonical_data_of(data@) is Ok && ext@ == be32(0) ==> r is Ok,
{
    let entry = xdr::LedgerEntry {
        last_modified_ledger_seq: last_modified,
        data: ReadXdr::from_xdr(data, Limits::none()).map_err(|e: xdr::Error| e.to_string())?,
        ext: ReadXdr::from_xdr(ext, Limits::none()).map_err(|e: xdr::Error| e.to_string())?,
    };
    entry.to_xdr(Limits::none()).map_err(|e| e.to_string())
}

/// Decodes entry data with `LedgerEntryData::from_xdr` and encodes it again
/// with `to_xdr`. What comes out is of the same kind, and left as it is by a
/// second pass.
#[verifier::external_body]
pub(crate) fn canonical_data(xdr: &[u8]) -> (r: Result<Vec<u8>, String>)
    ensures
        bytes_result(r) == canonical_data_of(xdr@),
        r matches Ok(d) ==> canonical_data_of(d@) == intact(d@) && data_kind_of(d@) == data_kind_of(xdr@),
{
    let data = xdr::LedgerEntryData::from_xdr(xdr, Limits::none()).map_err(|e| e.to_string())?;
    data.to_xdr(Limits::none()).map_err(|e| e.to_string())
}

/// Decodes entry data with `LedgerEntryData::from_xdr` and tells its kind.
#[verifier::external_body]
pub(crate) fn data_kind(xdr: &[u8]) -> (r: Result<DataKind, String>)
    ensures
        kind_result(r) == data_kind_of(xdr@),
        r is Ok <==> canonical_data_of(xdr@) is Ok,
{
    match xdr::LedgerEntryData::from_xdr(xdr, Limits::none()) {
        Ok(xdr::LedgerEntryData::Account(_)) => Ok(DataKind::Account),
        Ok(xdr::LedgerEntryData::Trustline(_)) => Ok(DataKind::Trustline),
        Ok(xdr::LedgerEntryData::ContractData(_)) => Ok(DataKind::ContractData),
        Ok(xdr::LedgerEntryData::ConfigSetting(_)) => Ok(DataKind::ConfigSetting),
        Ok(_) => Ok(DataKind::Other),
        Err(e) => Err(e.to_string()),
    }
}

/// Decodes entry data with `LedgerEntryData::from_xdr` and formats it, or the
/// decoding error, with `Debug`.
#[verifier::external_body]
pub(crate) fn data_debug(data: &[u8]) -> (r: String)
    ensures
        r@ == data_debug_of(data@),
{
    match xdr::LedgerEntryData::from_xdr(data, Limits::none()) {
        Ok(v) => format!("{v:?}"),
        Err(e) => format!("{e:?}"),
    }
}

/// Decodes entry data with `LedgerEntryData::from_xdr` and gives the account
/// that it holds. The parts of an account that was decoded can be decoded
/// again, so it can be encoded with any balance and any sequence number.
#[verifier::external_body]
pub(crate) fn decode_account(data: &[u8]) -> (r: Option<AccountEntry>)
    ensures
        account_option(r) == account_of(data@),
        data_kind_of(data@) == of_kind(DataKind::Account) ==> r is Some,
        r matches Some(a) ==> account_writable(a@),
{
    let Ok(xdr::LedgerEntryData::Account(a)) = xdr::LedgerEntryData::from_xdr(data, Limits::none()) else { return None };
    let id = |xdr::AccountId(xdr::PublicKey::PublicKeyTypeEd25519(k)): xdr::AccountId| k.0;
    Some(AccountEntry {
        account_id: id(a.account_id),
        balance: a.balance,
        seq_num: a.seq_num.0,
        num_sub_entries: a.num_sub_entries,
        inflation_dest: a.inflation_dest.map(id),
        flags: a.flags,
        home_domain: a.home_domain.to_xdr(Limits::none()).ok()?,
        thresholds: a.thresholds.0,
        signers: a.signers.to_xdr(Limits::none()).ok()?,
        ext: a.ext.to_xdr(Limits::none()).ok()?,
    })
}

/// Encodes entry data that holds an account with `to_xdr`; decoding gives the
/// account back. An account without home domain, signers and extension can
/// always be encoded.
#[verifier::external_body]
pub(crate) fn encode_account(a: &AccountEntry) -> (r: Option<Vec<u8>>)
    ensures
        bytes_option(r) == account_xdr_of(a@),
        r matches Some(d) ==> account_of(d@) == Some(a@) && data_kind_of(d@) == of_kind(DataKind::Account)
            && canonical_data_of(d@) == intact(d@),
        a.home_domain@ == be32(0) && a.signers@ == be32(0) && a.ext@ == be32(0) ==> r is Some,
{
    let id = |k: [u8; 32]| xdr::AccountId(xdr::PublicKey::PublicKeyTypeEd25519(xdr::Uint256(k)));
    let account = xdr::AccountEntry {
        account_id: id(a.account_id),
        balance: a.balance,
        seq_num: xdr::SequenceNumber(a.seq_num),
        num_sub_entries: a.num_sub_entries,
        inflation_dest: a.inflation_dest.map(id),
        flags: a.flags,
        home_domain: ReadXdr::from_xdr(&a.home_domain, Limits::none()).ok()?,
        thresholds: xdr::Thresholds(a.thresholds),
        signers: ReadXdr::from_xdr(&a.signers, Limits::none()).ok()?,
        ext: ReadXdr::from_xdr(&a.ext, Limits::none()).ok()?,
    };
    xdr::LedgerEntryData::Account(account).to_xdr(Limits::none()).ok()
}

/// Decodes entry data with `LedgerEntryData::from_xdr` and gives the
/// trustline that it holds. The parts of a trustline that was decoded can be
/// decoded again, so it can be encoded with any balance.
#[verifier::external_body]
pub(crate) fn decode_trustline(data: &[u8]) -> (r: Option<TrustLineEntry>)
    ensures
        trustline_option(r) == trustline_of(data@),
        data_kind_of(data@) == of_kind(DataKind::Trustline) ==> r is Some,
        r matches Some(t) ==> trustline_writable(t@),
{
    let Ok(xdr::LedgerEntryData::Trustline(t)) = xdr::LedgerEntryData::from_xdr(data, Limits::none()) else { return None };
    let xdr::PublicKey::PublicKeyTypeEd25519(id) = t.account_id.0;
    Some(TrustLineEntry {
        account_id: id.0,
        asset: t.asset.to_xdr(Limits::none()).ok()?,
        balance: t.balance,
        limit: t.limit,
        flags: t.flags,
        ext: t.ext.to_xdr(Limits::none()).ok()?,
    })
}

/// Encodes entry data that holds a trustline with `to_xdr`; decoding gives
/// the trustline back. A trustline for the XDR of an asset and without
/// extension can always be encoded.
#[verifier::external_body]
pub(crate) fn encode_trustline(t: &TrustLineEntry) -> (r: Option<Vec<u8>>)
    ensures
        bytes_option(r) == trustline_xdr_of(t@),
        r matches Some(d) ==> trustline_of(d@) == Some(t@) && data_kind_of(d@) == of_kind(DataKind::Trustline)
            && canonical_data_of(d@) == intact(d@),
        is_asset(t.asset@) && t.ext@ == be32(0) ==> r is Some,
{
    let id = xdr::AccountId(xdr::PublicKey::PublicKeyTypeEd25519(xdr::Uint256(t.account_id)));
    let trustline = xdr::TrustLineEntry {
        account_id: id,
        asset: ReadXdr::from_xdr(&t.asset, Limits::none()).ok()?,
        balance: t.balance,
        limit: t.limit,
        flags: t.flags,
        ext: ReadXdr::from_xdr(&t.ext, Limits::none()).ok()?,
    };
    xdr::LedgerEntryData::Trustline(trustline).to_xdr(Limits::none()).ok()
}

/// Decodes entry data with `LedgerEntryData::from_xdr` and gives the storage
/// entry that it holds. Its key and value are left as they are by another
/// pass through the codec, and it can be encoded and decoded again.
#[verifier::external_body]
pub(crate) fn decode_contract_data(data: &[u8]) -> (r: Option<ContractDataEntry>)
    ensures
        contract_data_option(r) == contract_data_of(data@),
        data_kind_of(data@) == of_kind(DataKind::ContractData) ==> r is Some,
        r matches Some(c) ==> canonical_scval_of(c.key@) == intact(c.key@) && canonical_scval_of(c.val@)
            == intact(c.val@) && contract_data_intact(c@),
{
    let Ok(xdr::LedgerEntryData::ContractData(c)) = xdr::LedgerEntryData::from_xdr(data, Limits::none()) else { return None };
    Some(ContractDataEntry {
        contract: c.contract.to_xdr(Limits::none()).ok()?,
        key: c.key.to_xdr(Limits::none()).ok()?,
        durability: match c.durability {
            xdr::ContractDataDurability::Temporary => Durability::Temporary,
            xdr::ContractDataDurability::Persistent => Durability::Persistent,
        },
        val: c.val.to_xdr(Limits::none()).ok()?,
    })
}

/// Encodes entry data that holds a storage entry with `to_xdr`; decoding
/// gives the entry back, its key and value as the codec writes them. An entry
/// of a contract whose key and value can be decoded can always be encoded.
#[verifier::external_body]
pub(crate) fn encode_contract_data(c: &ContractDataEntry) -> (r: Option<Vec<u8>>)
    ensures
        bytes_option(r) == contract_data_xdr_of(c@),
        r matches Some(d) ==> contract_data_of(d@) == written(c@) && data_kind_of(d@) == of_kind(
            DataKind::ContractData,
        ) && canonical_data_of(d@) == intact(d@),
        is_contract_address(c.contract@) && written(c@) is Some ==> r is Some,
{
    let durability = match c.durability {
        Durability::Temporary => xdr::ContractDataDurability::Temporary,
        Durability::Persistent => xdr::ContractDataDurability::Persistent,
    };
    let entry = xdr::ContractDataEntry {
        ext: xdr::ExtensionPoint::V0,
        contract: ReadXdr::from_xdr(&c.contract, Limits::none()).ok()?,
        key: ReadXdr::from_xdr(&c.key, Limits::none()).ok()?,
        durability,
        val: ReadXdr::from_xdr(&c.val, Limits::none()).ok()?,
    };
    xdr::LedgerEntryData::ContractData(entry).to_xdr(Limits::none()).ok()
}

/// A storage entry with its key and value as the codec writes them.
pub open spec fn written(c: ContractDataView) -> Option<ContractDataView> {
    match (canonical_scval_of(c.key), canonical_scval_of(c.val)) {
        (Ok(key), Ok(val)) => Some(ContractDataView { key, val, ..c }),
        _ => None,
    }
}

// ---------------------------------------------------------------------------
// Network settings and events
// ---------------------------------------------------------------------------

/// A network setting, as far as fees depend on it.
#[derive(Debug, Clone, Copy, PartialEq, Eq, Structural)]
pub enum ConfigSetting {
    /// The fee for an increment of instructions.
    ContractComputeV0 { fee_rate_per_instructions_increment: i64 },
    /// The fees for an entry read, an entry written, and 1 KB read.
    ContractLedgerCostV0 {
        fee_disk_read_ledger_entry: i64,
        fee_write_ledger_entry: i64,
        fee_disk_read1_kb: i64,
    },
    /// The fee for 1 KB written.
    ContractLedgerCostExtV0 { fee_write1_kb: i64 },
    /// The fee for 1 KB of history.
    ContractHistoricalDataV0 { fee_historical1_kb: i64 },
    /// The fee for 1 KB of events.
    ContractEventsV0 { fee_contract_events1_kb: i64 },
    /// The fee for 1 KB of transaction.
    ContractBandwidthV0 { fee_tx_size1_kb: i64 },
    /// A setting that fees do not depend on.
    Other,
}

/// The network setting that some XDR of entry data encodes.
pub uninterp spec fn config_setting_of(data: Seq<u8>) -> Option<ConfigSetting>;

/// The `Debug` text of the network setting that some XDR of entry data
/// encodes.
pub uninterp spec fn config_setting_debug_of(data: Seq<u8>) -> Seq<char>;

/// The XDR of the diagnostic event that wraps a contract event, given as XDR,
/// or the message of the codec's error.
pub uninterp spec fn diagnostic_event_of(in_successful_contract_call: bool, event: Seq<u8>) -> Result<
    Seq<u8>,
    Seq<char>,
>;

/// Decodes entry data with `LedgerEntryData::from_xdr` and gives the network
/// setting that it holds.
#[verifier::external_body]
pub(crate) fn decode_config_setting(data: &[u8]) -> (r: Option<ConfigSetting>)
    ensures
        r == config_setting_of(data@),
        r is Some <==> data_kind_of(data@) == of_kind(DataKind::ConfigSetting),
{
    let xdr::LedgerEntryData::ConfigSetting(s) = ReadXdr::from_xdr(data, Limits::none()).ok()? else { return None };
    Some(match s {
        xdr::ConfigSettingEntry::ContractComputeV0(c) => ConfigSetting::ContractComputeV0 {
            fee_rate_per_instructions_increment: c.fee_rate_per_instructions_increment },
        xdr::ConfigSettingEntry::ContractLedgerCostV0(c) => ConfigSetting::ContractLedgerCostV0 {
            fee_disk_read_ledger_entry: c.fee_disk_read_ledger_entry,
            fee_write_ledger_entry: c.fee_write_ledger_entry, fee_disk_read1_kb: c.fee_disk_read1_kb },
        xdr::ConfigSettingEntry::ContractLedgerCostExtV0(c) => ConfigSetting::ContractLedgerCostExtV0 { fee_write1_kb: c.fee_write1_kb },
        xdr::ConfigSettingEntry::ContractHistoricalDataV0(c) => ConfigSetting::ContractHistoricalDataV0 { fee_historical1_kb: c.fee_historical1_kb },
        xdr::ConfigSettingEntry::ContractEventsV0(c) => ConfigSetting::ContractEventsV0 { fee_contract_events1_kb: c.fee_contract_events1_kb },
        xdr::ConfigSettingEntry::ContractBandwidthV0(c) => ConfigSetting::ContractBandwidthV0 { fee_tx_size1_kb: c.fee_tx_size1_kb },
        _ => ConfigSetting::Other,
    })
}

/// Decodes entry data with `LedgerEntryData::from_xdr` and formats the
/// network setting that it holds with `Debug`; other data is formatted whole.
#[verifier::external_body]
pub(crate) fn config_setting_debug(data: &[u8]) -> (r: String)
    ensures
        r@ == config_setting_debug_of(data@),
{
    match xdr::LedgerEntryData::from_xdr(data, Limits::none()) {
        Ok(xdr::LedgerEntryData::ConfigSetting(s)) => format!("{s:?}"),
        other => format!("{other:?}"),
    }
}

/// Decodes a contract event with `ContractEvent::from_xdr`, wraps it in a
/// `DiagnosticEvent`, and encodes that with `to_xdr`.
#[verifier::external_body]
pub(crate) fn encode_diagnostic_event(in_successful_contract_call: bool, event: &[u8]) -> (r: Result<
    Vec<u8>,
    String,
>)
    ensures
        bytes_result(r) == diagnostic_event_of(in_successful_contract_call, event@),
{
    let event = xdr::ContractEvent::from_xdr(event, Limits::none()).map_err(|e| e.to_string())?;
    let wrapped = xdr::DiagnosticEvent { in_successful_contract_call, event };
    wrapped.to_xdr(Limits::none()).map_err(|e| e.to_string())
}

} // verus!

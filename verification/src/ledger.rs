//! Ledger keys and entries as the fork reads and writes them.
//!
//! A key is its XDR. An entry is one of the kinds that the fork changes or
//! builds, with their parts, or any other kind as XDR. Parts that the fork
//! carries along without looking at them are XDR too.

use vstd::prelude::*;

use crate::codec::{
    account_intact, account_key_xdr, account_of, account_writable, account_xdr_of, array_option,
    asset_xdr, be32, canonical_data, canonical_data_of, canonical_key, canonical_key_of,
    canonical_scval_of, config_setting_key_xdr, contract_code_key_xdr, contract_data_key_xdr,
    contract_data_of, contract_data_xdr_of, data_debug, data_debug_of, data_kind, data_kind_of,
    decode_account, decode_contract_data, decode_entry_parts, decode_trustline, encode_account,
    encode_account_key, encode_asset, encode_config_setting_key, encode_contract_code_key,
    encode_contract_data, encode_contract_data_key, encode_entry_parts, encode_trustline,
    encode_trustline_key, entry_parts_of, entry_xdr_of, ext_writable, intact, is_asset,
    is_contract_address, key_parts_of, storage_parts, trustline_intact, trustline_key_xdr,
    trustline_of, trustline_writable, trustline_xdr_of, written, ConfigSettingId, DataKind,
    Durability, KeyParts, TrustLineAsset,
};
use crate::error::{ErrorView, ForkError};
use crate::scval::copy_bytes;

verus! {

/// The key of a ledger entry, as the XDR that the codec writes for it.
#[derive(Debug, PartialEq, Eq)]
pub struct LedgerKey {
    xdr: Vec<u8>,
}

/// A ledger entry.
#[derive(Debug, PartialEq, Eq)]
pub struct LedgerEntry {
    /// The ledger that last changed the entry.
    pub last_modified_ledger_seq: u32,
    /// What the entry holds.
    pub data: LedgerEntryData,
    /// The extension, as XDR.
    pub ext: Vec<u8>,
}

/// What a ledger entry holds.
#[derive(Debug, PartialEq, Eq)]
pub enum LedgerEntryData {
    Account(AccountEntry),
    Trustline(TrustLineEntry),
    ContractData(ContractDataEntry),
    /// Any other kind, as XDR of the `LedgerEntryData`.
    Other(Vec<u8>),
}

/// A classic account.
#[derive(Debug, PartialEq, Eq)]
pub struct AccountEntry {
    pub account_id: [u8; 32],
    /// In stroops.
    pub balance: i64,
    pub seq_num: i64,
    pub num_sub_entries: u32,
    pub inflation_dest: Option<[u8; 32]>,
    pub flags: u32,
    /// As XDR.
    pub home_domain: Vec<u8>,
    pub thresholds: [u8; 4],
    /// As XDR.
    pub signers: Vec<u8>,
    /// As XDR.
    pub ext: Vec<u8>,
}

/// An account's holding of an asset.
#[derive(Debug, PartialEq, Eq)]
pub struct TrustLineEntry {
    pub account_id: [u8; 32],
    /// As XDR.
    pub asset: Vec<u8>,
    pub balance: i64,
    pub limit: i64,
    pub flags: u32,
    /// As XDR.
    pub ext: Vec<u8>,
}

/// One entry of a contract's storage.
#[derive(Debug, PartialEq, Eq)]
pub struct ContractDataEntry {
    /// The contract's address, as XDR.
    pub contract: Vec<u8>,
    /// As XDR.
    pub key: Vec<u8>,
    pub durability: Durability,
    /// As XDR.
    pub val: Vec<u8>,
}

/// The content of an account.
#[verifier::ext_equal]
pub struct AccountView {
    pub account_id: Seq<u8>,
    pub balance: i64,
    pub seq_num: i64,
    pub num_sub_entries: u32,
    pub inflation_dest: Option<Seq<u8>>,
    pub flags: u32,
    pub home_domain: Seq<u8>,
    pub thresholds: Seq<u8>,
    pub signers: Seq<u8>,
    pub ext: Seq<u8>,
}

/// The content of a trustline.
#[verifier::ext_equal]
pub struct TrustLineView {
    pub account_id: Seq<u8>,
    pub asset: Seq<u8>,
    pub balance: i64,
    pub limit: i64,
    pub flags: u32,
    pub ext: Seq<u8>,
}

/// The content of a storage entry.
#[verifier::ext_equal]
pub struct ContractDataView {
    pub contract: Seq<u8>,
    pub key: Seq<u8>,
    pub durability: Durability,
    pub val: Seq<u8>,
}

/// The content of what an entry holds.
#[verifier::ext_equal]
pub enum DataView {
    Account(AccountView),
    Trustline(TrustLineView),
    ContractData(ContractDataView),
    Other(Seq<u8>),
}

/// The content of an entry.
#[verifier::ext_equal]
pub struct EntryView {
    pub last_modified_ledger_seq: u32,
    pub data: DataView,
    pub ext: Seq<u8>,
}

impl View for LedgerKey {
    type V = Seq<u8>;

    closed spec fn view(&self) -> Seq<u8> {
        self.xdr@
    }
}

impl View for AccountEntry {
    type V = AccountView;

    open spec fn view(&self) -> AccountView {
        AccountView {
            account_id: self.account_id@,
            balance: self.balance,
            seq_num: self.seq_num,
            num_sub_entries: self.num_sub_entries,
            inflation_dest: array_option(self.inflation_dest),
            flags: self.flags,
            home_domain: self.home_domain@,
            thresholds: self.thresholds@,
            signers: self.signers@,
            ext: self.ext@,
        }
    }
}

impl View for TrustLineEntry {
    type V = TrustLineView;

    open spec fn view(&self) -> TrustLineView {
        TrustLineView {
            account_id: self.account_id@,
            asset: self.asset@,
            balance: self.balance,
            limit: self.limit,
            flags: self.flags,
            ext: self.ext@,
        }
    }
}

impl View for ContractDataEntry {
    type V = ContractDataView;

    open spec fn view(&self) -> ContractDataView {
        ContractDataView {
            contract: self.contract@,
            key: self.key@,
            durability: self.durability,
            val: self.val@,
        }
    }
}

impl View for LedgerEntryData {
    type V = DataView;

    open spec fn view(&self) -> DataView {
        match *self {
            LedgerEntryData::Account(a) => DataView::Account(a@),
            LedgerEntryData::Trustline(t) => DataView::Trustline(t@),
            LedgerEntryData::ContractData(c) => DataView::ContractData(c@),
            LedgerEntryData::Other(x) => DataView::Other(x@),
        }
    }
}

impl View for LedgerEntry {
    type V = EntryView;

    open spec fn view(&self) -> EntryView {
        EntryView {
            last_modified_ledger_seq: self.last_modified_ledger_seq,
            data: self.data@,
            ext: self.ext@,
        }
    }
}

// ---------------------------------------------------------------------------
// Keys
// ---------------------------------------------------------------------------

impl LedgerKey {
    #[verifier::type_invariant]
    pub(crate) closed spec fn canonical(self) -> bool {
        canonical_key_of(self@) == intact(self@)
    }

    /// The key's XDR. Reading it gives the same key.
    pub fn as_xdr(&self) -> (r: &[u8])
        ensures
            r@ == self@,
            canonical_key_of(self@) == intact(self@),
    {
        proof {
            use_type_invariant(self);
        }
        self.xdr.as_slice()
    }

    /// The key whose XDR this is.
    pub(crate) fn of_xdr(xdr: Vec<u8>) -> (r: LedgerKey)
        requires
            canonical_key_of(xdr@) == intact(xdr@),
        ensures
            r@ == xdr@,
    {
        LedgerKey { xdr }
    }

    /// The key of an account.
    pub fn account(account: &[u8; 32]) -> (r: LedgerKey)
        ensures
            r@ == account_key_xdr(account@),
            key_parts_of(r@) == KeyParts::Account(account@),
            canonical_key_of(r@) == intact(r@),
    {
        LedgerKey { xdr: encode_account_key(account) }
    }

    /// The key of an account's trustline.
    pub fn trustline(account: &[u8; 32], asset: &TrustLineAsset) -> (r: LedgerKey)
        ensures
            r@ == trustline_key_xdr(account@, asset_xdr(*asset)),
            key_parts_of(r@) == KeyParts::Trustline(account@),
            canonical_key_of(r@) == intact(r@),
    {
        LedgerKey { xdr: encode_trustline_key(account, asset) }
    }

    /// The key of an entry of a contract's storage; nothing where the storage
    /// key is not XDR of a contract value.
    pub fn contract_data(contract: &[u8; 32], key: &[u8], durability: Durability) -> (r: Option<LedgerKey>)
        ensures
            r is Some <==> canonical_scval_of(key@) is Ok,
            r matches Some(k) ==> k@ == contract_data_key_xdr(
                contract@,
                canonical_scval_of(key@)->Ok_0,
                durability,
            ),
            r matches Some(k) ==> key_parts_of(k@) == storage_parts(
                contract@,
                canonical_scval_of(key@)->Ok_0,
                durability,
            ),
            r matches Some(k) ==> canonical_key_of(k@) == intact(k@),
    {
        match encode_contract_data_key(contract, key, durability) {
            Some(xdr) => Some(LedgerKey { xdr }),
            None => None,
        }
    }

    /// The key of some contract code.
    pub fn contract_code(hash: &[u8; 32]) -> (r: LedgerKey)
        ensures
            r@ == contract_code_key_xdr(hash@),
            key_parts_of(r@) == KeyParts::ContractCode(hash@),
            canonical_key_of(r@) == intact(r@),
    {
        LedgerKey { xdr: encode_contract_code_key(hash) }
    }

    /// The key of a network setting.
    pub fn config_setting(id: ConfigSettingId) -> (r: LedgerKey)
        ensures
            r@ == config_setting_key_xdr(id),
            key_parts_of(r@) == KeyParts::ConfigSetting,
            canonical_key_of(r@) == intact(r@),
    {
        LedgerKey { xdr: encode_config_setting_key(id) }
    }

    /// Read a key from XDR.
    pub fn from_xdr(xdr: &[u8]) -> (r: Result<LedgerKey, String>)
        ensures
            (match r {
                Ok(k) => canonical_key_of(xdr@) == intact(k@),
                Err(e) => canonical_key_of(xdr@) matches Err(m) && m == e@,
            }),
            r matches Ok(k) ==> canonical_key_of(k@) == intact(k@),
    {
        match canonical_key(xdr) {
            Ok(xdr) => Ok(LedgerKey { xdr }),
            Err(e) => Err(e),
        }
    }

    /// A copy of the key.
    pub fn copied(&self) -> (r: LedgerKey)
        ensures
            r@ == self@,
    {
        proof {
            use_type_invariant(self);
        }
        LedgerKey { xdr: copy_bytes(&self.xdr) }
    }
}

// ---------------------------------------------------------------------------
// Entries
// ---------------------------------------------------------------------------

/// The XDR of what an entry holds.
pub open spec fn data_xdr(d: DataView) -> Option<Seq<u8>> {
    match d {
        DataView::Account(a) => account_xdr_of(a),
        DataView::Trustline(t) => trustline_xdr_of(t),
        DataView::ContractData(c) => contract_data_xdr_of(c),
        DataView::Other(x) => Some(x),
    }
}

/// The XDR of an entry, or why it has none.
pub open spec fn entry_xdr(e: EntryView) -> Result<Seq<u8>, Seq<char>> {
    match data_xdr(e.data) {
        Some(d) => entry_xdr_of(e.last_modified_ledger_seq, d, e.ext),
        None => Err("entry data has a malformed part"@),
    }
}

/// What some XDR of entry data holds, or why it holds nothing.
pub open spec fn decoded_data(x: Seq<u8>) -> Result<DataView, Seq<char>> {
    match data_kind_of(x) {
        Err(e) => Err(e),
        Ok(DataKind::Account) => Ok(DataView::Account(account_of(x)->0)),
        Ok(DataKind::Trustline) => Ok(DataView::Trustline(trustline_of(x)->0)),
        Ok(DataKind::ContractData) => Ok(DataView::ContractData(contract_data_of(x)->0)),
        Ok(_) => Ok(DataView::Other(canonical_data_of(x)->Ok_0)),
    }
}

/// The entry that some XDR encodes, or why it encodes none.
pub open spec fn decoded_entry(x: Seq<u8>) -> Result<EntryView, Seq<char>> {
    match entry_parts_of(x) {
        Err(e) => Err(e),
        Ok((last_modified_ledger_seq, data, ext)) => match decoded_data(data) {
            Err(e) => Err(e),
            Ok(data) => Ok(EntryView { last_modified_ledger_seq, data, ext }),
        },
    }
}

/// An entry whose XDR parts are as the codec writes them, so that encoding
/// loses nothing: the contract values in it, and data of a kind that the
/// fork does not take apart.
pub open spec fn settled(e: EntryView) -> bool {
    match e.data {
        DataView::ContractData(c) => written(c) == Some(c),
        DataView::Other(x) => canonical_data_of(x) == intact(x) && decoded_data(x) == Ok::<
            DataView,
            Seq<char>,
        >(e.data),
        _ => true,
    }
}

/// An entry whose parts are all well-formed, as far as they are plain to see:
/// such an entry can always be encoded.
pub open spec fn plain(e: EntryView) -> bool {
    &&& e.ext == be32(0)
    &&& match e.data {
        DataView::Account(a) => a.home_domain == be32(0) && a.signers == be32(0) && a.ext == be32(0),
        DataView::Trustline(t) => is_asset(t.asset) && t.ext == be32(0),
        DataView::ContractData(c) => is_contract_address(c.contract) && written(c) is Some,
        DataView::Other(x) => canonical_data_of(x) is Ok,
    }
}

/// What an entry can hold so that it is the same after encoding and decoding.
pub open spec fn data_intact(d: DataView) -> bool {
    data_xdr(d) matches Some(x) && canonical_data_of(x) == intact(x) && decoded_data(x) == Ok::<
        DataView,
        Seq<char>,
    >(d)
}

/// Whether an entry is the same after encoding and decoding.
pub open spec fn reads_back(e: EntryView) -> bool {
    entry_xdr(e) matches Ok(x) && decoded_entry(x) == Ok::<EntryView, Seq<char>>(e)
}

/// What stays the same after encoding and decoding with any numbers that the
/// fork changes: an account's balance and sequence number, and a trustline's
/// balance.
pub open spec fn data_writable(d: DataView) -> bool {
    &&& data_intact(d)
    &&& d matches DataView::Account(a) ==> account_writable(a)
    &&& d matches DataView::Trustline(t) ==> trustline_writable(t)
}

/// An entry that stays the same after encoding and decoding with any numbers
/// that the fork changes. Every entry that was decoded is one.
pub open spec fn writable(e: EntryView) -> bool {
    data_writable(e.data) && ext_writable(e.ext)
}

/// An entry as the endpoint hands it out: what it holds reads back, and it has
/// no extension.
pub open spec fn bare(e: EntryView) -> bool {
    data_intact(e.data) && e.ext == be32(0)
}

/// An account keeps what it holds but for its numbers.
pub proof fn lemma_account_numbers(a: AccountView, balance: i64, seq_num: i64)
    requires
        data_writable(DataView::Account(a)),
    ensures
        data_writable(DataView::Account(AccountView { balance, seq_num, ..a })),
{
    let b = AccountView { balance, seq_num, ..a };
    assert(account_intact(b));
    assert forall|x: i64, y: i64| #[trigger]
        account_intact(AccountView { balance: x, seq_num: y, ..b }) by {
        assert(AccountView { balance: x, seq_num: y, ..b } == AccountView {
            balance: x,
            seq_num: y,
            ..a
        });
    }
}

/// A trustline keeps what it holds but for its balance.
pub proof fn lemma_trustline_balance(t: TrustLineView, balance: i64)
    requires
        data_writable(DataView::Trustline(t)),
    ensures
        data_writable(DataView::Trustline(TrustLineView { balance, ..t })),
{
    let u = TrustLineView { balance, ..t };
    assert(trustline_intact(u));
    assert forall|x: i64| #[trigger] trustline_intact(TrustLineView { balance: x, ..u }) by {
        assert(TrustLineView { balance: x, ..u } == TrustLineView { balance: x, ..t });
    }
}

/// An entry that can be written reads back.
pub proof fn lemma_writable_reads_back(e: EntryView)
    requires
        writable(e),
    ensures
        reads_back(e),
{
    let x = data_xdr(e.data)->0;
    assert(entry_xdr_of(e.last_modified_ledger_seq, x, e.ext) is Ok);
}

/// Encode an entry.
pub fn encode_entry(entry: &LedgerEntry) -> (r: Result<Vec<u8>, ForkError>)
    ensures
        plain(entry@) ==> r is Ok,
        bare(entry@) ==> r is Ok && reads_back(entry@),
        (match r {
            Ok(x) => entry_xdr(entry@) == intact(x@),
            Err(e) => entry_xdr(entry@) matches Err(m) && e@ == ErrorView::Xdr(m),
        }),
        r matches Ok(x) ==> settled(entry@) ==> (decoded_entry(x@) matches Ok(v) && v == entry@),
{
    let data = match &entry.data {
        LedgerEntryData::Account(a) => encode_account(a),
        LedgerEntryData::Trustline(t) => encode_trustline(t),
        LedgerEntryData::ContractData(c) => encode_contract_data(c),
        LedgerEntryData::Other(x) => Some(copy_bytes(x)),
    };
    match data {
        Some(d) => match encode_entry_parts(
            entry.last_modified_ledger_seq,
            d.as_slice(),
            entry.ext.as_slice(),
        ) {
            Ok(x) => Ok(x),
            Err(e) => Err(ForkError::Xdr(e)),
        },
        None => Err(ForkError::Xdr("entry data has a malformed part".to_owned())),
    }
}

/// Decode what an entry holds.
pub fn decode_data(xdr: &[u8]) -> (r: Result<LedgerEntryData, String>)
    ensures
        (match r {
            Ok(d) => decoded_data(xdr@) matches Ok(v) && v == d@,
            Err(e) => decoded_data(xdr@) matches Err(m) && m == e@,
        }),
        r matches Ok(d) ==> data_writable(d@),
{
    match data_kind(xdr) {
        Err(e) => Err(e),
        Ok(kind) => {
            if kind == DataKind::Account {
                let a = decode_account(xdr).unwrap();
                assert(account_intact(AccountView { balance: a@.balance, seq_num: a@.seq_num, ..a@ }));
                Ok(LedgerEntryData::Account(a))
            } else if kind == DataKind::Trustline {
                let t = decode_trustline(xdr).unwrap();
                assert(trustline_intact(TrustLineView { balance: t@.balance, ..t@ }));
                Ok(LedgerEntryData::Trustline(t))
            } else if kind == DataKind::ContractData {
                let c = decode_contract_data(xdr).unwrap();
                Ok(LedgerEntryData::ContractData(c))
            } else {
                match canonical_data(xdr) {
                    Ok(d) => Ok(LedgerEntryData::Other(d)),
                    Err(e) => Err(e),
                }
            }
        },
    }
}

/// Decode an entry.
pub fn decode_entry(xdr: &[u8]) -> (r: Result<LedgerEntry, ForkError>)
    ensures
        r matches Ok(e) ==> writable(e@) && reads_back(e@),
        (match r {
            Ok(e) => decoded_entry(xdr@) matches Ok(v) && v == e@,
            Err(e) => decoded_entry(xdr@) matches Err(m) && e@ == ErrorView::Xdr(m),
        }),
{
    match decode_entry_parts(xdr) {
        Err(e) => Err(ForkError::Xdr(e)),
        Ok((last_modified_ledger_seq, data, ext)) => match decode_data(data.as_slice()) {
            Err(e) => Err(ForkError::Xdr(e)),
            Ok(data) => {
                let entry = LedgerEntry { last_modified_ledger_seq, data, ext };
                proof {
                    lemma_writable_reads_back(entry@);
                }
                Ok(entry)
            },
        },
    }
}

/// The `Debug` text of what an entry holds.
pub open spec fn data_text(d: DataView) -> Seq<char> {
    match data_xdr(d) {
        Some(x) => data_debug_of(x),
        None => "entry data has a malformed part"@,
    }
}

impl LedgerEntryData {
    /// The XDR of what the entry holds; nothing where a part of it is not XDR
    /// of its type.
    pub fn to_xdr(&self) -> (r: Option<Vec<u8>>)
        ensures
            (match r {
                Some(x) => data_xdr(self@) == Some(x@),
                None => data_xdr(self@) is None,
            }),
    {
        match self {
            LedgerEntryData::Account(a) => encode_account(a),
            LedgerEntryData::Trustline(t) => encode_trustline(t),
            LedgerEntryData::ContractData(c) => encode_contract_data(c),
            LedgerEntryData::Other(x) => Some(copy_bytes(x)),
        }
    }

    /// What the entry holds, as it is shown in messages.
    pub fn to_text(&self) -> (r: String)
        ensures
            r@ == data_text(self@),
    {
        match self.to_xdr() {
            Some(x) => data_debug(x.as_slice()),
            None => "entry data has a malformed part".to_owned(),
        }
    }
}

// ---------------------------------------------------------------------------
// Fresh entries
// ---------------------------------------------------------------------------

/// The flag of a trustline whose issuer has authorized it.
pub const AUTHORIZED_FLAG: u32 = 1;

/// The first sequence number of an account that is created in a ledger: the
/// ledger's number, shifted up by 32 bits.
pub open spec fn first_seq_num(ledger: u32) -> int {
    let n = ledger as int * 0x1_0000_0000;
    if n > i64::MAX {
        n - 0x1_0000_0000_0000_0000
    } else {
        n
    }
}

/// An account as it is when it has just been created: no subentries, no
/// signers besides its own key, no home domain.
pub open spec fn fresh_account(account: Seq<u8>, balance: i64, ledger: u32) -> EntryView {
    EntryView {
        last_modified_ledger_seq: ledger,
        data: DataView::Account(
            AccountView {
                account_id: account,
                balance,
                seq_num: first_seq_num(ledger) as i64,
                num_sub_entries: 0,
                inflation_dest: None,
                flags: 0,
                home_domain: be32(0),
                thresholds: seq![1, 0, 0, 0],
                signers: be32(0),
                ext: be32(0),
            },
        ),
        ext: be32(0),
    }
}

/// A trustline as it is when it has just been created and authorized: without
/// a limit.
pub open spec fn fresh_trustline(account: Seq<u8>, asset: Seq<u8>, balance: i64, ledger: u32) -> EntryView {
    EntryView {
        last_modified_ledger_seq: ledger,
        data: DataView::Trustline(
            TrustLineView {
                account_id: account,
                asset,
                balance,
                limit: i64::MAX,
                flags: AUTHORIZED_FLAG,
                ext: be32(0),
            },
        ),
        ext: be32(0),
    }
}

/// The XDR of an empty list, an empty string, or an empty extension.
pub(crate) fn empty_xdr() -> (r: Vec<u8>)
    ensures
        r@ == be32(0),
{
    let r: Vec<u8> = vec![0u8, 0u8, 0u8, 0u8];
    assert(r@ =~= be32(0));
    r
}

/// A freshly created account.
pub fn new_account(account: &[u8; 32], balance: i64, ledger: u32) -> (r: LedgerEntry)
    ensures
        r@ == fresh_account(account@, balance, ledger),
{
    let n: i128 = ledger as i128 * 0x1_0000_0000;
    let seq_num: i64 = if n > 0x7FFF_FFFF_FFFF_FFFF {
        (n - 0x1_0000_0000_0000_0000) as i64
    } else {
        n as i64
    };
    let thresholds: [u8; 4] = [1u8, 0u8, 0u8, 0u8];
    assert(thresholds@ =~= seq![1u8, 0u8, 0u8, 0u8]);
    LedgerEntry {
        last_modified_ledger_seq: ledger,
        data: LedgerEntryData::Account(
            AccountEntry {
                account_id: *account,
                balance,
                seq_num,
                num_sub_entries: 0,
                inflation_dest: None,
                flags: 0,
                home_domain: empty_xdr(),
                thresholds,
                signers: empty_xdr(),
                ext: empty_xdr(),
            },
        ),
        ext: empty_xdr(),
    }
}

/// A freshly created trustline.
pub fn new_trustline(account: &[u8; 32], asset: &TrustLineAsset, balance: i64, ledger: u32) -> (r:
    LedgerEntry)
    ensures
        r@ == fresh_trustline(account@, asset_xdr(*asset), balance, ledger),
{
    LedgerEntry {
        last_modified_ledger_seq: ledger,
        data: LedgerEntryData::Trustline(
            TrustLineEntry {
                account_id: *account,
                asset: encode_asset(asset),
                balance,
                limit: 0x7FFF_FFFF_FFFF_FFFF,
                flags: AUTHORIZED_FLAG,
                ext: empty_xdr(),
            },
        ),
        ext: empty_xdr(),
    }
}

/// Entries have the same key only if they belong to the same account: the
/// keys of two accounts differ.
pub proof fn law_account_keys_differ(a: Seq<u8>, b: Seq<u8>)
    requires
        account_key_xdr(a) == account_key_xdr(b),
    ensures
        a == b,
{
    assert(account_key_xdr(a).skip(8) =~= a);
    assert(account_key_xdr(b).skip(8) =~= b);
}

/// The keys of two trustlines differ in the account or in the asset.
pub proof fn law_trustline_keys_differ(a: Seq<u8>, x: Seq<u8>, b: Seq<u8>, y: Seq<u8>)
    requires
        a.len() == 32,
        b.len() == 32,
        trustline_key_xdr(a, x) == trustline_key_xdr(b, y),
    ensures
        a == b,
        x == y,
{
    let k = trustline_key_xdr(a, x);
    assert(k.subrange(8, 40) =~= a);
    assert(k.subrange(8, 40) =~= b);
    assert(k.skip(40) =~= x);
    assert(k.skip(40) =~= y);
}

/// No entry of one kind has the key of another kind: accounts, trustlines,
/// contract storage, contract code and network settings keep apart.
pub proof fn law_kinds_keep_apart(
    account: Seq<u8>,
    asset: Seq<u8>,
    contract: Seq<u8>,
    key: Seq<u8>,
    durability: Durability,
    hash: Seq<u8>,
    id: ConfigSettingId,
)
    ensures
        account_key_xdr(account)[3] == 0,
        trustline_key_xdr(account, asset)[3] == 1,
        contract_data_key_xdr(contract, key, durability)[3] == 6,
        contract_code_key_xdr(hash)[3] == 7,
        config_setting_key_xdr(id)[3] == 8,
{
}

/// A new account is the one that was asked for, with the balance that was
/// asked for and nothing else: its own key alone signs, and its sequence
/// numbers begin at the ledger that it was made in.
pub proof fn law_new_accounts_are_bare(account: Seq<u8>, balance: i64, ledger: u32)
    ensures
        fresh_account(account, balance, ledger).last_modified_ledger_seq == ledger,
        fresh_account(account, balance, ledger).data matches DataView::Account(a) && {
            &&& a.account_id == account
            &&& a.balance == balance
            &&& ledger < 0x8000_0000 ==> a.seq_num == ledger * 0x1_0000_0000
            &&& a.num_sub_entries == 0
            &&& a.inflation_dest is None
            &&& a.flags == 0
            &&& a.thresholds == seq![1u8, 0u8, 0u8, 0u8]
            &&& a.home_domain == be32(0) && a.signers == be32(0) && a.ext == be32(0)
        },
{
}

/// A new trustline is to the asset that was asked for, with the balance that
/// was asked for; it is authorized and has no limit.
pub proof fn law_new_trustlines_are_open(account: Seq<u8>, asset: Seq<u8>, balance: i64, ledger: u32)
    ensures
        fresh_trustline(account, asset, balance, ledger).last_modified_ledger_seq == ledger,
        fresh_trustline(account, asset, balance, ledger).data matches DataView::Trustline(t) && {
            &&& t.account_id == account
            &&& t.asset == asset
            &&& t.balance == balance
            &&& t.limit == i64::MAX
            &&& t.flags == 1
            &&& t.ext == be32(0)
        },
{
}

/// An entry stands for the parts that it holds.
pub proof fn law_entries_stand_for_what_they_hold(
    a: AccountEntry,
    t: TrustLineEntry,
    c: ContractDataEntry,
    e: LedgerEntry,
)
    ensures
        a@.account_id == a.account_id@ && a@.balance == a.balance && a@.seq_num == a.seq_num
            && a@.num_sub_entries == a.num_sub_entries && a@.flags == a.flags && a@.home_domain
            == a.home_domain@ && a@.thresholds == a.thresholds@ && a@.signers == a.signers@ && a@.ext == a.ext@,
        a.inflation_dest matches Some(d) ==> a@.inflation_dest == Some(d@),
        a.inflation_dest is None ==> a@.inflation_dest is None,
        t@.account_id == t.account_id@ && t@.asset == t.asset@ && t@.balance == t.balance && t@.limit
            == t.limit && t@.flags == t.flags && t@.ext == t.ext@,
        c@.contract == c.contract@ && c@.key == c.key@ && c@.durability == c.durability && c@.val == c.val@,
        e@.last_modified_ledger_seq == e.last_modified_ledger_seq && e@.data == e.data@ && e@.ext == e.ext@,
        LedgerEntryData::Account(a)@ == DataView::Account(a@),
        LedgerEntryData::Trustline(t)@ == DataView::Trustline(t@),
        LedgerEntryData::ContractData(c)@ == DataView::ContractData(c@),
{
}

} // verus!

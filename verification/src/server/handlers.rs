//! How each method goes about its work.
//!
//! A request is answered in rounds: the method asks the worker for something
//! and, when the reply is there, goes on from where it was. [`start`] opens
//! the first round and [`resume`] every later one.

use vstd::prelude::*;
use vstd::utf8::{encode_utf8, is_ascii_chars_encode_utf8};

use crate::codec::{
    account_key_xdr, asset_xdr, base64_decode, base64_decoded, base64_encode, base64_encoded, be32,
    bytes_result, canonical_key_of, canonical_scval, canonical_scval_of, carries,
    contract_address_xdr, contract_code_key_xdr, contract_data_key_xdr, diagnostic_event_of,
    encode_diagnostic_event, encode_instance_key_scval, instance_key_scval, intact, is_asset,
    is_contract_address, sha256, sha256_of, trustline_key_xdr, Durability, TrustLineAsset,
};
use crate::error::ForkError;
use crate::fork::{seconds_of, LEDGER_INTERVAL_SECONDS};
use crate::ledger::{
    data_text, data_xdr, decode_entry, decoded_entry, empty_xdr, fresh_account, fresh_trustline,
    lemma_account_numbers, lemma_trustline_balance, lemma_writable_reads_back, new_account,
    new_trustline, plain, reads_back, settled, AccountView, ContractDataEntry, ContractDataView,
    DataView, EntryView, LedgerEntry, LedgerEntryData, LedgerKey, TrustLineView,
};
use crate::server::actor::{
    can_be_written, carried_out, found_under, row_option, Command, LatestLedgerReply,
    LedgerEntriesReply, LedgersPageReply, NetworkReply, Receipt, Reply, SendReply, SimulationReply,
    WorkStep, WorkerView,
};
use crate::server::types::{
    bad_params, broken, AssetWire, CloseLedgersParams, CloseLedgersResponse, EtchParams,
    GetLedgerEntriesParams, GetLedgerEntriesResponse, GetLedgersResponse, GetTransactionParams,
    GetTransactionResponse, HealthResponse, JsonRpcError, LatestLedgerResponse, LedgerEntryItem,
    LedgerInfo, NetworkResponse, SendTransactionParams, SendTransactionResponse, SetBalanceParams,
    SetBalanceResponse, SetCodeParams, SetCodeResponse, SetLedgerEntryParams,
    SetLedgerEntryResponse, SetStorageParams, SimulateHostFunctionResult, SimulateTransactionParams,
    SimulateTransactionResponse, SimulationCost, StorageDurability, VersionInfoResponse,
};
use crate::render::{i128_from_pieces, i128_to_pieces};
use crate::scval::{i128_value, scval_debug, scval_debug_of};
use crate::source::{LedgerRow, RowView};
use crate::strkey::{
    account_of_strkey, contract_of_strkey, parse_account_strkey, parse_contract_strkey,
};
use crate::text::{
    decimal, hex, hex_digit, hex_encode, i128_parse_error_of, i128_text, i64_parse_error_of,
    i64_text, join2, join3, join4, join5, parse_i128, parse_i64, parsed_int, quoted, quoted_of,
    u32_text, u64_text, usize_text,
};
use crate::transaction::{
    account_scval_xdr, all_bytes, call_envelope_xdr, call_xdr, contract_code_xdr, decode_balance,
    decode_envelope, decode_instance_storage, decode_operation, decode_transaction,
    encode_account_scval, encode_call, encode_call_envelope, encode_contract_address,
    encode_contract_code, encode_i128_scval, encode_instance, envelope_of, i128_scval_xdr,
    instance_storage_of, instance_xdr, is_call, is_small_number, law_numbers_read_back,
    lemma_number_len, number_xdr, operation_of, readable, transaction_data, transaction_of,
    used_xdr, BalanceValue, BodyView, Envelope, EnvelopeView, Operation, OperationBody,
    OperationView, Transaction, TransactionView,
};

verus! {

/// The commit that the server was built from.
pub const COMMIT_HASH: &'static str = "unknown";

/// When the server was built.
pub const BUILD_TIMESTAMP: &'static str = "unknown";

/// The version of the node behind the server: there is none.
pub const CAPTIVE_CORE_VERSION: &'static str = "n/a (forked-RPC mode)";

// ---------------------------------------------------------------------------
// Hashes in hexadecimal
// ---------------------------------------------------------------------------

/// The value of a hexadecimal digit.
pub open spec fn nibble(c: char) -> Option<int> {
    if '0' <= c && c <= '9' {
        Some(c as int - '0' as int)
    } else if 'a' <= c && c <= 'f' {
        Some(c as int - 'a' as int + 10)
    } else if 'A' <= c && c <= 'F' {
        Some(c as int - 'A' as int + 10)
    } else {
        None
    }
}

/// The hash that 64 hexadecimal digits spell; nothing where the text is
/// anything else.
pub open spec fn hash_spelled(s: Seq<char>) -> Option<Seq<u8>> {
    if s.len() == 64 && forall|i: int| 0 <= i < 64 ==> nibble(#[trigger] s[i]) is Some {
        Some(Seq::new(32, |i: int| (nibble(s[2 * i])->0 * 16 + nibble(s[2 * i + 1])->0) as u8))
    } else {
        None
    }
}

/// The value of a hexadecimal digit.
pub fn hex_nibble(c: char) -> (r: Option<u8>)
    ensures
        (match r {
            Some(n) => n < 16 && nibble(c) == Some(n as int),
            None => nibble(c) is None,
        }),
{
    if '0' <= c && c <= '9' {
        Some((c as u32 - 48) as u8)
    } else if 'a' <= c && c <= 'f' {
        Some((c as u32 - 87) as u8)
    } else if 'A' <= c && c <= 'F' {
        Some((c as u32 - 55) as u8)
    } else {
        None
    }
}

/// A hash in lower-case hexadecimal.
pub fn hex_lower(bytes: &[u8; 32]) -> (r: String)
    ensures
        r@ == hex(bytes@),
{
    hex_encode(bytes.as_slice())
}

/// Read a hash from 64 hexadecimal digits.
pub fn parse_hex32(s: &str) -> (r: Option<[u8; 32]>)
    ensures
        (match r {
            Some(h) => hash_spelled(s@) == Some(h@),
            None => hash_spelled(s@) is None,
        }),
{
    if s.unicode_len() != 64 {
        return None;
    }
    let mut out: [u8; 32] = [0u8; 32];
    let mut i: usize = 0;
    while i < 32
        invariant
            i <= 32,
            s@.len() == 64,
            out@.len() == 32,
            forall|j: int| 0 <= j < 2 * i ==> nibble(#[trigger] s@[j]) is Some,
            forall|j: int|
                0 <= j < i ==> #[trigger] out@[j] == nibble(s@[2 * j])->0 * 16 + nibble(
                    s@[2 * j + 1],
                )->0,
        decreases 32 - i,
    {
        let hi: u8 = match hex_nibble(s.get_char(2 * i)) {
            Some(n) => n,
            None => {
                assert(nibble(s@[2 * i as int]) is None);
                return None;
            },
        };
        let lo: u8 = match hex_nibble(s.get_char(2 * i + 1)) {
            Some(n) => n,
            None => {
                assert(nibble(s@[2 * i + 1]) is None);
                return None;
            },
        };
        out[i] = hi * 16 + lo;
        i = i + 1;
    }
    assert(hash_spelled(s@)->0 =~= out@);
    Some(out)
}

/// Reading a hash back from its hexadecimal form gives the same hash.
pub proof fn law_hashes_read_back(hash: Seq<u8>)
    requires
        hash.len() == 32,
    ensures
        hash_spelled(hex(hash)) == Some(hash),
{
    let s = hex(hash);
    assert forall|i: int| 0 <= i < 64 implies nibble(#[trigger] s[i]) is Some && nibble(s[i])->0 == (if i % 2
        == 0 {
        hash[i / 2] as int / 16
    } else {
        hash[i / 2] as int % 16
    }) by {
        let d = if i % 2 == 0 {
            hash[i / 2] as int / 16
        } else {
            hash[i / 2] as int % 16
        };
        assert(0 <= d < 16);
        assert(s[i] == hex_digit(d));
    }
    assert forall|i: int| 0 <= i < 32 implies #[trigger] hash_spelled(s)->0[i] == hash[i] by {
        assert(s[2 * i] == s[2 * i]);
        assert(s[2 * i + 1] == s[2 * i + 1]);
    }
    assert(hash_spelled(s)->0 =~= hash);
}

// ---------------------------------------------------------------------------
// Telling about the fork
// ---------------------------------------------------------------------------

/// Answer `getHealth`: the fork is always healthy, and has one ledger.
pub fn handle_get_health(reply: &LatestLedgerReply) -> (r: HealthResponse)
    ensures
        r.status@ == "healthy"@,
        r.latest_ledger == reply.sequence,
        r.oldest_ledger == reply.sequence,
        r.ledger_retention_window == 0,
{
    HealthResponse {
        status: "healthy",
        latest_ledger: reply.sequence,
        oldest_ledger: reply.sequence,
        ledger_retention_window: 0,
    }
}

/// Answer `getVersionInfo`.
pub fn handle_get_version_info(version: &str, reply: &NetworkReply) -> (r: VersionInfoResponse)
    ensures
        r.version@ == version@,
        r.commit_hash@ == COMMIT_HASH@,
        r.build_timestamp@ == BUILD_TIMESTAMP@,
        r.captive_core_version@ == CAPTIVE_CORE_VERSION@,
        r.protocol_version == reply.protocol_version,
{
    VersionInfoResponse {
        version: version.to_owned(),
        commit_hash: COMMIT_HASH,
        build_timestamp: BUILD_TIMESTAMP,
        captive_core_version: CAPTIVE_CORE_VERSION,
        protocol_version: reply.protocol_version,
    }
}

/// Answer `getNetwork`. A fork has no friendbot.
pub fn handle_get_network(reply: NetworkReply) -> (r: NetworkResponse)
    ensures
        r.passphrase@ == reply.passphrase@,
        r.protocol_version == reply.protocol_version,
        r.network_id@ == reply.network_id_hex@,
        r.friendbot_url is None,
{
    NetworkResponse {
        passphrase: reply.passphrase,
        protocol_version: reply.protocol_version,
        network_id: reply.network_id_hex,
        friendbot_url: None,
    }
}

/// Answer `getLatestLedger`.
pub fn handle_get_latest_ledger(reply: LatestLedgerReply) -> (r: LatestLedgerResponse)
    ensures
        r.id@ == reply.id@,
        r.sequence == reply.sequence,
        r.protocol_version == reply.protocol_version,
{
    LatestLedgerResponse {
        id: reply.id,
        sequence: reply.sequence,
        protocol_version: reply.protocol_version,
    }
}

/// Whether this is the answer to `getLedgers`: the one ledger that the fork
/// has, whatever was asked for.
pub open spec fn one_ledger(reply: LedgersPageReply, r: GetLedgersResponse) -> bool {
    let time = decimal(reply.close_time as int);
    &&& r.ledgers@.len() == 1
    &&& r.ledgers@[0].hash@ == "forked-ledger-hash-"@ + decimal(reply.sequence as int)
    &&& r.ledgers@[0].sequence == reply.sequence
    &&& r.ledgers@[0].ledger_close_time@ == time
    &&& r.latest_ledger == reply.sequence
    &&& r.latest_ledger_close_time@ == time
    &&& r.oldest_ledger == reply.sequence
    &&& r.oldest_ledger_close_time@ == time
    &&& r.cursor@ == ""@
}

/// Answer `getLedgers`.
pub fn handle_get_ledgers(reply: &LedgersPageReply) -> (r: GetLedgersResponse)
    ensures
        one_ledger(*reply, r),
{
    let mut ledgers: Vec<LedgerInfo> = Vec::new();
    ledgers.push(
        LedgerInfo {
            hash: join2("forked-ledger-hash-", u32_text(reply.sequence).as_str()),
            sequence: reply.sequence,
            ledger_close_time: u64_text(reply.close_time),
        },
    );
    GetLedgersResponse {
        ledgers,
        latest_ledger: reply.sequence,
        latest_ledger_close_time: u64_text(reply.close_time),
        oldest_ledger: reply.sequence,
        oldest_ledger_close_time: u64_text(reply.close_time),
        cursor: "".to_owned(),
    }
}

// ---------------------------------------------------------------------------
// Reading parameters
// ---------------------------------------------------------------------------

/// The bytes that a parameter holds in base64, or the message to refuse it
/// with.
pub open spec fn param_bytes(name: Seq<char>, text: Seq<char>) -> Result<Seq<u8>, Seq<char>> {
    match base64_decoded(text) {
        Ok(b) => Ok(b),
        Err(e) => Err(name + ": base64 decode: "@ + e),
    }
}

/// The ledger key that a parameter holds, or the message to refuse it with.
pub open spec fn param_key(name: Seq<char>, text: Seq<char>) -> Result<Seq<u8>, Seq<char>> {
    match param_bytes(name, text) {
        Err(m) => Err(m),
        Ok(b) => match canonical_key_of(b) {
            Ok(k) => Ok(k),
            Err(e) => Err(name + ": XDR decode: "@ + e),
        },
    }
}

/// The contract value that a parameter holds, as XDR, or the message to
/// refuse it with.
pub open spec fn param_scval(name: Seq<char>, text: Seq<char>) -> Result<Seq<u8>, Seq<char>> {
    match param_bytes(name, text) {
        Err(m) => Err(m),
        Ok(b) => match canonical_scval_of(b) {
            Ok(v) => Ok(v),
            Err(e) => Err(name + ": ScVal XDR decode: "@ + e),
        },
    }
}

/// The entry that a parameter holds, or the message to refuse it with.
pub open spec fn param_entry(name: Seq<char>, text: Seq<char>) -> Result<EntryView, Seq<char>> {
    match param_bytes(name, text) {
        Err(m) => Err(m),
        Ok(b) => match decoded_entry(b) {
            Ok(e) => Ok(e),
            Err(e) => Err(name + ": XDR decode: "@ + e),
        },
    }
}

fn read_bytes(name: &str, text: &str) -> (r: Result<Vec<u8>, JsonRpcError>)
    ensures
        (match param_bytes(name@, text@) {
            Ok(b) => r matches Ok(v) && v@ == b,
            Err(m) => r matches Err(e) && e@ == bad_params(m),
        }),
{
    match base64_decode(text) {
        Ok(v) => Ok(v),
        Err(e) => Err(
            JsonRpcError::invalid_params(join3(name, ": base64 decode: ", e.as_str()).as_str()),
        ),
    }
}

fn read_key(name: &str, text: &str) -> (r: Result<LedgerKey, JsonRpcError>)
    ensures
        (match param_key(name@, text@) {
            Ok(k) => r matches Ok(key) && key@ == k,
            Err(m) => r matches Err(e) && e@ == bad_params(m),
        }),
{
    match read_bytes(name, text) {
        Err(e) => Err(e),
        Ok(b) => match LedgerKey::from_xdr(b.as_slice()) {
            Ok(k) => Ok(k),
            Err(e) => Err(
                JsonRpcError::invalid_params(join3(name, ": XDR decode: ", e.as_str()).as_str()),
            ),
        },
    }
}

fn read_scval(name: &str, text: &str) -> (r: Result<Vec<u8>, JsonRpcError>)
    ensures
        (match param_scval(name@, text@) {
            Ok(b) => (r matches Ok(v) && v@ == b) && canonical_scval_of(b) == intact(b),
            Err(m) => r matches Err(e) && e@ == bad_params(m),
        }),
{
    match read_bytes(name, text) {
        Err(e) => Err(e),
        Ok(b) => match canonical_scval(b.as_slice()) {
            Ok(v) => Ok(v),
            Err(e) => Err(
                JsonRpcError::invalid_params(join3(name, ": ScVal XDR decode: ", e.as_str()).as_str()),
            ),
        },
    }
}

fn read_entry(name: &str, text: &str) -> (r: Result<LedgerEntry, JsonRpcError>)
    ensures
        (match param_entry(name@, text@) {
            Ok(v) => (r matches Ok(entry) && entry@ == v) && reads_back(v),
            Err(m) => r matches Err(e) && e@ == bad_params(m),
        }),
{
    match read_bytes(name, text) {
        Err(e) => Err(e),
        Ok(b) => match decode_entry(b.as_slice()) {
            Ok(entry) => Ok(entry),
            Err(ForkError::Xdr(e)) => Err(
                JsonRpcError::invalid_params(join3(name, ": XDR decode: ", e.as_str()).as_str()),
            ),
            Err(e) => Err(JsonRpcError::internal_error(e.to_text().as_str())),
        },
    }
}

// ---------------------------------------------------------------------------
// getLedgerEntries
// ---------------------------------------------------------------------------

/// How messages name a key.
pub open spec fn key_name(i: int) -> Seq<char> {
    "keys["@ + decimal(i) + "]"@
}

/// The number of the first key from `from` on that is refused.
pub open spec fn first_refused(keys: Seq<String>, from: int) -> Option<int>
    decreases keys.len() - from,
{
    if from < 0 || from >= keys.len() {
        None
    } else if param_key(key_name(from), keys[from]@) is Err {
        Some(from)
    } else {
        first_refused(keys, from + 1)
    }
}

/// Whether some ledger keys are those that the parameters hold, in order.
pub open spec fn are_params(keys: Seq<String>, read: Seq<LedgerKey>) -> bool {
    &&& read.len() == keys.len()
    &&& forall|i: int|
        0 <= i < keys.len() ==> (#[trigger] read[i])@ == param_key(key_name(i), keys[i]@)->Ok_0
}

/// Read the keys that `getLedgerEntries` asks for. At least one is needed.
pub fn requested_keys(params: &GetLedgerEntriesParams) -> (r: Result<Vec<LedgerKey>, JsonRpcError>)
    ensures
        (if params.keys@.len() == 0 {
            r matches Err(e) && e@ == bad_params("getLedgerEntries: keys array must be non-empty"@)
        } else {
            match first_refused(params.keys@, 0) {
                Some(i) => r matches Err(e) && e@ == bad_params(
                    param_key(key_name(i), params.keys@[i]@)->Err_0,
                ),
                None => r matches Ok(keys) && are_params(params.keys@, keys@),
            }
        }),
{
    if params.keys.len() == 0 {
        return Err(
            JsonRpcError::invalid_params("getLedgerEntries: keys array must be non-empty"),
        );
    }
    let mut out: Vec<LedgerKey> = Vec::new();
    let mut i: usize = 0;
    while i < params.keys.len()
        invariant
            i <= params.keys@.len(),
            out@.len() == i,
            first_refused(params.keys@, 0) == first_refused(params.keys@, i as int),
            forall|j: int|
                0 <= j < i ==> (#[trigger] out@[j])@ == param_key(key_name(j), params.keys@[j]@)->Ok_0,
        decreases params.keys@.len() - i,
    {
        let name = join3("keys[", usize_text(i).as_str(), "]");
        match read_key(name.as_str(), params.keys[i].as_str()) {
            Ok(k) => out.push(k),
            Err(e) => {
                return Err(e);
            },
        }
        i = i + 1;
    }
    Ok(out)
}

/// The rows that are there, in order.
pub open spec fn present(entries: Seq<Option<LedgerRow>>) -> Seq<RowView>
    decreases entries.len(),
{
    if entries.len() == 0 {
        Seq::empty()
    } else {
        match entries.last() {
            Some(row) => present(entries.drop_last()).push(row@),
            None => present(entries.drop_last()),
        }
    }
}

/// Whether every row's data can be encoded.
pub open spec fn showable(rows: Seq<RowView>) -> bool {
    forall|i: int| 0 <= i < rows.len() ==> data_xdr((#[trigger] rows[i]).entry.data) is Some
}

/// Whether an item shows a row: its key, and what its entry holds.
pub open spec fn shows(item: LedgerEntryItem, row: RowView) -> bool {
    &&& carries(item.key@, row.key)
    &&& data_xdr(row.entry.data) is Some
    &&& carries(item.xdr@, data_xdr(row.entry.data)->0)
    &&& item.last_modified_ledger_seq == row.entry.last_modified_ledger_seq
    &&& item.live_until_ledger_seq == row.live_until
}

/// Answer `getLedgerEntries`: one item for each entry that exists, in the
/// order of the request. Keys without an entry are left out.
pub fn handle_get_ledger_entries(reply: &LedgerEntriesReply) -> (r: Result<
    GetLedgerEntriesResponse,
    JsonRpcError,
>)
    ensures
        r is Ok <==> showable(present(reply.entries@)),
        (match r {
            Ok(body) => {
                let rows = present(reply.entries@);
                &&& body.entries@.len() == rows.len()
                &&& forall|i: int|
                    0 <= i < rows.len() ==> shows(#[trigger] body.entries@[i], rows[i])
                &&& body.latest_ledger == reply.latest_ledger
            },
            Err(e) => e@ == broken(
                "encode response LedgerEntryData: entry data has a malformed part"@,
            ),
        }),
{
    let mut items: Vec<LedgerEntryItem> = Vec::new();
    let mut i: usize = 0;
    assert(reply.entries@.take(0) =~= Seq::<Option<LedgerRow>>::empty());
    while i < reply.entries.len()
        invariant
            i <= reply.entries@.len(),
            items@.len() == present(reply.entries@.take(i as int)).len(),
            forall|j: int|
                0 <= j < items@.len() ==> shows(
                    #[trigger] items@[j],
                    present(reply.entries@.take(i as int))[j],
                ),
        decreases reply.entries@.len() - i,
    {
        assert(reply.entries@.take(i + 1).drop_last() =~= reply.entries@.take(i as int));
        assert(reply.entries@.take(i + 1).last() == reply.entries@[i as int]);
        match &reply.entries[i] {
            Some(row) => match row.entry.data.to_xdr() {
                Some(data) => {
                    items.push(
                        LedgerEntryItem {
                            key: base64_encode(row.key.as_xdr()),
                            xdr: base64_encode(data.as_slice()),
                            last_modified_ledger_seq: row.entry.last_modified_ledger_seq,
                            live_until_ledger_seq: row.live_until,
                        },
                    );
                },
                None => {
                    proof {
                        lemma_present_grows(reply.entries@, i + 1);
                        let n = present(reply.entries@.take(i + 1)).len() - 1;
                        assert(present(reply.entries@.take(i + 1))[n] == row@);
                        assert(present(reply.entries@)[n] == row@);
                    }
                    return Err(
                        JsonRpcError::internal_error(
                            "encode response LedgerEntryData: entry data has a malformed part",
                        ),
                    );
                },
            },
            None => {},
        }
        i = i + 1;
    }
    assert(reply.entries@.take(i as int) =~= reply.entries@);
    proof {
        let rows = present(reply.entries@);
        assert forall|j: int| 0 <= j < rows.len() implies data_xdr((#[trigger] rows[j]).entry.data) is Some by {
            assert(shows(items@[j], rows[j]));
        }
    }
    Ok(GetLedgerEntriesResponse { entries: items, latest_ledger: reply.latest_ledger })
}

/// The rows of the first `n` entries come first among the rows of all.
proof fn lemma_present_grows(entries: Seq<Option<LedgerRow>>, n: int)
    requires
        0 <= n <= entries.len(),
    ensures
        present(entries.take(n)).len() <= present(entries).len(),
        forall|i: int|
            0 <= i < present(entries.take(n)).len() ==> present(entries)[i] == #[trigger] present(
                entries.take(n),
            )[i],
    decreases entries.len() - n,
{
    if n == entries.len() {
        assert(entries.take(n) =~= entries);
    } else {
        lemma_present_grows(entries, n + 1);
        assert(entries.take(n + 1).drop_last() =~= entries.take(n));
        let a = present(entries.take(n));
        let b = present(entries.take(n + 1));
        assert forall|i: int| 0 <= i < a.len() implies present(entries)[i] == #[trigger] a[i] by {
            assert(a[i] == b[i]);
        }
    }
}

// ---------------------------------------------------------------------------
// Transactions
// ---------------------------------------------------------------------------

/// The transaction of an envelope, as XDR, or the message to refuse it with.
pub open spec fn envelope_transaction(e: EnvelopeView) -> Result<Seq<u8>, Seq<char>> {
    match e {
        EnvelopeView::V0 => Err(
            "simulateTransaction: V0 transaction envelopes do not support Soroban operations"@,
        ),
        EnvelopeView::V1(tx) => Ok(tx),
        EnvelopeView::FeeBump(tx) => Ok(tx),
    }
}

/// The one operation of a transaction, as XDR, or the message to refuse it
/// with.
pub open spec fn sole_operation(t: TransactionView) -> Result<Seq<u8>, Seq<char>> {
    if t.operations.len() == 1 {
        Ok(t.operations[0])
    } else {
        Err(
            "simulateTransaction: expected exactly 1 operation, got "@ + decimal(
                t.operations.len() as int,
            ),
        )
    }
}

/// The host function, as XDR, that an operation invokes and the account that
/// it acts for, or the message to refuse the operation with. An operation's
/// own source account comes before the transaction's.
pub open spec fn invocation(source: Seq<u8>, op: OperationView) -> Result<(Seq<u8>, Seq<u8>), Seq<char>> {
    match op.body {
        BodyView::InvokeHostFunction(f) => Ok(
            (
                f,
                match op.source {
                    Some(own) => own,
                    None => source,
                },
            ),
        ),
        BodyView::Other(t) => Err(
            "simulateTransaction: only InvokeHostFunction operations supported, got "@ + t,
        ),
    }
}

/// The host function and the account of an envelope, or the message to refuse
/// it with.
pub open spec fn envelope_invocation(e: EnvelopeView) -> Result<(Seq<u8>, Seq<u8>), Seq<char>> {
    match envelope_transaction(e) {
        Err(m) => Err(m),
        Ok(x) => {
            let t = transaction_of(x)->0;
            match sole_operation(t) {
                Err(m) => Err(m),
                Ok(op) => invocation(t.source, operation_of(op)->0),
            }
        },
    }
}

/// The envelope that a parameter holds, as XDR and taken apart, or the
/// message to refuse it with.
pub open spec fn param_envelope(text: Seq<char>) -> Result<(Seq<u8>, EnvelopeView), Seq<char>> {
    match param_bytes("transaction"@, text) {
        Err(m) => Err(m),
        Ok(bytes) => match envelope_of(bytes) {
            Err(e) => Err("transaction: XDR decode: "@ + e),
            Ok(e) => Ok((bytes, e)),
        },
    }
}

/// The transaction of an envelope, as XDR.
pub fn inner_transaction(envelope: &Envelope) -> (r: Result<&Vec<u8>, JsonRpcError>)
    ensures
        (match envelope_transaction(envelope@) {
            Ok(x) => r matches Ok(tx) && tx@ == x,
            Err(m) => r matches Err(e) && e@ == bad_params(m),
        }),
{
    match envelope {
        Envelope::V0 => Err(
            JsonRpcError::invalid_params(
                "simulateTransaction: V0 transaction envelopes do not support Soroban operations",
            ),
        ),
        Envelope::V1(tx) => Ok(tx),
        Envelope::FeeBump(tx) => Ok(tx),
    }
}

/// The one operation of a transaction, as XDR.
pub fn only_operation(transaction: &Transaction) -> (r: Result<&Vec<u8>, JsonRpcError>)
    ensures
        (match sole_operation(transaction@) {
            Ok(x) => r matches Ok(op) && op@ == x && *op == transaction.operations@[0],
            Err(m) => r matches Err(e) && e@ == bad_params(m),
        }),
{
    let n: usize = transaction.operations.len();
    if n != 1 {
        return Err(
            JsonRpcError::invalid_params(
                join2(
                    "simulateTransaction: expected exactly 1 operation, got ",
                    usize_text(n).as_str(),
                ).as_str(),
            ),
        );
    }
    assert(all_bytes(transaction.operations@)[0] == transaction.operations@[0]@);
    Ok(&transaction.operations[0])
}

/// The host function that an operation invokes, and the account that it acts
/// for.
pub fn invoked_function(source: &[u8; 32], op: Operation) -> (r: Result<(Vec<u8>, [u8; 32]), JsonRpcError>)
    ensures
        (match invocation(source@, op@) {
            Ok((f, account)) => r matches Ok((function, a)) && function@ == f && a@ == account,
            Err(m) => r matches Err(e) && e@ == bad_params(m),
        }),
{
    let account = match op.source {
        Some(own) => own,
        None => *source,
    };
    match op.body {
        OperationBody::InvokeHostFunction(f) => Ok((f, account)),
        OperationBody::Other(t) => Err(
            JsonRpcError::invalid_params(
                join2(
                    "simulateTransaction: only InvokeHostFunction operations supported, got ",
                    t.as_str(),
                ).as_str(),
            ),
        ),
    }
}

fn extract_invoke_op(envelope: &Envelope) -> (r: Result<(Vec<u8>, [u8; 32]), JsonRpcError>)
    requires
        readable(*envelope),
    ensures
        (match envelope_invocation(envelope@) {
            Ok((f, account)) => r matches Ok((function, a)) && function@ == f && a@ == account,
            Err(m) => r matches Err(e) && e@ == bad_params(m),
        }),
{
    let tx = match inner_transaction(envelope) {
        Ok(x) => x,
        Err(e) => {
            return Err(e);
        },
    };
    let transaction = decode_transaction(tx.as_slice());
    let transaction = transaction.unwrap();
    match only_operation(&transaction) {
        Err(e) => Err(e),
        Ok(xdr) => {
            let op = decode_operation(xdr.as_slice());
            invoked_function(&transaction.source, op.unwrap())
        },
    }
}

fn read_envelope(text: &str) -> (r: Result<(Vec<u8>, Envelope), JsonRpcError>)
    ensures
        (match param_envelope(text@) {
            Ok((x, e)) => r matches Ok((bytes, envelope)) && bytes@ == x && envelope@ == e
                && readable(envelope),
            Err(m) => r matches Err(e) && e@ == bad_params(m),
        }),
{
    let bytes = match read_bytes("transaction", text) {
        Ok(b) => b,
        Err(e) => {
            return Err(e);
        },
    };
    match decode_envelope(bytes.as_slice()) {
        Ok(envelope) => Ok((bytes, envelope)),
        Err(e) => Err(
            JsonRpcError::invalid_params(join2("transaction: XDR decode: ", e.as_str()).as_str()),
        ),
    }
}

/// The contents of some texts.
pub open spec fn texts(v: Seq<String>) -> Seq<Seq<char>> {
    v.map_values(|s: String| s@)
}

/// Some byte strings in base64.
pub open spec fn all_base64(v: Seq<Vec<u8>>) -> Seq<Seq<char>> {
    v.map_values(|b: Vec<u8>| base64_encoded(b@))
}

/// Contract events, as diagnostic events of a call that succeeded, in base64.
pub open spec fn wrapped_events(v: Seq<Vec<u8>>) -> Seq<Seq<char>> {
    v.map_values(|b: Vec<u8>| base64_encoded(diagnostic_event_of(true, b@)->Ok_0))
}

/// The number of the first contract event from `from` on that cannot be
/// wrapped.
pub open spec fn first_unwrappable(v: Seq<Vec<u8>>, from: int) -> Option<int>
    decreases v.len() - from,
{
    if from < 0 || from >= v.len() {
        None
    } else if diagnostic_event_of(true, v[from]@) is Err {
        Some(from)
    } else {
        first_unwrappable(v, from + 1)
    }
}

/// The fee that the transaction data declares: the one that the reply names,
/// or nothing.
pub open spec fn declared_fee(fee: Option<i64>) -> i64 {
    match fee {
        Some(n) => n,
        None => 0,
    }
}

/// Why a simulation that succeeded cannot be put on the wire.
pub open spec fn wire_failure(reply: SimulationReply) -> Option<Seq<char>> {
    match used_xdr(reply.resources, declared_fee(reply.min_resource_fee)) {
        Err(m) => Some("encode SorobanTransactionData: "@ + m),
        Ok(_) => match first_unwrappable(reply.contract_events@, 0) {
            Some(i) => Some(
                "encode contract event: "@ + diagnostic_event_of(
                    true,
                    reply.contract_events@[i]@,
                )->Err_0,
            ),
            None => None,
        },
    }
}

/// Whether this is the answer for a simulation that failed: nothing but the
/// reason and the ledger.
pub open spec fn shows_failure(reason: Seq<char>, latest_ledger: u32, body: SimulateTransactionResponse) -> bool {
    &&& body.transaction_data is None
    &&& body.min_resource_fee is None
    &&& body.events is None
    &&& body.results is None
    &&& body.cost is None
    &&& body.latest_ledger == latest_ledger
    &&& body.error matches Some(e) && e@ == reason
}

/// Whether each text carries the bytes at its place, and there are no others.
pub open spec fn all_carried(texts: Seq<String>, v: Seq<Vec<u8>>) -> bool {
    &&& texts.len() == v.len()
    &&& forall|i: int| 0 <= i < v.len() ==> carries((#[trigger] texts[i])@, v[i]@)
}

/// Whether a text carries the diagnostic event that wraps a contract event.
pub open spec fn carries_event(text: Seq<char>, event: Seq<u8>) -> bool {
    diagnostic_event_of(true, event) matches Ok(x) && carries(text, x)
}

/// Whether each text carries the contract event at its place, and there are
/// no others.
pub open spec fn carry_events(texts: Seq<String>, v: Seq<Vec<u8>>) -> bool {
    &&& texts.len() == v.len()
    &&& forall|i: int| 0 <= i < v.len() ==> carries_event((#[trigger] texts[i])@, v[i]@)
}

/// Whether this is the answer for a simulation that gave a value.
pub open spec fn shows_success(reply: SimulationReply, body: SimulateTransactionResponse) -> bool {
    &&& body.transaction_data matches Some(t) && carries(
        t@,
        used_xdr(reply.resources, declared_fee(reply.min_resource_fee))->Ok_0,
    )
    &&& match reply.min_resource_fee {
        Some(n) => body.min_resource_fee matches Some(t) && t@ == decimal(n as int),
        None => body.min_resource_fee is None,
    }
    &&& body.events matches Some(v) && texts(v@) == wrapped_events(reply.contract_events@) + all_base64(
        reply.diagnostic_events@,
    ) && v@.len() >= reply.contract_events@.len() && carry_events(
        v@.take(reply.contract_events@.len() as int),
        reply.contract_events@,
    ) && all_carried(
        v@.skip(reply.contract_events@.len() as int),
        reply.diagnostic_events@,
    )
    &&& body.results matches Some(v) && v@.len() == 1 && texts(v@[0].auth@) == all_base64(reply.auth@)
        && all_carried(v@[0].auth@, reply.auth@) && carries(v@[0].xdr@, reply.result->Ok_0@)
    &&& match reply.mem_bytes {
        Some(n) => body.cost matches Some(c) && c.cpu_insns@ == decimal(reply.resources.instructions as int)
            && c.mem_bytes@ == decimal(n as int),
        None => body.cost is None,
    }
    &&& body.latest_ledger == reply.latest_ledger
    &&& body.error is None
}

/// Whether this is what comes of putting a simulation on the wire.
pub open spec fn on_the_wire(
    reply: SimulationReply,
    r: Result<SimulateTransactionResponse, JsonRpcError>,
) -> bool {
    match reply.result {
        Err(reason) => r matches Ok(body) && shows_failure(reason@, reply.latest_ledger, body),
        Ok(_) => match wire_failure(reply) {
            Some(m) => r matches Err(e) && e@ == broken(m),
            None => r matches Ok(body) && shows_success(reply, body),
        },
    }
}

fn encode_all(v: &Vec<Vec<u8>>) -> (r: Vec<String>)
    ensures
        texts(r@) == all_base64(v@),
        all_carried(r@, v@),
{
    let mut out: Vec<String> = Vec::new();
    let mut i: usize = 0;
    while i < v.len()
        invariant
            i <= v@.len(),
            texts(out@) == all_base64(v@.take(i as int)),
            all_carried(out@, v@.take(i as int)),
        decreases v@.len() - i,
    {
        let ghost now = texts(out@);
        out.push(base64_encode(v[i].as_slice()));
        i = i + 1;
        assert(texts(out@) =~= now.push(base64_encoded(v@[i - 1]@)));
        assert(all_base64(v@.take(i as int)) =~= now.push(base64_encoded(v@[i - 1]@)));
    }
    assert(v@.take(i as int) =~= v@);
    out
}

fn encode_events(v: &Vec<Vec<u8>>) -> (r: Result<Vec<String>, JsonRpcError>)
    ensures
        (match first_unwrappable(v@, 0) {
            None => r matches Ok(out) && texts(out@) == wrapped_events(v@) && carry_events(out@, v@),
            Some(i) => r matches Err(e) && e@ == broken(
                "encode contract event: "@ + diagnostic_event_of(true, v@[i]@)->Err_0,
            ),
        }),
{
    let mut out: Vec<String> = Vec::new();
    let mut i: usize = 0;
    while i < v.len()
        invariant
            i <= v@.len(),
            first_unwrappable(v@, 0) == first_unwrappable(v@, i as int),
            texts(out@) == wrapped_events(v@.take(i as int)),
            carry_events(out@, v@.take(i as int)),
        decreases v@.len() - i,
    {
        let ghost now = texts(out@);
        match encode_diagnostic_event(true, v[i].as_slice()) {
            Ok(x) => {
                out.push(base64_encode(x.as_slice()));
                assert(texts(out@) =~= now.push(
                    base64_encoded(diagnostic_event_of(true, v@[i as int]@)->Ok_0),
                ));
            },
            Err(e) => {
                return Err(
                    JsonRpcError::internal_error(join2("encode contract event: ", e.as_str()).as_str()),
                );
            },
        }
        i = i + 1;
        assert(wrapped_events(v@.take(i as int)) =~= now.push(
            base64_encoded(diagnostic_event_of(true, v@[i - 1]@)->Ok_0),
        ));
    }
    assert(v@.take(i as int) =~= v@);
    Ok(out)
}

/// Put a simulation on the wire. One that failed shows the reason and nothing
/// else.
pub fn encode_simulation_reply(reply: &SimulationReply) -> (r: Result<
    SimulateTransactionResponse,
    JsonRpcError,
>)
    ensures
        on_the_wire(*reply, r),
{
    let value = match &reply.result {
        Ok(v) => v,
        Err(reason) => {
            return Ok(
                SimulateTransactionResponse {
                    transaction_data: None,
                    min_resource_fee: None,
                    events: None,
                    results: None,
                    cost: None,
                    latest_ledger: reply.latest_ledger,
                    error: Some(reason.as_str().to_owned()),
                },
            );
        },
    };
    let auth = encode_all(&reply.auth);
    let (resource_fee, min_resource_fee): (i64, Option<String>) = match reply.min_resource_fee {
        Some(n) => (n, Some(i64_text(n))),
        None => (0, None),
    };
    let data = match transaction_data(&reply.resources, resource_fee) {
        Ok(x) => x,
        Err(e) => {
            return Err(
                JsonRpcError::internal_error(
                    join2("encode SorobanTransactionData: ", e.as_str()).as_str(),
                ),
            );
        },
    };
    let mut events = match encode_events(&reply.contract_events) {
        Ok(v) => v,
        Err(e) => {
            return Err(e);
        },
    };
    let mut diagnostics = encode_all(&reply.diagnostic_events);
    let ghost first = events@;
    let ghost second = diagnostics@;
    events.append(&mut diagnostics);
    assert(texts(first + second) =~= texts(first) + texts(second));
    assert(events@.take(first.len() as int) =~= first);
    assert(events@.skip(first.len() as int) =~= second);
    let cost = match reply.mem_bytes {
        Some(n) => Some(
            SimulationCost {
                cpu_insns: u32_text(reply.resources.instructions),
                mem_bytes: u64_text(n),
            },
        ),
        None => None,
    };
    let mut results: Vec<SimulateHostFunctionResult> = Vec::new();
    results.push(SimulateHostFunctionResult { auth, xdr: base64_encode(value.as_slice()) });
    Ok(
        SimulateTransactionResponse {
            transaction_data: Some(base64_encode(data.as_slice())),
            min_resource_fee,
            events: Some(events),
            results: Some(results),
            cost,
            latest_ledger: reply.latest_ledger,
            error: None,
        },
    )
}

/// Whether this is the answer for a transaction that was sent.
pub open spec fn shows_sent(
    envelope: Seq<char>,
    sent: SendReply,
    latest_ledger: u32,
    close_time: u64,
    body: SendTransactionResponse,
) -> bool {
    &&& body.hash@ == hex(sent.hash@)
    &&& body.latest_ledger == latest_ledger
    &&& body.latest_ledger_close_time@ == decimal(close_time as int)
    &&& body.envelope_xdr@ == envelope
    &&& body.applied_changes == sent.receipt.applied_changes
    &&& match sent.receipt.result {
        Ok(_) => body.status@ == "SUCCESS"@ && body.error_message is None,
        Err(m) => body.status@ == "ERROR"@ && (body.error_message matches Some(t) && t@ == m@),
    }
}

/// Answer `sendTransaction`.
pub fn handle_send_transaction(envelope: String, sent: &SendReply, latest_ledger: u32, close_time: u64) -> (r:
    SendTransactionResponse)
    ensures
        shows_sent(envelope@, *sent, latest_ledger, close_time, r),
{
    let (status, error_message): (&'static str, Option<String>) = match &sent.receipt.result {
        Ok(_) => ("SUCCESS", None),
        Err(m) => ("ERROR", Some(m.as_str().to_owned())),
    };
    SendTransactionResponse {
        status,
        hash: hex_lower(&sent.hash),
        latest_ledger,
        latest_ledger_close_time: u64_text(close_time),
        envelope_xdr: envelope,
        error_message,
        applied_changes: sent.receipt.applied_changes,
    }
}

/// Whether this is the answer about a transaction.
pub open spec fn shows_receipt(receipt: Option<Receipt>, latest_ledger: u32, body: GetTransactionResponse) -> bool {
    &&& body.latest_ledger == latest_ledger
    &&& match receipt {
        None => {
            &&& body.status@ == "NOT_FOUND"@
            &&& body.ledger is None
            &&& body.created_at is None
            &&& body.envelope_xdr is None
            &&& body.return_value_xdr is None
            &&& body.error_message is None
            &&& body.applied_changes is None
        },
        Some(r) => {
            &&& body.ledger == Some(r.ledger)
            &&& body.created_at matches Some(t) && t@ == decimal(r.created_at as int)
            &&& body.envelope_xdr matches Some(t) && carries(t@, r.envelope_bytes@)
            &&& body.applied_changes == Some(r.applied_changes)
            &&& match r.result {
                Ok(v) => {
                    &&& body.status@ == "SUCCESS"@
                    &&& body.return_value_xdr matches Some(t) && carries(t@, v@)
                    &&& body.error_message is None
                },
                Err(m) => {
                    &&& body.status@ == "FAILED"@
                    &&& body.return_value_xdr is None
                    &&& body.error_message matches Some(t) && t@ == m@
                },
            }
        },
    }
}

/// Answer `getTransaction`.
pub fn handle_get_transaction(receipt: &Option<Receipt>, latest_ledger: u32) -> (r: GetTransactionResponse)
    ensures
        shows_receipt(*receipt, latest_ledger, r),
{
    match receipt {
        None => GetTransactionResponse {
            status: "NOT_FOUND",
            latest_ledger,
            ledger: None,
            created_at: None,
            envelope_xdr: None,
            return_value_xdr: None,
            error_message: None,
            applied_changes: None,
        },
        Some(r) => {
            let (status, return_value_xdr, error_message): (
                &'static str,
                Option<String>,
                Option<String>,
            ) = match &r.result {
                Ok(v) => ("SUCCESS", Some(base64_encode(v.as_slice())), None),
                Err(m) => ("FAILED", None, Some(m.as_str().to_owned())),
            };
            GetTransactionResponse {
                status,
                latest_ledger,
                ledger: Some(r.ledger),
                created_at: Some(u64_text(r.created_at)),
                envelope_xdr: Some(base64_encode(r.envelope_bytes.as_slice())),
                return_value_xdr,
                error_message,
                applied_changes: Some(r.applied_changes),
            }
        },
    }
}

// ---------------------------------------------------------------------------
// Writing storage and code
// ---------------------------------------------------------------------------

/// The contract that a parameter names by its strkey, or the message to
/// refuse it with.
pub open spec fn param_contract(name: Seq<char>, text: Seq<char>) -> Result<Seq<u8>, Seq<char>> {
    match contract_of_strkey(text) {
        Some(id) => Ok(id),
        None => Err(name + ": not a valid C... strkey: "@ + "the strkey is invalid"@),
    }
}

/// The account that a parameter names by its strkey, or the message to refuse
/// it with.
pub open spec fn param_account(name: Seq<char>, text: Seq<char>) -> Result<Seq<u8>, Seq<char>> {
    match account_of_strkey(text) {
        Some(id) => Ok(id),
        None => Err(name + ": not a valid G... strkey: "@ + "the strkey is invalid"@),
    }
}

fn read_contract(name: &str, text: &str) -> (r: Result<[u8; 32], JsonRpcError>)
    ensures
        (match param_contract(name@, text@) {
            Ok(id) => r matches Ok(a) && a@ == id,
            Err(m) => r matches Err(e) && e@ == bad_params(m),
        }),
{
    match parse_contract_strkey(text) {
        Ok(id) => Ok(id),
        Err(e) => Err(
            JsonRpcError::invalid_params(
                join3(name, ": not a valid C... strkey: ", e.as_str()).as_str(),
            ),
        ),
    }
}

fn read_account(name: &str, text: &str) -> (r: Result<[u8; 32], JsonRpcError>)
    ensures
        (match param_account(name@, text@) {
            Ok(id) => r matches Ok(a) && a@ == id,
            Err(m) => r matches Err(e) && e@ == bad_params(m),
        }),
{
    match parse_account_strkey(text) {
        Ok(id) => Ok(id),
        Err(e) => Err(
            JsonRpcError::invalid_params(
                join3(name, ": not a valid G... strkey: ", e.as_str()).as_str(),
            ),
        ),
    }
}

/// How long a storage entry lives that is to be written.
pub open spec fn wanted_durability(d: Option<StorageDurability>) -> Durability {
    match d {
        Some(StorageDurability::Temporary) => Durability::Temporary,
        _ => Durability::Persistent,
    }
}

/// An entry of a contract's storage, as it is written: it does not say which
/// ledger changed it.
pub open spec fn storage_entry(contract: Seq<u8>, key: Seq<u8>, durability: Durability, val: Seq<u8>) -> EntryView {
    EntryView {
        last_modified_ledger_seq: 0,
        data: DataView::ContractData(
            ContractDataView { contract: contract_address_xdr(contract), key, durability, val },
        ),
        ext: be32(0),
    }
}

/// An entry of contract code, as it is written: it does not say which ledger
/// changed it.
pub open spec fn code_entry(hash: Seq<u8>, code: Seq<u8>) -> EntryView {
    EntryView {
        last_modified_ledger_seq: 0,
        data: DataView::Other(contract_code_xdr(hash, code)),
        ext: be32(0),
    }
}

/// The key and the entry that `fork_setStorage` writes, or the message to
/// refuse its parameters with.
pub open spec fn storage_to_write(p: SetStorageParams) -> Result<(Seq<u8>, EntryView), Seq<char>> {
    match param_contract("contract"@, p.contract@) {
        Err(m) => Err(m),
        Ok(contract) => match param_scval("key"@, p.key@) {
            Err(m) => Err(m),
            Ok(key) => match param_scval("value"@, p.value@) {
                Err(m) => Err(m),
                Ok(val) => {
                    let durability = wanted_durability(p.durability);
                    Ok(
                        (
                            contract_data_key_xdr(contract, key, durability),
                            storage_entry(contract, key, durability, val),
                        ),
                    )
                },
            },
        },
    }
}

/// The code, its key and its entry that `fork_setCode` writes, or the message
/// to refuse its parameters with. The key is that of the code's own hash.
pub open spec fn code_to_write(wasm: Seq<char>) -> Result<(Seq<u8>, Seq<u8>, EntryView), Seq<char>> {
    match param_bytes("wasm"@, wasm) {
        Err(m) => Err(m),
        Ok(code) => if code.len() > u32::MAX {
            Err("wasm: bytes exceed XDR BytesM<u32::MAX> capacity"@)
        } else {
            let hash = sha256_of(code);
            Ok((hash, contract_code_key_xdr(hash), code_entry(hash, code)))
        },
    }
}

fn new_storage_entry(contract: &[u8; 32], key: Vec<u8>, durability: Durability, val: Vec<u8>) -> (r:
    LedgerEntry)
    ensures
        r@ == storage_entry(contract@, key@, durability, val@),
{
    LedgerEntry {
        last_modified_ledger_seq: 0,
        data: LedgerEntryData::ContractData(
            ContractDataEntry { contract: encode_contract_address(contract), key, durability, val },
        ),
        ext: empty_xdr(),
    }
}

/// Read the parameters of `fork_setStorage`.
pub fn read_storage_write(p: &SetStorageParams) -> (r: Result<(LedgerKey, LedgerEntry), JsonRpcError>)
    ensures
        (match storage_to_write(*p) {
            Ok((k, v)) => (r matches Ok((key, entry)) && key@ == k && entry@ == v) && plain(v) && settled(v),
            Err(m) => r matches Err(e) && e@ == bad_params(m),
        }),
{
    let contract = match read_contract("contract", p.contract.as_str()) {
        Ok(c) => c,
        Err(e) => {
            return Err(e);
        },
    };
    let key = match read_scval("key", p.key.as_str()) {
        Ok(k) => k,
        Err(e) => {
            return Err(e);
        },
    };
    let val = match read_scval("value", p.value.as_str()) {
        Ok(v) => v,
        Err(e) => {
            return Err(e);
        },
    };
    let durability = match p.durability {
        Some(StorageDurability::Temporary) => Durability::Temporary,
        _ => Durability::Persistent,
    };
    let ledger_key = LedgerKey::contract_data(&contract, key.as_slice(), durability);
    assert(is_contract_address(contract_address_xdr(contract@)));
    Ok((ledger_key.unwrap(), new_storage_entry(&contract, key, durability, val)))
}

/// Read the code that `fork_setCode` and `fork_etch` write.
pub fn read_code_write(wasm: &str) -> (r: Result<([u8; 32], LedgerKey, LedgerEntry), JsonRpcError>)
    ensures
        (match code_to_write(wasm@) {
            Ok((h, k, v)) => (r matches Ok((hash, key, entry)) && hash@ == h && key@ == k && entry@ == v)
                && plain(v) && settled(v),
            Err(m) => r matches Err(e) && e@ == bad_params(m),
        }),
{
    let code = match read_bytes("wasm", wasm) {
        Ok(c) => c,
        Err(e) => {
            return Err(e);
        },
    };
    let hash = sha256(code.as_slice());
    match encode_contract_code(&hash, code.as_slice()) {
        Some(data) => Ok(
            (
                hash,
                LedgerKey::contract_code(&hash),
                LedgerEntry {
                    last_modified_ledger_seq: 0,
                    data: LedgerEntryData::Other(data),
                    ext: empty_xdr(),
                },
            ),
        ),
        None => Err(
            JsonRpcError::invalid_params("wasm: bytes exceed XDR BytesM<u32::MAX> capacity"),
        ),
    }
}

/// The storage that a contract keeps when its code is exchanged, as XDR, or
/// the message to give up with. A contract that does not exist has none.
pub open spec fn kept_storage(found: Option<RowView>) -> Result<Seq<u8>, Seq<char>> {
    match found {
        None => Ok(be32(0)),
        Some(row) => match row.entry.data {
            DataView::ContractData(c) => match instance_storage_of(c.val) {
                Some(s) => Ok(s),
                None => Err(
                    "instance entry's val is not ContractInstance: "@ + scval_debug_of(c.val)
                        + " (host invariant violation; refusing to overwrite)"@,
                ),
            },
            d => Err("instance LedgerKey resolved to non-ContractData entry: "@ + data_text(d)),
        },
    }
}

/// The key of a contract's own instance entry.
pub open spec fn instance_key(contract: Seq<u8>) -> Seq<u8> {
    contract_data_key_xdr(contract, instance_key_scval(), Durability::Persistent)
}

/// A contract's instance entry with this code and storage.
pub open spec fn instance_entry(contract: Seq<u8>, hash: Seq<u8>, storage: Seq<u8>) -> EntryView {
    storage_entry(
        contract,
        instance_key_scval(),
        Durability::Persistent,
        instance_xdr(hash, storage),
    )
}

fn new_instance_key(contract: &[u8; 32]) -> (r: LedgerKey)
    ensures
        r@ == instance_key(contract@),
{
    let scval = encode_instance_key_scval();
    LedgerKey::contract_data(contract, scval.as_slice(), Durability::Persistent).unwrap()
}

/// The instance entry that points a contract at other code. Its storage stays
/// as it was; a contract that does not exist is created without storage.
pub fn etched_instance(contract: &[u8; 32], hash: &[u8; 32], found: Option<&LedgerRow>) -> (r: Result<
    LedgerEntry,
    JsonRpcError,
>)
    ensures
        (match kept_storage(row_ref(found)) {
            Ok(s) => (r matches Ok(entry) && entry@ == instance_entry(contract@, hash@, s)) && plain(
                instance_entry(contract@, hash@, s),
            ) && settled(instance_entry(contract@, hash@, s)) && instance_storage_of(
                instance_xdr(hash@, s),
            ) == Some(s),
            Err(m) => r matches Err(e) && e@ == broken(m),
        }),
{
    let storage = match found {
        None => empty_xdr(),
        Some(row) => match &row.entry.data {
            LedgerEntryData::ContractData(c) => match decode_instance_storage(c.val.as_slice()) {
                Some(s) => {
                    assert(instance_storage_of(c.val@) == Some(s@));
                    s
                },
                None => {
                    return Err(
                        JsonRpcError::internal_error(
                            join3(
                                "instance entry's val is not ContractInstance: ",
                                scval_debug(c.val.as_slice()).as_str(),
                                " (host invariant violation; refusing to overwrite)",
                            ).as_str(),
                        ),
                    );
                },
            },
            other => {
                return Err(
                    JsonRpcError::internal_error(
                        join2(
                            "instance LedgerKey resolved to non-ContractData entry: ",
                            other.to_text().as_str(),
                        ).as_str(),
                    ),
                );
            },
        },
    };
    let val = encode_instance(hash, storage.as_slice());
    assert(is_contract_address(contract_address_xdr(contract@)));
    Ok(new_storage_entry(contract, encode_instance_key_scval(), Durability::Persistent, val))
}

/// The view of an optional row.
pub open spec fn row_ref(r: Option<&LedgerRow>) -> Option<RowView> {
    match r {
        Some(row) => Some(row@),
        None => None,
    }
}

// ---------------------------------------------------------------------------
// Setting a classic balance
// ---------------------------------------------------------------------------

/// The amount of a classic asset that a parameter spells, or the message to
/// refuse it with.
pub open spec fn param_stroops(text: Seq<char>) -> Result<i64, Seq<char>> {
    match parsed_int(text) {
        Some(n) => if n < i64::MIN || n > i64::MAX {
            Err(
                "amount: not a valid i64 decimal string ("@ + i64_parse_error_of(text) + "): "@ + quoted_of(
                    text,
                ),
            )
        } else if n < 0 {
            Err("amount: must be >= 0, got "@ + decimal(n))
        } else {
            Ok(n as i64)
        },
        None => Err(
            "amount: not a valid i64 decimal string ("@ + i64_parse_error_of(text) + "): "@ + quoted_of(
                text,
            ),
        ),
    }
}

/// The amount of a token that a parameter spells, or the message to refuse it
/// with.
pub open spec fn param_tokens(text: Seq<char>) -> Result<i128, Seq<char>> {
    match parsed_int(text) {
        Some(n) => if n < i128::MIN || n > i128::MAX {
            Err(
                "amount: not a valid i128 decimal string ("@ + i128_parse_error_of(text) + "): "@ + quoted_of(
                    text,
                ),
            )
        } else if n < 0 {
            Err("amount: must be >= 0, got "@ + decimal(n))
        } else {
            Ok(n as i128)
        },
        None => Err(
            "amount: not a valid i128 decimal string ("@ + i128_parse_error_of(text) + "): "@ + quoted_of(
                text,
            ),
        ),
    }
}

fn read_stroops(text: &str) -> (r: Result<i64, JsonRpcError>)
    ensures
        (match param_stroops(text@) {
            Ok(n) => r == Ok::<i64, JsonRpcError>(n),
            Err(m) => r matches Err(e) && e@ == bad_params(m),
        }),
{
    match parse_i64(text) {
        Ok(n) => if n < 0 {
            Err(
                JsonRpcError::invalid_params(
                    join2("amount: must be >= 0, got ", i64_text(n).as_str()).as_str(),
                ),
            )
        } else {
            Ok(n)
        },
        Err(e) => Err(
            JsonRpcError::invalid_params(
                join4(
                    "amount: not a valid i64 decimal string (",
                    e.as_str(),
                    "): ",
                    quoted(text).as_str(),
                ).as_str(),
            ),
        ),
    }
}

fn read_tokens(text: &str) -> (r: Result<i128, JsonRpcError>)
    ensures
        (match param_tokens(text@) {
            Ok(n) => r == Ok::<i128, JsonRpcError>(n),
            Err(m) => r matches Err(e) && e@ == bad_params(m),
        }),
{
    match parse_i128(text) {
        Ok(n) => if n < 0 {
            Err(
                JsonRpcError::invalid_params(
                    join2("amount: must be >= 0, got ", i128_text(n).as_str()).as_str(),
                ),
            )
        } else {
            Ok(n)
        },
        Err(e) => Err(
            JsonRpcError::invalid_params(
                join4(
                    "amount: not a valid i128 decimal string (",
                    e.as_str(),
                    "): ",
                    quoted(text).as_str(),
                ).as_str(),
            ),
        ),
    }
}

/// Some bytes followed by zeros up to a length.
pub open spec fn padded(b: Seq<u8>, n: nat) -> Seq<u8> {
    b + Seq::new((n - b.len()) as nat, |i: int| 0u8)
}

/// The XDR of the classic asset with this code and issuer, or the message to
/// refuse it with. A code has one to twelve bytes; up to four make a short
/// code.
pub open spec fn param_asset(code: Seq<char>, issuer: Seq<char>) -> Result<Seq<u8>, Seq<char>> {
    match param_account("asset.issuer"@, issuer) {
        Err(m) => Err(m),
        Ok(id) => {
            let b = encode_utf8(code);
            if b.len() == 0 {
                Err("asset.code: must be 1-12 chars, got empty"@)
            } else if b.len() <= 4 {
                Ok(be32(1) + padded(b, 4) + be32(0) + id)
            } else if b.len() <= 12 {
                Ok(be32(2) + padded(b, 12) + be32(0) + id)
            } else {
                Err("asset.code: must be 1-12 chars, got "@ + decimal(b.len() as int))
            }
        },
    }
}

/// Read a classic asset.
pub fn read_asset(code: &str, issuer: &str) -> (r: Result<TrustLineAsset, JsonRpcError>)
    ensures
        (match param_asset(code@, issuer@) {
            Ok(x) => r matches Ok(asset) && asset_xdr(asset) == x,
            Err(m) => r matches Err(e) && e@ == bad_params(m),
        }),
{
    let issuer = match read_account("asset.issuer", issuer) {
        Ok(id) => id,
        Err(e) => {
            return Err(e);
        },
    };
    let bytes = code.as_bytes();
    let n: usize = bytes.len();
    if n == 0 {
        return Err(JsonRpcError::invalid_params("asset.code: must be 1-12 chars, got empty"));
    }
    if n <= 4 {
        let mut code: [u8; 4] = [0u8; 4];
        let mut i: usize = 0;
        while i < n
            invariant
                i <= n <= 4,
                n == bytes@.len(),
                code@.len() == 4,
                forall|j: int| 0 <= j < i ==> #[trigger] code@[j] == bytes@[j],
                forall|j: int| i <= j < 4 ==> #[trigger] code@[j] == 0,
            decreases n - i,
        {
            code[i] = bytes[i];
            i = i + 1;
        }
        assert(code@ =~= padded(bytes@, 4));
        return Ok(TrustLineAsset::CreditAlphanum4 { code, issuer });
    }
    if n <= 12 {
        let mut code: [u8; 12] = [0u8; 12];
        let mut i: usize = 0;
        while i < n
            invariant
                i <= n <= 12,
                n == bytes@.len(),
                code@.len() == 12,
                forall|j: int| 0 <= j < i ==> #[trigger] code@[j] == bytes@[j],
                forall|j: int| i <= j < 12 ==> #[trigger] code@[j] == 0,
            decreases n - i,
        {
            code[i] = bytes[i];
            i = i + 1;
        }
        assert(code@ =~= padded(bytes@, 12));
        return Ok(TrustLineAsset::CreditAlphanum12 { code, issuer });
    }
    Err(
        JsonRpcError::invalid_params(
            join2("asset.code: must be 1-12 chars, got ", usize_text(n).as_str()).as_str(),
        ),
    )
}

/// An account entry with another balance, changed in a ledger. Everything
/// else of it stays.
pub open spec fn with_account_balance(e: EntryView, a: AccountView, balance: i64, ledger: u32) -> EntryView {
    EntryView {
        last_modified_ledger_seq: ledger,
        data: DataView::Account(AccountView { balance, ..a }),
        ..e
    }
}

/// A trustline entry with another balance, changed in a ledger. Everything
/// else of it stays.
pub open spec fn with_trustline_balance(e: EntryView, t: TrustLineView, balance: i64, ledger: u32) -> EntryView {
    EntryView {
        last_modified_ledger_seq: ledger,
        data: DataView::Trustline(TrustLineView { balance, ..t }),
        ..e
    }
}

/// What messages say of an entry that has no business under its key.
pub open spec fn misplaced(expected: Seq<char>, d: DataView) -> Seq<char> {
    "expected "@ + expected + " entry under "@ + expected + " key, got "@ + data_text(d)
        + " (cache corruption or LedgerKey/LedgerEntry shape mismatch)"@
}

/// The entry that gives an account this balance: the one that was found, with
/// the balance exchanged, or a fresh account. Or the message to give up with.
pub open spec fn native_to_write(found: Option<RowView>, account: Seq<u8>, balance: i64, ledger: u32) -> Result<
    EntryView,
    Seq<char>,
> {
    match found {
        Some(row) => match row.entry.data {
            DataView::Account(a) => Ok(with_account_balance(row.entry, a, balance, ledger)),
            d => Err(misplaced("Account"@, d)),
        },
        None => Ok(fresh_account(account, balance, ledger)),
    }
}

/// The entry that gives an account this balance of an asset: the trustline
/// that was found, with the balance exchanged, or a fresh one. Or the message
/// to give up with.
pub open spec fn credit_to_write(
    found: Option<RowView>,
    account: Seq<u8>,
    asset: Seq<u8>,
    balance: i64,
    ledger: u32,
) -> Result<EntryView, Seq<char>> {
    match found {
        Some(row) => match row.entry.data {
            DataView::Trustline(t) => Ok(with_trustline_balance(row.entry, t, balance, ledger)),
            d => Err(misplaced("Trustline"@, d)),
        },
        None => Ok(fresh_trustline(account, asset, balance, ledger)),
    }
}

fn misplaced_error(expected: &str, data: &LedgerEntryData) -> (r: JsonRpcError)
    ensures
        r@ == broken(misplaced(expected@, data@)),
{
    let front = join5("expected ", expected, " entry under ", expected, " key, got ");
    JsonRpcError::internal_error(
        join3(
            front.as_str(),
            data.to_text().as_str(),
            " (cache corruption or LedgerKey/LedgerEntry shape mismatch)",
        ).as_str(),
    )
}

/// The entry that gives an account a balance.
pub fn native_balance_entry(found: Option<LedgerRow>, account: &[u8; 32], balance: i64, ledger: u32) -> (r:
    Result<LedgerEntry, JsonRpcError>)
    ensures
        (match native_to_write(row_option(found), account@, balance, ledger) {
            Ok(v) => r matches Ok(entry) && entry@ == v,
            Err(m) => r matches Err(e) && e@ == broken(m),
        }),
{
    match found {
        Some(row) => {
            let ext = row.entry.ext;
            match row.entry.data {
                LedgerEntryData::Account(a) => {
                    let mut a = a;
                    a.balance = balance;
                    Ok(
                        LedgerEntry {
                            last_modified_ledger_seq: ledger,
                            data: LedgerEntryData::Account(a),
                            ext,
                        },
                    )
                },
                other => Err(misplaced_error("Account", &other)),
            }
        },
        None => Ok(new_account(account, balance, ledger)),
    }
}

/// The entry that gives an account a balance of an asset.
pub fn credit_balance_entry(
    found: Option<LedgerRow>,
    account: &[u8; 32],
    asset: &TrustLineAsset,
    balance: i64,
    ledger: u32,
) -> (r: Result<LedgerEntry, JsonRpcError>)
    ensures
        (match credit_to_write(row_option(found), account@, asset_xdr(*asset), balance, ledger) {
            Ok(v) => r matches Ok(entry) && entry@ == v,
            Err(m) => r matches Err(e) && e@ == broken(m),
        }),
{
    match found {
        Some(row) => {
            let ext = row.entry.ext;
            match row.entry.data {
                LedgerEntryData::Trustline(t) => {
                    let mut t = t;
                    t.balance = balance;
                    Ok(
                        LedgerEntry {
                            last_modified_ledger_seq: ledger,
                            data: LedgerEntryData::Trustline(t),
                            ext,
                        },
                    )
                },
                other => Err(misplaced_error("Trustline", &other)),
            }
        },
        None => Ok(new_trustline(account, asset, balance, ledger)),
    }
}

// ---------------------------------------------------------------------------
// Setting a token balance
// ---------------------------------------------------------------------------

/// The account that calls tokens: nobody's.
pub open spec fn nobody() -> Seq<u8> {
    Seq::new(32, |i: int| 0u8)
}

/// The XDR of the call that asks a token for an account's balance.
pub open spec fn balance_call(contract: Seq<u8>, account: Seq<u8>) -> Seq<u8> {
    call_xdr(contract, encode_utf8("balance"@), seq![account_scval_xdr(account)])
}

/// The XDR of the call that raises an account's balance of a token, or lowers
/// it.
pub open spec fn change_call(contract: Seq<u8>, function: Seq<char>, account: Seq<u8>, amount: int) -> Seq<u8> {
    call_xdr(contract, encode_utf8(function), seq![account_scval_xdr(account), number_xdr(amount)])
}

/// The function that changes a balance by some amount.
pub open spec fn change_function(delta: int) -> Seq<char> {
    if delta > 0 {
        "mint"@
    } else {
        "burn"@
    }
}

/// The size of a change.
pub open spec fn magnitude(delta: int) -> int {
    if delta < 0 {
        -delta
    } else {
        delta
    }
}

/// What a simulated `balance` call gave, or the message to refuse the token
/// with.
pub open spec fn told_balance(result: Result<Seq<u8>, Seq<char>>) -> Result<int, Seq<char>> {
    match result {
        Err(e) => Err(
            "asset.contract: token's balance() simulation failed: "@ + e
                + ". Is the contract a SEP-41-shaped token? Does the account exist?"@,
        ),
        Ok(x) => if exists|hi: i64, lo: u64| x == #[trigger] i128_scval_xdr(hi, lo) {
            let (hi, lo) = choose|hi: i64, lo: u64| x == #[trigger] i128_scval_xdr(hi, lo);
            Ok(i128_value(hi, lo))
        } else if is_small_number(x) {
            Err(
                "asset.contract: token's balance() returned a non-i128 ScVal \u{2014} not a SEP-41-shaped token. Got: Ok("@
                    + scval_debug_of(x) + ")"@,
            )
        } else {
            Err(
                "asset.contract: token's balance() returned unexpected ScVal type: "@ + scval_debug_of(
                    x,
                ),
            )
        },
    }
}

/// What a simulated `balance` call gave.
pub fn read_balance(result: &Result<Vec<u8>, String>) -> (r: Result<i128, JsonRpcError>)
    ensures
        (match told_balance(bytes_result(*result)) {
            Ok(n) => r matches Ok(b) && b == n,
            Err(m) => r matches Err(e) && e@ == bad_params(m),
        }),
{
    match result {
        Ok(x) => match decode_balance(x.as_slice()) {
            BalanceValue::I128 { hi, lo } => {
                proof {
                    assert(x@ == i128_scval_xdr(hi, lo));
                    let (h, l) = choose|h: i64, l: u64| x@ == #[trigger] i128_scval_xdr(h, l);
                    law_numbers_read_back(h, l, hi, lo);
                }
                Ok(i128_from_pieces(hi, lo))
            },
            BalanceValue::SmallNumber => {
                proof {
                    if exists|hi: i64, lo: u64| x@ == #[trigger] i128_scval_xdr(hi, lo) {
                        let (h, l) = choose|h: i64, l: u64| x@ == #[trigger] i128_scval_xdr(h, l);
                        lemma_number_len(h, l);
                    }
                }
                Err(
                    JsonRpcError::invalid_params(
                        join3(
                            "asset.contract: token's balance() returned a non-i128 ScVal \u{2014} not a SEP-41-shaped token. Got: Ok(",
                            scval_debug(x.as_slice()).as_str(),
                            ")",
                        ).as_str(),
                    ),
                )
            },
            BalanceValue::Other => Err(
                JsonRpcError::invalid_params(
                    join2(
                        "asset.contract: token's balance() returned unexpected ScVal type: ",
                        scval_debug(x.as_slice()).as_str(),
                    ).as_str(),
                ),
            ),
        },
        Err(e) => Err(
            JsonRpcError::invalid_params(
                join3(
                    "asset.contract: token's balance() simulation failed: ",
                    e.as_str(),
                    ". Is the contract a SEP-41-shaped token? Does the account exist?",
                ).as_str(),
            ),
        ),
    }
}

fn new_balance_call(contract: &[u8; 32], account: &[u8; 32]) -> (r: Vec<u8>)
    ensures
        r@ == balance_call(contract@, account@),
{
    let mut args: Vec<Vec<u8>> = Vec::new();
    args.push(encode_account_scval(account));
    assert(all_bytes(args@) =~= seq![account_scval_xdr(account@)]);
    proof {
        reveal_strlit("balance");
        is_ascii_chars_encode_utf8("balance"@);
    }
    encode_call(contract, "balance".as_bytes(), &args)
}

fn new_change_call(contract: &[u8; 32], function: &str, account: &[u8; 32], amount: i128) -> (r: Vec<u8>)
    requires
        encode_utf8(function@).len() <= 32,
    ensures
        r@ == change_call(contract@, function@, account@, amount as int),
        is_call(r@),
{
    let (hi, lo) = i128_to_pieces(amount);
    assert(hi == amount as int / 0x1_0000_0000_0000_0000);
    assert(lo == amount as int % 0x1_0000_0000_0000_0000);
    let mut args: Vec<Vec<u8>> = Vec::new();
    args.push(encode_account_scval(account));
    args.push(encode_i128_scval(hi, lo));
    assert(all_bytes(args@) =~= seq![account_scval_xdr(account@), number_xdr(amount as int)]);
    encode_call(contract, function.as_bytes(), &args)
}

/// What has to be done about a token balance.
#[derive(Debug)]
pub enum TokenPlan {
    /// The balance is right already.
    Nothing,
    /// This call, in this envelope, changes the balance by `delta`.
    Change { delta: i128, host_function: Vec<u8>, envelope_bytes: Vec<u8> },
}

/// Whether this is what has to be done to bring an account's balance of a
/// token from `current` to `target`, or the error to give up with: the
/// change, and the size of the change, must fit in 128 bits.
pub open spec fn plans(
    contract: Seq<u8>,
    account: Seq<u8>,
    current: int,
    target: int,
    r: Result<TokenPlan, JsonRpcError>,
) -> bool {
    let delta = target - current;
    if delta == 0 {
        r matches Ok(plan) && plan is Nothing
    } else if delta < i128::MIN || delta > i128::MAX {
        r matches Err(e) && e@ == bad_params("amount: delta does not fit in an i128"@)
    } else if delta == i128::MIN {
        r matches Err(e) && e@ == bad_params("amount: i128::MIN delta unreachable"@)
    } else {
        let call = change_call(contract, change_function(delta), account, magnitude(delta));
        r matches Ok(TokenPlan::Change { delta: d, host_function, envelope_bytes }) && d == delta
            && host_function@ == call && envelope_bytes@ == call_envelope_xdr(nobody(), 0, 0, call)
    }
}

/// What has to be done to bring an account's balance of a token from
/// `current` to `target`.
pub fn plan_token_change(contract: &[u8; 32], account: &[u8; 32], current: i128, target: i128) -> (r: Result<
    TokenPlan,
    JsonRpcError,
>)
    ensures
        plans(contract@, account@, current as int, target as int, r),
{
    let delta: i128 = match target.checked_sub(current) {
        Some(d) => d,
        None => {
            return Err(JsonRpcError::invalid_params("amount: delta does not fit in an i128"));
        },
    };
    if delta == 0 {
        return Ok(TokenPlan::Nothing);
    }
    proof {
        reveal_strlit("mint");
        is_ascii_chars_encode_utf8("mint"@);
        reveal_strlit("burn");
        is_ascii_chars_encode_utf8("burn"@);
    }
    let host_function = if delta > 0 {
        new_change_call(contract, "mint", account, delta)
    } else {
        if delta == i128::MIN {
            return Err(JsonRpcError::invalid_params("amount: i128::MIN delta unreachable"));
        }
        new_change_call(contract, "burn", account, -delta)
    };
    let source: [u8; 32] = [0u8; 32];
    assert(source@ =~= nobody());
    let envelope_bytes = encode_call_envelope(&source, 0, 0, host_function.as_slice());
    Ok(TokenPlan::Change { delta, host_function, envelope_bytes })
}

/// What a token's refusal is reported as.
pub open spec fn token_refusal(delta: int, reason: Seq<char>) -> Seq<char> {
    "token "@ + change_function(delta) + "("@ + decimal(delta) + ") failed: "@ + reason
        + ". Is the contract SEP-41-shaped with public mint/burn? Trust-mode auth bypasses admin checks but the function must still exist and accept (Address, i128)."@
}

fn token_refusal_error(delta: i128, reason: &str) -> (r: JsonRpcError)
    ensures
        r@ == bad_params(token_refusal(delta as int, reason@)),
{
    let function = if delta > 0 {
        "mint"
    } else {
        "burn"
    };
    let front = join5("token ", function, "(", i128_text(delta).as_str(), ") failed: ");
    JsonRpcError::invalid_params(
        join3(
            front.as_str(),
            reason,
            ". Is the contract SEP-41-shaped with public mint/burn? Trust-mode auth bypasses admin checks but the function must still exist and accept (Address, i128).",
        ).as_str(),
    )
}

// ---------------------------------------------------------------------------
// Requests and rounds
// ---------------------------------------------------------------------------

/// A request: a method and its parameters.
#[derive(Debug)]
pub enum Request {
    GetHealth,
    GetVersionInfo {
        /// The server's own version.
        version: String,
    },
    GetNetwork,
    GetLatestLedger,
    GetLedgers,
    GetLedgerEntries(GetLedgerEntriesParams),
    SimulateTransaction(SimulateTransactionParams),
    SendTransaction(SendTransactionParams),
    GetTransaction(GetTransactionParams),
    SetLedgerEntry(SetLedgerEntryParams),
    SetStorage(SetStorageParams),
    SetCode(SetCodeParams),
    SetBalance(SetBalanceParams),
    Etch(EtchParams),
    CloseLedgers(CloseLedgersParams),
}

/// The result of a request.
#[derive(Debug)]
pub enum Response {
    Health(HealthResponse),
    VersionInfo(VersionInfoResponse),
    Network(NetworkResponse),
    LatestLedger(LatestLedgerResponse),
    Ledgers(GetLedgersResponse),
    LedgerEntries(GetLedgerEntriesResponse),
    Simulation(SimulateTransactionResponse),
    Sent(SendTransactionResponse),
    Transaction(GetTransactionResponse),
    EntrySet(SetLedgerEntryResponse),
    CodeSet(SetCodeResponse),
    BalanceSet(SetBalanceResponse),
    Closed(CloseLedgersResponse),
}

/// Where a request stands while it waits for the worker.
#[derive(Debug)]
#[allow(inconsistent_fields)]
pub enum Pending {
    Health,
    VersionInfo { version: String },
    Network,
    LatestLedger,
    Ledgers,
    LedgerEntries,
    Simulation,
    /// A transaction is being sent.
    Sending { envelope: String },
    /// It was sent; now the ledger is asked for.
    SentLedger { envelope: String, sent: SendReply },
    /// Now its time is asked for.
    SentTime { envelope: String, sent: SendReply, latest_ledger: u32 },
    /// A receipt is being looked for.
    Transaction,
    /// It was looked for; now the ledger is asked for.
    TransactionLedger { receipt: Option<Receipt> },
    /// An entry is being written.
    EntryWriting,
    /// It was written; now the ledger is asked for.
    EntryWritten,
    /// Code, or an instance that points at it, is being written.
    CodeWriting { hash: [u8; 32] },
    /// It was written; now the ledger is asked for.
    CodeWritten { hash: [u8; 32] },
    /// The account is being looked for.
    NativeBalance { account: [u8; 32], amount: i64 },
    /// The trustline is being looked for.
    CreditBalance { account: [u8; 32], asset: TrustLineAsset, amount: i64 },
    /// The balance is being written.
    BalanceWriting { latest_ledger: u32 },
    /// The token is asked for the balance.
    TokenBalance { account: [u8; 32], contract: [u8; 32], amount: i128 },
    /// The token is told to change the balance.
    TokenChange { delta: i128 },
    /// It has been told; now the ledger is asked for.
    TokenChanged,
    /// The code is being written that a contract is to run.
    EtchCode { contract: [u8; 32], hash: [u8; 32], live_until: Option<u32> },
    /// The contract's instance is being looked for.
    EtchInstance { contract: [u8; 32], hash: [u8; 32], live_until: Option<u32> },
    /// Ledgers are being closed.
    Closing,
}

/// What a request does next.
#[derive(Debug)]
pub enum Progress {
    /// It waits for the worker to carry a command out.
    Ask { command: Command, then: Pending },
    /// It is done.
    Done(Result<Response, JsonRpcError>),
}

/// Whether a request ends because its parameters make no sense.
pub open spec fn refuses(p: Progress, message: Seq<char>) -> bool {
    p matches Progress::Done(Err(e)) && e@ == bad_params(message)
}

/// Whether a request ends because of a failure on this side.
pub open spec fn breaks(p: Progress, message: Seq<char>) -> bool {
    p matches Progress::Done(Err(e)) && e@ == broken(message)
}

/// The envelope too long to be counted.
pub open spec fn oversized(n: nat) -> Seq<char> {
    "transaction: envelope too large for u32 ("@ + decimal(n as int) + " bytes)"@
}

/// Whether this is how a simulation begins.
pub open spec fn starts_simulation(text: Seq<char>, p: Progress) -> bool {
    match param_envelope(text) {
        Err(m) => refuses(p, m),
        Ok((bytes, envelope)) => if bytes.len() > u32::MAX {
            refuses(p, oversized(bytes.len()))
        } else {
            match envelope_invocation(envelope) {
                Err(m) => refuses(p, m),
                Ok((f, account)) => p matches Progress::Ask {
                    command: Command::SimulateTransaction {
                        host_function,
                        source_account,
                        transaction_size_bytes,
                    },
                    then: Pending::Simulation,
                } && host_function@ == f && source_account@ == account && transaction_size_bytes
                    == bytes.len(),
            }
        },
    }
}

/// Whether this is how sending a transaction begins.
pub open spec fn starts_sending(text: Seq<char>, p: Progress) -> bool {
    match param_envelope(text) {
        Err(m) => refuses(p, m),
        Ok((bytes, envelope)) => match envelope_invocation(envelope) {
            Err(m) => refuses(p, m),
            Ok((f, account)) => p matches Progress::Ask {
                command: Command::SendTransaction { envelope_bytes, host_function, source_account },
                then: Pending::Sending { envelope },
            } && envelope_bytes@ == bytes && host_function@ == f && source_account@ == account
                && envelope@ == text,
        },
    }
}

/// Whether a request asks for an entry to be written.
pub open spec fn writes(p: Progress, k: Seq<u8>, e: EntryView, l: Option<u32>) -> bool {
    p matches Progress::Ask { command: Command::SetLedgerEntry { key, entry, live_until }, .. } && key@ == k
        && entry@ == e && live_until == l
}

/// Whether a request asks for what is under one key.
pub open spec fn looks_for(p: Progress, k: Seq<u8>) -> bool {
    p matches Progress::Ask { command: Command::GetLedgerEntries { keys }, .. } && keys@.len() == 1 && keys@[0]@
        == k
}

/// Whether this is how writing an entry begins.
pub open spec fn starts_writing(params: SetLedgerEntryParams, p: Progress) -> bool {
    match param_key("key"@, params.key@) {
        Err(m) => refuses(p, m),
        Ok(k) => match param_entry("entry"@, params.entry@) {
            Err(m) => refuses(p, m),
            Ok(e) => writes(p, k, e, params.live_until_ledger_seq) && (p matches Progress::Ask {
                then: Pending::EntryWriting,
                ..
            }) && reads_back(e),
        },
    }
}

/// Whether this is how writing storage begins.
pub open spec fn starts_storage(params: SetStorageParams, p: Progress) -> bool {
    match storage_to_write(params) {
        Err(m) => refuses(p, m),
        Ok((k, e)) => writes(p, k, e, params.live_until_ledger_seq) && (p matches Progress::Ask {
            then: Pending::EntryWriting,
            ..
        }) && plain(e) && settled(e),
    }
}

/// Whether this is how writing code begins.
pub open spec fn starts_code(params: SetCodeParams, p: Progress) -> bool {
    match code_to_write(params.wasm@) {
        Err(m) => refuses(p, m),
        Ok((h, k, e)) => writes(p, k, e, params.live_until_ledger_seq) && (p matches Progress::Ask {
            then: Pending::CodeWriting { hash },
            ..
        } && hash@ == h) && plain(e) && settled(e),
    }
}

/// Whether this is how exchanging a contract's code begins.
pub open spec fn starts_etching(params: EtchParams, p: Progress) -> bool {
    match param_contract("contract"@, params.contract@) {
        Err(m) => refuses(p, m),
        Ok(c) => match code_to_write(params.wasm@) {
            Err(m) => refuses(p, m),
            Ok((h, k, e)) => writes(p, k, e, params.live_until_ledger_seq) && (p matches Progress::Ask {
                then: Pending::EtchCode { contract, hash, live_until },
                ..
            } && contract@ == c && hash@ == h && live_until == params.live_until_ledger_seq) && plain(e)
                && settled(e),
        },
    }
}

/// Whether this is how setting a token balance begins.
pub open spec fn starts_token(account: Seq<u8>, amount: Seq<char>, token: Seq<char>, p: Progress) -> bool {
    match param_tokens(amount) {
        Err(m) => refuses(p, m),
        Ok(n) => match param_contract("asset.contract"@, token) {
            Err(m) => refuses(p, m),
            Ok(c) => p matches Progress::Ask {
                command: Command::SimulateTransaction {
                    host_function,
                    source_account,
                    transaction_size_bytes,
                },
                then: Pending::TokenBalance { account: a, contract, amount: target },
            } && host_function@ == balance_call(c, account) && source_account@ == nobody()
                && transaction_size_bytes == 0 && a@ == account && contract@ == c && target == n,
        },
    }
}

/// Whether this is how setting a balance begins.
pub open spec fn starts_balance(params: SetBalanceParams, p: Progress) -> bool {
    match param_account("account"@, params.account@) {
        Err(m) => refuses(p, m),
        Ok(account) => match params.asset {
            Some(AssetWire::Contract { contract }) => starts_token(
                account,
                params.amount@,
                contract@,
                p,
            ),
            Some(AssetWire::Credit { code, issuer }) => match param_stroops(params.amount@) {
                Err(m) => refuses(p, m),
                Ok(n) => match param_asset(code@, issuer@) {
                    Err(m) => refuses(p, m),
                    Ok(x) => looks_for(p, trustline_key_xdr(account, x)) && (p matches Progress::Ask {
                        then: Pending::CreditBalance { account: a, asset, amount },
                        ..
                    } && a@ == account && asset_xdr(asset) == x && amount == n),
                },
            },
            _ => match param_stroops(params.amount@) {
                Err(m) => refuses(p, m),
                Ok(n) => looks_for(p, account_key_xdr(account)) && (p matches Progress::Ask {
                    then: Pending::NativeBalance { account: a, amount },
                    ..
                } && a@ == account && amount == n),
            },
        },
    }
}

/// The number of ledgers to close.
pub open spec fn ledgers_to_close(params: CloseLedgersParams) -> u32 {
    match params.ledgers {
        Some(n) => n,
        None => 1,
    }
}

/// The time that is to pass: by default what the ledgers take to close.
pub open spec fn seconds_to_pass(params: CloseLedgersParams) -> u64 {
    match params.timestamp_advance_seconds {
        Some(n) => n,
        None => seconds_of(ledgers_to_close(params)),
    }
}

/// Whether this is how a request begins.
pub open spec fn starts(request: Request, p: Progress) -> bool {
    match request {
        Request::GetHealth => p matches Progress::Ask {
            command: Command::GetLatestLedger,
            then: Pending::Health,
        },
        Request::GetVersionInfo { version } => p matches Progress::Ask {
            command: Command::GetNetwork,
            then: Pending::VersionInfo { version: v },
        } && v@ == version@,
        Request::GetNetwork => p matches Progress::Ask {
            command: Command::GetNetwork,
            then: Pending::Network,
        },
        Request::GetLatestLedger => p matches Progress::Ask {
            command: Command::GetLatestLedger,
            then: Pending::LatestLedger,
        },
        Request::GetLedgers => p matches Progress::Ask {
            command: Command::GetLedgersPage,
            then: Pending::Ledgers,
        },
        Request::GetLedgerEntries(params) => if params.keys@.len() == 0 {
            refuses(p, "getLedgerEntries: keys array must be non-empty"@)
        } else {
            match first_refused(params.keys@, 0) {
                Some(i) => refuses(p, param_key(key_name(i), params.keys@[i]@)->Err_0),
                None => p matches Progress::Ask {
                    command: Command::GetLedgerEntries { keys },
                    then: Pending::LedgerEntries,
                } && are_params(params.keys@, keys@),
            }
        },
        Request::SimulateTransaction(params) => starts_simulation(params.transaction@, p),
        Request::SendTransaction(params) => starts_sending(params.transaction@, p),
        Request::GetTransaction(params) => match hash_spelled(params.hash@) {
            None => refuses(p, "hash: must be 64-char hex"@),
            Some(h) => p matches Progress::Ask {
                command: Command::GetTransaction { hash },
                then: Pending::Transaction,
            } && hash@ == h,
        },
        Request::SetLedgerEntry(params) => starts_writing(params, p),
        Request::SetStorage(params) => starts_storage(params, p),
        Request::SetCode(params) => starts_code(params, p),
        Request::SetBalance(params) => starts_balance(params, p),
        Request::Etch(params) => starts_etching(params, p),
        Request::CloseLedgers(params) => p matches Progress::Ask {
            command: Command::CloseLedgers { ledgers, timestamp_advance_seconds },
            then: Pending::Closing,
        } && ledgers == ledgers_to_close(params) && timestamp_advance_seconds == seconds_to_pass(params),
    }
}

fn refuse(e: JsonRpcError) -> (r: Progress)
    ensures
        r == Progress::Done(Err::<Response, JsonRpcError>(e)),
{
    Progress::Done(Err(e))
}

fn write(key: LedgerKey, entry: LedgerEntry, live_until: Option<u32>, then: Pending) -> (r: Progress)
    ensures
        writes(r, key@, entry@, live_until),
        r matches Progress::Ask { then: t, .. } && t == then,
{
    Progress::Ask { command: Command::SetLedgerEntry { key, entry, live_until }, then }
}

fn look_for(key: LedgerKey, then: Pending) -> (r: Progress)
    ensures
        looks_for(r, key@),
        r matches Progress::Ask { then: t, .. } && t == then,
{
    let mut keys: Vec<LedgerKey> = Vec::new();
    keys.push(key);
    Progress::Ask { command: Command::GetLedgerEntries { keys }, then }
}

fn handle_simulate_transaction(text: &str) -> (r: Progress)
    ensures
        starts_simulation(text@, r),
{
    let (bytes, envelope) = match read_envelope(text) {
        Ok(x) => x,
        Err(e) => {
            return refuse(e);
        },
    };
    if bytes.len() as u64 > 0xFFFF_FFFF {
        return refuse(
            JsonRpcError::invalid_params(
                join3(
                    "transaction: envelope too large for u32 (",
                    usize_text(bytes.len()).as_str(),
                    " bytes)",
                ).as_str(),
            ),
        );
    }
    let transaction_size_bytes: u32 = bytes.len() as u32;
    match extract_invoke_op(&envelope) {
        Ok((host_function, source_account)) => Progress::Ask {
            command: Command::SimulateTransaction {
                host_function,
                source_account,
                transaction_size_bytes,
            },
            then: Pending::Simulation,
        },
        Err(e) => refuse(e),
    }
}

fn start_sending(text: String) -> (r: Progress)
    ensures
        starts_sending(text@, r),
{
    let (envelope_bytes, envelope) = match read_envelope(text.as_str()) {
        Ok(x) => x,
        Err(e) => {
            return refuse(e);
        },
    };
    match extract_invoke_op(&envelope) {
        Ok((host_function, source_account)) => Progress::Ask {
            command: Command::SendTransaction { envelope_bytes, host_function, source_account },
            then: Pending::Sending { envelope: text },
        },
        Err(e) => refuse(e),
    }
}

fn handle_set_token_balance(account: [u8; 32], amount: &str, token: &str) -> (r: Progress)
    ensures
        starts_token(account@, amount@, token@, r),
{
    let amount: i128 = match read_tokens(amount) {
        Ok(n) => n,
        Err(e) => {
            return refuse(e);
        },
    };
    let contract = match read_contract("asset.contract", token) {
        Ok(c) => c,
        Err(e) => {
            return refuse(e);
        },
    };
    let source_account: [u8; 32] = [0u8; 32];
    assert(source_account@ =~= nobody());
    Progress::Ask {
        command: Command::SimulateTransaction {
            host_function: new_balance_call(&contract, &account),
            source_account,
            transaction_size_bytes: 0,
        },
        then: Pending::TokenBalance { account, contract, amount },
    }
}

fn handle_fork_set_balance(params: &SetBalanceParams) -> (r: Progress)
    ensures
        starts_balance(*params, r),
{
    let account = match read_account("account", params.account.as_str()) {
        Ok(a) => a,
        Err(e) => {
            return refuse(e);
        },
    };
    match &params.asset {
        Some(AssetWire::Contract { contract }) => {
            return handle_set_token_balance(account, params.amount.as_str(), contract.as_str());
        },
        _ => {},
    }
    let amount: i64 = match read_stroops(params.amount.as_str()) {
        Ok(n) => n,
        Err(e) => {
            return refuse(e);
        },
    };
    match &params.asset {
        Some(AssetWire::Credit { code, issuer }) => match read_asset(code.as_str(), issuer.as_str()) {
            Ok(asset) => {
                let key = LedgerKey::trustline(&account, &asset);
                look_for(key, Pending::CreditBalance { account, asset, amount })
            },
            Err(e) => refuse(e),
        },
        _ => look_for(LedgerKey::account(&account), Pending::NativeBalance { account, amount }),
    }
}

/// Begin to answer a request.
pub fn start(request: Request) -> (r: Progress)
    ensures
        starts(request, r),
{
    match request {
        Request::GetHealth => Progress::Ask {
            command: Command::GetLatestLedger,
            then: Pending::Health,
        },
        Request::GetVersionInfo { version } => Progress::Ask {
            command: Command::GetNetwork,
            then: Pending::VersionInfo { version },
        },
        Request::GetNetwork => Progress::Ask { command: Command::GetNetwork, then: Pending::Network },
        Request::GetLatestLedger => Progress::Ask {
            command: Command::GetLatestLedger,
            then: Pending::LatestLedger,
        },
        Request::GetLedgers => Progress::Ask {
            command: Command::GetLedgersPage,
            then: Pending::Ledgers,
        },
        Request::GetLedgerEntries(params) => match requested_keys(&params) {
            Ok(keys) => Progress::Ask {
                command: Command::GetLedgerEntries { keys },
                then: Pending::LedgerEntries,
            },
            Err(e) => refuse(e),
        },
        Request::SimulateTransaction(params) => handle_simulate_transaction(params.transaction.as_str()),
        Request::SendTransaction(params) => start_sending(params.transaction),
        Request::GetTransaction(params) => match parse_hex32(params.hash.as_str()) {
            Some(hash) => Progress::Ask {
                command: Command::GetTransaction { hash },
                then: Pending::Transaction,
            },
            None => refuse(JsonRpcError::invalid_params("hash: must be 64-char hex")),
        },
        Request::SetLedgerEntry(params) => match read_key("key", params.key.as_str()) {
            Err(e) => refuse(e),
            Ok(key) => match read_entry("entry", params.entry.as_str()) {
                Err(e) => refuse(e),
                Ok(entry) => write(key, entry, params.live_until_ledger_seq, Pending::EntryWriting),
            },
        },
        Request::SetStorage(params) => match read_storage_write(&params) {
            Err(e) => refuse(e),
            Ok((key, entry)) => write(
                key,
                entry,
                params.live_until_ledger_seq,
                Pending::EntryWriting,
            ),
        },
        Request::SetCode(params) => match read_code_write(params.wasm.as_str()) {
            Err(e) => refuse(e),
            Ok((hash, key, entry)) => write(
                key,
                entry,
                params.live_until_ledger_seq,
                Pending::CodeWriting { hash },
            ),
        },
        Request::SetBalance(params) => handle_fork_set_balance(&params),
        Request::Etch(params) => match read_contract("contract", params.contract.as_str()) {
            Err(e) => refuse(e),
            Ok(contract) => match read_code_write(params.wasm.as_str()) {
                Err(e) => refuse(e),
                Ok((hash, key, entry)) => {
                    let live_until = params.live_until_ledger_seq;
                    write(key, entry, live_until, Pending::EtchCode { contract, hash, live_until })
                },
            },
        },
        Request::CloseLedgers(params) => {
            let ledgers: u32 = match params.ledgers {
                Some(n) => n,
                None => 1,
            };
            let timestamp_advance_seconds: u64 = match params.timestamp_advance_seconds {
                Some(n) => n,
                None => ledgers as u64 * LEDGER_INTERVAL_SECONDS,
            };
            Progress::Ask {
                command: Command::CloseLedgers { ledgers, timestamp_advance_seconds },
                then: Pending::Closing,
            }
        },
    }
}

/// What a reply is reported as that does not answer the command.
pub open spec fn reply_failure(reply: Reply) -> Seq<char> {
    match reply {
        Reply::Failed(m) => m@,
        _ => "unexpected reply from the worker"@,
    }
}

/// What was found under the one key that was asked for.
pub open spec fn first_row(entries: Seq<Option<LedgerRow>>) -> Option<RowView> {
    if entries.len() == 0 {
        None
    } else {
        row_option(entries[0])
    }
}

/// Whether a request asks which ledger it is.
pub open spec fn asks_ledger(p: Progress) -> bool {
    p matches Progress::Ask { command: Command::GetLatestLedger, .. }
}

/// Whether this is how setting a native balance goes on.
pub open spec fn resumes_native(account: Seq<u8>, amount: i64, found: LedgerEntriesReply, p: Progress) -> bool {
    match native_to_write(first_row(found.entries@), account, amount, found.latest_ledger) {
        Err(m) => breaks(p, m),
        Ok(e) => writes(p, account_key_xdr(account), e, None) && (p matches Progress::Ask {
            then: Pending::BalanceWriting { latest_ledger },
            ..
        } && latest_ledger == found.latest_ledger),
    }
}

/// Whether this is how setting a balance of a classic asset goes on.
pub open spec fn resumes_credit(
    account: Seq<u8>,
    asset: Seq<u8>,
    amount: i64,
    found: LedgerEntriesReply,
    p: Progress,
) -> bool {
    match credit_to_write(first_row(found.entries@), account, asset, amount, found.latest_ledger) {
        Err(m) => breaks(p, m),
        Ok(e) => writes(p, trustline_key_xdr(account, asset), e, None) && (p matches Progress::Ask {
            then: Pending::BalanceWriting { latest_ledger },
            ..
        } && latest_ledger == found.latest_ledger),
    }
}

/// Whether a request ends with a balance set.
pub open spec fn balance_set(p: Progress, ledger: u32) -> bool {
    p matches Progress::Done(Ok(Response::BalanceSet(b))) && b.ok && b.latest_ledger == ledger
}

/// Whether this is how setting a token balance goes on, once the token has
/// told the present balance.
pub open spec fn resumes_token(
    account: Seq<u8>,
    contract: Seq<u8>,
    amount: i128,
    told: SimulationReply,
    p: Progress,
) -> bool {
    match told_balance(bytes_result(told.result)) {
        Err(m) => refuses(p, m),
        Ok(current) => {
            let delta = amount - current;
            if delta == 0 {
                balance_set(p, told.latest_ledger)
            } else if delta < i128::MIN || delta > i128::MAX {
                refuses(p, "amount: delta does not fit in an i128"@)
            } else if delta == i128::MIN {
                refuses(p, "amount: i128::MIN delta unreachable"@)
            } else {
                let call = change_call(contract, change_function(delta), account, magnitude(delta));
                p matches Progress::Ask {
                    command: Command::SendTransaction { envelope_bytes, host_function, source_account },
                    then: Pending::TokenChange { delta: d },
                } && envelope_bytes@ == call_envelope_xdr(nobody(), 0, 0, call) && host_function@ == call
                    && source_account@ == nobody() && d == delta
            }
        },
    }
}

/// Whether this is how exchanging a contract's code goes on, once the
/// contract's instance has been looked for.
pub open spec fn resumes_etching(
    contract: Seq<u8>,
    hash: Seq<u8>,
    live_until: Option<u32>,
    found: LedgerEntriesReply,
    p: Progress,
) -> bool {
    match kept_storage(first_row(found.entries@)) {
        Err(m) => breaks(p, m),
        Ok(storage) => {
            let e = instance_entry(contract, hash, storage);
            &&& writes(p, instance_key(contract), e, live_until)
            &&& (p matches Progress::Ask { then: Pending::CodeWriting { hash: h }, .. } && h@ == hash)
            &&& plain(e)
            &&& settled(e)
            &&& instance_storage_of(instance_xdr(hash, storage)) == Some(storage)
        },
    }
}

/// Whether this is how a request goes on after a reply.
pub open spec fn resumes(pending: Pending, reply: Reply, p: Progress) -> bool {
    match (pending, reply) {
        (Pending::Health, Reply::LatestLedger(l)) => p matches Progress::Done(
            Ok(Response::Health(h)),
        ) && h.status@ == "healthy"@ && h.latest_ledger == l.sequence && h.oldest_ledger == l.sequence
            && h.ledger_retention_window == 0,
        (Pending::VersionInfo { version }, Reply::Network(n)) => p matches Progress::Done(
            Ok(Response::VersionInfo(v)),
        ) && v.version@ == version@ && v.commit_hash@ == COMMIT_HASH@ && v.build_timestamp@
            == BUILD_TIMESTAMP@ && v.captive_core_version@ == CAPTIVE_CORE_VERSION@ && v.protocol_version
            == n.protocol_version,
        (Pending::Network, Reply::Network(n)) => p matches Progress::Done(Ok(Response::Network(b)))
            && b.passphrase@ == n.passphrase@ && b.protocol_version == n.protocol_version && b.network_id@
            == n.network_id_hex@ && b.friendbot_url is None,
        (Pending::LatestLedger, Reply::LatestLedger(l)) => p matches Progress::Done(
            Ok(Response::LatestLedger(b)),
        ) && b.id@ == l.id@ && b.sequence == l.sequence && b.protocol_version == l.protocol_version,
        (Pending::Ledgers, Reply::LedgersPage(l)) => p matches Progress::Done(Ok(Response::Ledgers(b)))
            && one_ledger(l, b),
        (Pending::LedgerEntries, Reply::LedgerEntries(found)) => {
            let rows = present(found.entries@);
            if showable(rows) {
                p matches Progress::Done(Ok(Response::LedgerEntries(b))) && b.entries@.len() == rows.len()
                    && b.latest_ledger == found.latest_ledger && forall|i: int|
                    0 <= i < rows.len() ==> shows(#[trigger] b.entries@[i], rows[i])
            } else {
                breaks(p, "encode response LedgerEntryData: entry data has a malformed part"@)
            }
        },
        (Pending::Simulation, Reply::Simulation(told)) => match told.result {
            Err(reason) => p matches Progress::Done(Ok(Response::Simulation(b))) && shows_failure(
                reason@,
                told.latest_ledger,
                b,
            ),
            Ok(_) => match wire_failure(told) {
                Some(m) => breaks(p, m),
                None => p matches Progress::Done(Ok(Response::Simulation(b))) && shows_success(told, b),
            },
        },
        (Pending::Sending { envelope }, Reply::Sent(sent)) => p matches Progress::Ask {
            command: Command::GetLatestLedger,
            then: Pending::SentLedger { envelope: e, sent: s },
        } && e@ == envelope@ && s == sent,
        (Pending::SentLedger { envelope, sent }, Reply::LatestLedger(l)) => p matches Progress::Ask {
            command: Command::GetLedgersPage,
            then: Pending::SentTime { envelope: e, sent: s, latest_ledger },
        } && e@ == envelope@ && s == sent && latest_ledger == l.sequence,
        (Pending::SentTime { envelope, sent, latest_ledger }, Reply::LedgersPage(l)) => p
            matches Progress::Done(Ok(Response::Sent(b))) && shows_sent(
            envelope@,
            sent,
            latest_ledger,
            l.close_time,
            b,
        ),
        (Pending::Transaction, Reply::Transaction(found)) => p matches Progress::Ask {
            command: Command::GetLatestLedger,
            then: Pending::TransactionLedger { receipt },
        } && receipt == found,
        (Pending::TransactionLedger { receipt }, Reply::LatestLedger(l)) => p matches Progress::Done(
            Ok(Response::Transaction(b)),
        ) && shows_receipt(receipt, l.sequence, b),
        (Pending::EntryWriting, Reply::Written) => asks_ledger(p) && (p matches Progress::Ask {
            then: Pending::EntryWritten,
            ..
        }),
        (Pending::EntryWritten, Reply::LatestLedger(l)) => p matches Progress::Done(
            Ok(Response::EntrySet(b)),
        ) && b.ok && b.latest_ledger == l.sequence,
        (Pending::CodeWriting { hash }, Reply::Written) => asks_ledger(p) && (p matches Progress::Ask {
            then: Pending::CodeWritten { hash: h },
            ..
        } && h == hash),
        (Pending::CodeWritten { hash }, Reply::LatestLedger(l)) => p matches Progress::Done(
            Ok(Response::CodeSet(b)),
        ) && b.ok && b.hash@ == hex(hash@) && b.latest_ledger == l.sequence,
        (Pending::NativeBalance { account, amount }, Reply::LedgerEntries(found)) => resumes_native(
            account@,
            amount,
            found,
            p,
        ),
        (
            Pending::CreditBalance { account, asset, amount },
            Reply::LedgerEntries(found),
        ) => resumes_credit(account@, asset_xdr(asset), amount, found, p),
        (Pending::BalanceWriting { latest_ledger }, Reply::Written) => balance_set(p, latest_ledger),
        (
            Pending::TokenBalance { account, contract, amount },
            Reply::Simulation(told),
        ) => resumes_token(account@, contract@, amount, told, p),
        (Pending::TokenChange { delta }, Reply::Sent(sent)) => match sent.receipt.result {
            Err(reason) => refuses(p, token_refusal(delta as int, reason@)),
            Ok(_) => asks_ledger(p) && (p matches Progress::Ask { then: Pending::TokenChanged, .. }),
        },
        (Pending::TokenChanged, Reply::LatestLedger(l)) => balance_set(p, l.sequence),
        (Pending::EtchCode { contract, hash, live_until }, Reply::Written) => looks_for(
            p,
            instance_key(contract@),
        ) && (p matches Progress::Ask {
            then: Pending::EtchInstance { contract: c, hash: h, live_until: u },
            ..
        } && c == contract && h == hash && u == live_until),
        (
            Pending::EtchInstance { contract, hash, live_until },
            Reply::LedgerEntries(found),
        ) => resumes_etching(contract@, hash@, live_until, found, p),
        (Pending::Closing, Reply::Closed(c)) => p matches Progress::Done(Ok(Response::Closed(b)))
            && b.new_sequence == c.new_sequence && b.new_close_time@ == decimal(c.new_close_time as int),
        (_, reply) => breaks(p, reply_failure(reply)),
    }
}

fn give_up(reply: &Reply) -> (r: Progress)
    ensures
        breaks(r, reply_failure(*reply)),
{
    match reply {
        Reply::Failed(m) => Progress::Done(Err(JsonRpcError::internal_error(m.as_str()))),
        _ => Progress::Done(
            Err(JsonRpcError::internal_error("unexpected reply from the worker")),
        ),
    }
}

fn first_found(entries: Vec<Option<LedgerRow>>) -> (r: Option<LedgerRow>)
    ensures
        row_option(r) == first_row(entries@),
{
    let mut entries = entries;
    if entries.len() == 0 {
        return None;
    }
    entries.swap_remove(0)
}

fn ask_ledger(then: Pending) -> (r: Progress)
    ensures
        asks_ledger(r),
        r matches Progress::Ask { then: t, .. } && t == then,
{
    Progress::Ask { command: Command::GetLatestLedger, then }
}

fn set_balance_done(latest_ledger: u32) -> (r: Progress)
    ensures
        balance_set(r, latest_ledger),
{
    Progress::Done(Ok(Response::BalanceSet(SetBalanceResponse { ok: true, latest_ledger })))
}

fn resume_native(account: &[u8; 32], amount: i64, found: LedgerEntriesReply) -> (r: Progress)
    ensures
        resumes_native(account@, amount, found, r),
{
    let latest_ledger: u32 = found.latest_ledger;
    match native_balance_entry(first_found(found.entries), account, amount, latest_ledger) {
        Ok(entry) => write(
            LedgerKey::account(account),
            entry,
            None,
            Pending::BalanceWriting { latest_ledger },
        ),
        Err(e) => refuse(e),
    }
}

fn resume_credit(account: &[u8; 32], asset: &TrustLineAsset, amount: i64, found: LedgerEntriesReply) -> (r:
    Progress)
    ensures
        resumes_credit(account@, asset_xdr(*asset), amount, found, r),
{
    let latest_ledger: u32 = found.latest_ledger;
    match credit_balance_entry(first_found(found.entries), account, asset, amount, latest_ledger) {
        Ok(entry) => write(
            LedgerKey::trustline(account, asset),
            entry,
            None,
            Pending::BalanceWriting { latest_ledger },
        ),
        Err(e) => refuse(e),
    }
}

fn resume_token(account: &[u8; 32], contract: &[u8; 32], amount: i128, told: &SimulationReply) -> (r: Progress)
    ensures
        resumes_token(account@, contract@, amount, *told, r),
{
    let current: i128 = match read_balance(&told.result) {
        Ok(n) => n,
        Err(e) => {
            return refuse(e);
        },
    };
    match plan_token_change(contract, account, current, amount) {
        Ok(TokenPlan::Nothing) => set_balance_done(told.latest_ledger),
        Ok(TokenPlan::Change { delta, host_function, envelope_bytes }) => {
            let source_account: [u8; 32] = [0u8; 32];
            assert(source_account@ =~= nobody());
            Progress::Ask {
                command: Command::SendTransaction { envelope_bytes, host_function, source_account },
                then: Pending::TokenChange { delta },
            }
        },
        Err(e) => refuse(e),
    }
}

fn resume_etching(contract: &[u8; 32], hash: &[u8; 32], live_until: Option<u32>, found: LedgerEntriesReply) -> (r:
    Progress)
    ensures
        resumes_etching(contract@, hash@, live_until, found, r),
{
    let row = first_found(found.entries);
    let entry = match &row {
        Some(row) => etched_instance(contract, hash, Some(row)),
        None => etched_instance(contract, hash, None),
    };
    match entry {
        Ok(entry) => write(
            new_instance_key(contract),
            entry,
            live_until,
            Pending::CodeWriting { hash: *hash },
        ),
        Err(e) => refuse(e),
    }
}

/// Go on with a request after a reply.
pub fn resume(pending: Pending, reply: Reply) -> (r: Progress)
    ensures
        resumes(pending, reply, r),
{
    match (pending, reply) {
        (Pending::Health, Reply::LatestLedger(l)) => Progress::Done(
            Ok(Response::Health(handle_get_health(&l))),
        ),
        (Pending::VersionInfo { version }, Reply::Network(n)) => Progress::Done(
            Ok(Response::VersionInfo(handle_get_version_info(version.as_str(), &n))),
        ),
        (Pending::Network, Reply::Network(n)) => Progress::Done(
            Ok(Response::Network(handle_get_network(n))),
        ),
        (Pending::LatestLedger, Reply::LatestLedger(l)) => Progress::Done(
            Ok(Response::LatestLedger(handle_get_latest_ledger(l))),
        ),
        (Pending::Ledgers, Reply::LedgersPage(l)) => Progress::Done(
            Ok(Response::Ledgers(handle_get_ledgers(&l))),
        ),
        (Pending::LedgerEntries, Reply::LedgerEntries(found)) => match handle_get_ledger_entries(&found) {
            Ok(body) => Progress::Done(Ok(Response::LedgerEntries(body))),
            Err(e) => refuse(e),
        },
        (Pending::Simulation, Reply::Simulation(told)) => match encode_simulation_reply(&told) {
            Ok(body) => Progress::Done(Ok(Response::Simulation(body))),
            Err(e) => refuse(e),
        },
        (Pending::Sending { envelope }, Reply::Sent(sent)) => ask_ledger(
            Pending::SentLedger { envelope, sent },
        ),
        (Pending::SentLedger { envelope, sent }, Reply::LatestLedger(l)) => Progress::Ask {
            command: Command::GetLedgersPage,
            then: Pending::SentTime { envelope, sent, latest_ledger: l.sequence },
        },
        (Pending::SentTime { envelope, sent, latest_ledger }, Reply::LedgersPage(l)) => Progress::Done(
            Ok(Response::Sent(handle_send_transaction(envelope, &sent, latest_ledger, l.close_time))),
        ),
        (Pending::Transaction, Reply::Transaction(receipt)) => ask_ledger(
            Pending::TransactionLedger { receipt },
        ),
        (Pending::TransactionLedger { receipt }, Reply::LatestLedger(l)) => Progress::Done(
            Ok(Response::Transaction(handle_get_transaction(&receipt, l.sequence))),
        ),
        (Pending::EntryWriting, Reply::Written) => ask_ledger(Pending::EntryWritten),
        (Pending::EntryWritten, Reply::LatestLedger(l)) => Progress::Done(
            Ok(
                Response::EntrySet(SetLedgerEntryResponse { ok: true, latest_ledger: l.sequence }),
            ),
        ),
        (Pending::CodeWriting { hash }, Reply::Written) => ask_ledger(Pending::CodeWritten { hash }),
        (Pending::CodeWritten { hash }, Reply::LatestLedger(l)) => Progress::Done(
            Ok(
                Response::CodeSet(
                    SetCodeResponse {
                        ok: true,
                        hash: hex_lower(&hash),
                        latest_ledger: l.sequence,
                    },
                ),
            ),
        ),
        (Pending::NativeBalance { account, amount }, Reply::LedgerEntries(found)) => resume_native(
            &account,
            amount,
            found,
        ),
        (Pending::CreditBalance { account, asset, amount }, Reply::LedgerEntries(found)) => resume_credit(
            &account,
            &asset,
            amount,
            found,
        ),
        (Pending::BalanceWriting { latest_ledger }, Reply::Written) => set_balance_done(latest_ledger),
        (Pending::TokenBalance { account, contract, amount }, Reply::Simulation(told)) => resume_token(
            &account,
            &contract,
            amount,
            &told,
        ),
        (Pending::TokenChange { delta }, Reply::Sent(sent)) => match sent.receipt.result {
            Ok(_) => ask_ledger(Pending::TokenChanged),
            Err(reason) => refuse(token_refusal_error(delta, reason.as_str())),
        },
        (Pending::TokenChanged, Reply::LatestLedger(l)) => set_balance_done(l.sequence),
        (Pending::EtchCode { contract, hash, live_until }, Reply::Written) => look_for(
            new_instance_key(&contract),
            Pending::EtchInstance { contract, hash, live_until },
        ),
        (Pending::EtchInstance { contract, hash, live_until }, Reply::LedgerEntries(found)) => resume_etching(
            &contract,
            &hash,
            live_until,
            found,
        ),
        (Pending::Closing, Reply::Closed(c)) => Progress::Done(
            Ok(
                Response::Closed(
                    CloseLedgersResponse {
                        new_sequence: c.new_sequence,
                        new_close_time: u64_text(c.new_close_time),
                    },
                ),
            ),
        ),
        (_, reply) => give_up(&reply),
    }
}

// ---------------------------------------------------------------------------
// Laws
// ---------------------------------------------------------------------------

/// How many commands a request still waits for, the present one counted.
pub open spec fn rounds_left(pending: Pending) -> nat {
    match pending {
        Pending::Sending { .. } => 3,
        Pending::SentLedger { .. } => 2,
        Pending::Transaction => 2,
        Pending::EntryWriting => 2,
        Pending::CodeWriting { .. } => 2,
        Pending::NativeBalance { .. } => 2,
        Pending::CreditBalance { .. } => 2,
        Pending::TokenBalance { .. } => 3,
        Pending::TokenChange { .. } => 2,
        Pending::EtchCode { .. } => 4,
        Pending::EtchInstance { .. } => 3,
        _ => 1,
    }
}

/// No request needs more than four commands.
pub proof fn law_requests_start_small(request: Request, p: Progress)
    requires
        starts(request, p),
    ensures
        p matches Progress::Ask { then, .. } ==> rounds_left(then) <= 4,
{
}

/// Whatever the worker replies, a request comes closer to its end with each
/// reply.
pub proof fn law_requests_end(pending: Pending, reply: Reply, p: Progress)
    requires
        resumes(pending, reply, p),
    ensures
        p matches Progress::Ask { then, .. } ==> rounds_left(then) < rounds_left(pending),
{
}

/// A worker that cannot carry a command out ends the request with its message.
pub proof fn law_failures_are_reported(pending: Pending, message: String, p: Progress)
    requires
        resumes(pending, Reply::Failed(message), p),
    ensures
        breaks(p, message@),
{
}

/// What `fork_setLedgerEntry` wrote is what is read back.
pub proof fn law_written_entries_read_back(
    params: SetLedgerEntryParams,
    command: Command,
    then: Pending,
    w: WorkerView,
    after: WorkerView,
    r: WorkStep,
)
    requires
        starts(Request::SetLedgerEntry(params), Progress::Ask { command, then }),
        carried_out(w, command, after, r),
    ensures
        r == WorkStep::Done(Reply::Written),
        param_key("key"@, params.key@) matches Ok(key) && param_entry("entry"@, params.entry@) matches Ok(
            entry,
        ) && found_under(after.env.source.known, key) == Some(
            RowView { key, entry, live_until: params.live_until_ledger_seq },
        ),
{
}

/// What `fork_setStorage` wrote is what is read back.
pub proof fn law_stored_values_read_back(
    params: SetStorageParams,
    command: Command,
    then: Pending,
    w: WorkerView,
    after: WorkerView,
    r: WorkStep,
)
    requires
        starts(Request::SetStorage(params), Progress::Ask { command, then }),
        carried_out(w, command, after, r),
    ensures
        r == WorkStep::Done(Reply::Written),
        storage_to_write(params) matches Ok((key, entry)) && found_under(
            after.env.source.known,
            key,
        ) == Some(RowView { key, entry, live_until: params.live_until_ledger_seq }),
{
}

/// What `fork_setCode` wrote is what is read back, under the code's own hash.
pub proof fn law_code_reads_back(
    params: SetCodeParams,
    command: Command,
    then: Pending,
    w: WorkerView,
    after: WorkerView,
    r: WorkStep,
)
    requires
        starts(Request::SetCode(params), Progress::Ask { command, then }),
        carried_out(w, command, after, r),
    ensures
        r == WorkStep::Done(Reply::Written),
        code_to_write(params.wasm@) matches Ok((hash, key, entry)) && key == contract_code_key_xdr(hash)
            && found_under(after.env.source.known, key) == Some(
            RowView { key, entry, live_until: params.live_until_ledger_seq },
        ),
{
}

/// Exchanging a contract's code keeps its storage: the instance that is
/// written points at the new code and has the storage of the old one.
pub proof fn law_etching_keeps_storage(
    contract: [u8; 32],
    hash: [u8; 32],
    live_until: Option<u32>,
    found: LedgerEntriesReply,
    command: Command,
    then: Pending,
    w: WorkerView,
    after: WorkerView,
    r: WorkStep,
)
    requires
        resumes(
            Pending::EtchInstance { contract, hash, live_until },
            Reply::LedgerEntries(found),
            Progress::Ask { command, then },
        ),
        carried_out(w, command, after, r),
    ensures
        r == WorkStep::Done(Reply::Written),
        kept_storage(first_row(found.entries@)) matches Ok(storage) && found_under(
            after.env.source.known,
            instance_key(contract@),
        ) == Some(
            RowView {
                key: instance_key(contract@),
                entry: instance_entry(contract@, hash@, storage),
                live_until,
            },
        ) && instance_storage_of(instance_xdr(hash@, storage)) == Some(storage),
{
}

/// Setting a balance changes nothing of an account but the balance and the
/// number of the ledger that changed it.
pub proof fn law_native_balance_changes_nothing_else(
    row: RowView,
    a: AccountView,
    account: Seq<u8>,
    balance: i64,
    ledger: u32,
)
    requires
        row.entry.data == DataView::Account(a),
    ensures
        native_to_write(Some(row), account, balance, ledger) == Ok::<EntryView, Seq<char>>(
            EntryView {
                last_modified_ledger_seq: ledger,
                data: DataView::Account(AccountView { balance, ..a }),
                ext: row.entry.ext,
            },
        ),
{
}

/// Setting a balance changes nothing of a trustline but the balance and the
/// number of the ledger that changed it.
pub proof fn law_credit_balance_changes_nothing_else(
    row: RowView,
    t: TrustLineView,
    account: Seq<u8>,
    asset: Seq<u8>,
    balance: i64,
    ledger: u32,
)
    requires
        row.entry.data == DataView::Trustline(t),
    ensures
        credit_to_write(Some(row), account, asset, balance, ledger) == Ok::<EntryView, Seq<char>>(
            EntryView {
                last_modified_ledger_seq: ledger,
                data: DataView::Trustline(TrustLineView { balance, ..t }),
                ext: row.entry.ext,
            },
        ),
{
}

/// Setting a native balance, given what the worker found of the account,
/// succeeds: the balance is the one that is read back, and no other key is
/// touched.
pub proof fn law_native_balance_reads_back(
    account: [u8; 32],
    amount: i64,
    found: LedgerEntriesReply,
    command: Command,
    then: Pending,
    w: WorkerView,
    after: WorkerView,
    r: WorkStep,
    other: Seq<u8>,
)
    requires
        resumes(
            Pending::NativeBalance { account, amount },
            Reply::LedgerEntries(found),
            Progress::Ask { command, then },
        ),
        found.entries@.len() > 0 ==> can_be_written(found.entries@[0]),
        carried_out(w, command, after, r),
        other != account_key_xdr(account@),
    ensures
        r == WorkStep::Done(Reply::Written),
        found_under(after.env.source.known, account_key_xdr(account@)) matches Some(row)
            && row.entry.data matches DataView::Account(a) && a.balance == amount,
        found_under(after.env.source.known, other) == found_under(w.env.source.known, other),
{
    match first_row(found.entries@) {
        Some(row) => {
            let a = row.entry.data->Account_0;
            lemma_account_numbers(a, amount, a.seq_num);
            assert(AccountView { balance: amount, seq_num: a.seq_num, ..a } == AccountView {
                balance: amount,
                ..a
            });
            lemma_writable_reads_back(with_account_balance(row.entry, a, amount, found.latest_ledger));
        },
        None => {},
    }
}

/// Setting a balance of a classic asset, given what the worker found of the
/// trustline, succeeds: the balance is the one that is read back, and no other
/// key is touched.
pub proof fn law_credit_balance_reads_back(
    account: [u8; 32],
    asset: TrustLineAsset,
    amount: i64,
    found: LedgerEntriesReply,
    command: Command,
    then: Pending,
    w: WorkerView,
    after: WorkerView,
    r: WorkStep,
    other: Seq<u8>,
)
    requires
        resumes(
            Pending::CreditBalance { account, asset, amount },
            Reply::LedgerEntries(found),
            Progress::Ask { command, then },
        ),
        found.entries@.len() > 0 ==> can_be_written(found.entries@[0]),
        carried_out(w, command, after, r),
        other != trustline_key_xdr(account@, asset_xdr(asset)),
    ensures
        r == WorkStep::Done(Reply::Written),
        found_under(
            after.env.source.known,
            trustline_key_xdr(account@, asset_xdr(asset)),
        ) matches Some(row) && row.entry.data matches DataView::Trustline(t) && t.balance == amount,
        found_under(after.env.source.known, other) == found_under(w.env.source.known, other),
{
    match first_row(found.entries@) {
        Some(row) => {
            let t = row.entry.data->Trustline_0;
            lemma_trustline_balance(t, amount);
            lemma_writable_reads_back(with_trustline_balance(row.entry, t, amount, found.latest_ledger));
        },
        None => {
            law_new_balances_can_be_written(account@, asset, amount, found.latest_ledger);
        },
    }
}

/// A balance that does not exist yet is created, and creating it always
/// succeeds.
pub proof fn law_new_balances_can_be_written(account: Seq<u8>, asset: TrustLineAsset, balance: i64, ledger: u32)
    ensures
        native_to_write(None, account, balance, ledger) matches Ok(e) && plain(e) && settled(e),
        credit_to_write(None, account, asset_xdr(asset), balance, ledger) matches Ok(e) && plain(e)
            && settled(e),
{
    assert(is_asset(asset_xdr(asset)));
}

/// The call that changes a token balance brings it to the target: minting the
/// amount raises the balance to it, burning the amount lowers it to it.
pub proof fn law_token_change_reaches_the_target(current: int, target: int)
    requires
        current != target,
    ensures
        magnitude(target - current) > 0,
        change_function(target - current) == "mint"@ ==> current + magnitude(target - current) == target,
        change_function(target - current) == "burn"@ ==> current - magnitude(target - current) == target,
{
    reveal_strlit("mint");
    reveal_strlit("burn");
    assert("mint"@[0] != "burn"@[0]);
}

/// Only entries that exist are shown, each of them, and in order: the rows
/// that are shown are those of the entries found, without the gaps.
pub proof fn law_only_existing_entries_are_shown(entries: Seq<Option<LedgerRow>>, i: int)
    requires
        0 <= i < entries.len(),
    ensures
        present(entries).len() <= entries.len(),
        entries[i] matches Some(row) ==> present(entries).contains(row@),
        present(entries) == present(entries.take(i)) + (match entries[i] {
            Some(row) => seq![row@],
            None => Seq::empty(),
        }) + present(entries.skip(i + 1)),
    decreases entries.len(),
{
    let front = entries.drop_last();
    lemma_present_len(entries);
    if i == entries.len() - 1 {
        assert(entries.take(i) =~= front);
        assert(entries.skip(i + 1) =~= Seq::<Option<LedgerRow>>::empty());
        assert(present(entries.skip(i + 1)) == Seq::<RowView>::empty());
        assert(present(entries) =~= present(entries.take(i)) + (match entries[i] {
            Some(row) => seq![row@],
            None => Seq::empty(),
        }) + present(entries.skip(i + 1)));
    } else {
        law_only_existing_entries_are_shown(front, i);
        let rest = entries.skip(i + 1);
        assert(front.take(i) =~= entries.take(i));
        assert(rest.drop_last() =~= front.skip(i + 1));
        assert(rest.last() == entries.last());
        assert(present(entries) =~= present(entries.take(i)) + (match entries[i] {
            Some(row) => seq![row@],
            None => Seq::empty(),
        }) + present(rest));
    }
    match entries[i] {
        Some(row) => {
            let n = present(entries.take(i)).len() as int;
            assert(present(entries)[n] == row@);
        },
        None => {},
    }
}

proof fn lemma_present_len(entries: Seq<Option<LedgerRow>>)
    ensures
        present(entries).len() <= entries.len(),
    decreases entries.len(),
{
    if entries.len() > 0 {
        lemma_present_len(entries.drop_last());
    }
}

} // verus!

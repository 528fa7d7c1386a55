//! What goes over the wire: the methods, their parameters, their results, and
//! the errors. Field by field these are the JSON objects that clients see.

use vstd::prelude::*;

use crate::text::{join2, join3, same_text};

verus! {

// ---------------------------------------------------------------------------
// Envelope
// ---------------------------------------------------------------------------

/// The only version of JSON-RPC that is spoken.
pub const JSONRPC_VERSION: &'static str = "2.0";

/// The error object of a JSON-RPC response.
#[derive(Debug, PartialEq, Eq)]
pub struct JsonRpcError {
    pub code: i32,
    pub message: String,
}

/// The content of an error object.
pub struct JsonRpcErrorView {
    pub code: int,
    pub message: Seq<char>,
}

impl View for JsonRpcError {
    type V = JsonRpcErrorView;

    open spec fn view(&self) -> JsonRpcErrorView {
        JsonRpcErrorView { code: self.code as int, message: self.message@ }
    }
}

/// The error for a method that does not exist.
pub open spec fn unknown_method(method: Seq<char>) -> JsonRpcErrorView {
    JsonRpcErrorView { code: -32601, message: "method not found: "@ + method }
}

/// The error for parameters that make no sense.
pub open spec fn bad_params(detail: Seq<char>) -> JsonRpcErrorView {
    JsonRpcErrorView { code: -32602, message: detail }
}

/// The error for a failure on this side.
pub open spec fn broken(detail: Seq<char>) -> JsonRpcErrorView {
    JsonRpcErrorView { code: -32603, message: detail }
}

impl JsonRpcError {
    /// The error for a method that does not exist.
    pub fn method_not_found(method: &str) -> (r: JsonRpcError)
        ensures
            r@ == unknown_method(method@),
    {
        JsonRpcError { code: -32601, message: join2("method not found: ", method) }
    }

    /// The error for parameters that make no sense.
    pub fn invalid_params(detail: &str) -> (r: JsonRpcError)
        ensures
            r@ == bad_params(detail@),
    {
        JsonRpcError { code: -32602, message: detail.to_owned() }
    }

    /// The error for a failure on this side.
    pub fn internal_error(detail: &str) -> (r: JsonRpcError)
        ensures
            r@ == broken(detail@),
    {
        JsonRpcError { code: -32603, message: detail.to_owned() }
    }
}

/// A JSON-RPC response, without the id of the request. It has a result or an
/// error, never both.
#[derive(Debug)]
pub struct JsonRpcResponse<T> {
    pub jsonrpc: &'static str,
    pub result: Option<T>,
    pub error: Option<JsonRpcError>,
}

impl<T> JsonRpcResponse<T> {
    /// The response that carries a result.
    pub fn ok(result: T) -> (r: JsonRpcResponse<T>)
        ensures
            r.jsonrpc@ == JSONRPC_VERSION@,
            r.result == Some(result),
            r.error is None,
    {
        JsonRpcResponse { jsonrpc: JSONRPC_VERSION, result: Some(result), error: None }
    }

    /// The response that carries an error.
    pub fn err(error: JsonRpcError) -> (r: JsonRpcResponse<T>)
        ensures
            r.jsonrpc@ == JSONRPC_VERSION@,
            r.result is None,
            r.error == Some(error),
    {
        JsonRpcResponse { jsonrpc: JSONRPC_VERSION, result: None, error: Some(error) }
    }

    /// The response to a request that came out one way or the other.
    pub fn of(outcome: Result<T, JsonRpcError>) -> (r: JsonRpcResponse<T>)
        ensures
            r.jsonrpc@ == JSONRPC_VERSION@,
            (match outcome {
                Ok(v) => r.result == Some(v) && r.error is None,
                Err(e) => r.result is None && r.error == Some(e),
            }),
    {
        match outcome {
            Ok(v) => JsonRpcResponse::ok(v),
            Err(e) => JsonRpcResponse::err(e),
        }
    }
}

/// Whether a request's version is the one that is spoken; if it is not, the
/// message to refuse it with.
pub fn check_version(jsonrpc: &str) -> (r: Result<(), String>)
    ensures
        r is Ok <==> jsonrpc@ == "2.0"@,
        r matches Err(m) ==> m@ == "unsupported jsonrpc version: "@ + jsonrpc@,
{
    if same_text(jsonrpc, "2.0") {
        Ok(())
    } else {
        Err(join2("unsupported jsonrpc version: ", jsonrpc))
    }
}

// ---------------------------------------------------------------------------
// Methods
// ---------------------------------------------------------------------------

/// The methods that are served.
#[derive(Debug, Clone, Copy, PartialEq, Eq, Structural)]
pub enum Method {
    GetHealth,
    GetVersionInfo,
    GetNetwork,
    GetLatestLedger,
    GetLedgers,
    GetLedgerEntries,
    SimulateTransaction,
    SendTransaction,
    GetTransaction,
    SetLedgerEntry,
    SetStorage,
    SetCode,
    SetBalance,
    Etch,
    CloseLedgers,
}

/// The name of a method.
pub open spec fn method_text(m: Method) -> Seq<char> {
    match m {
        Method::GetHealth => "getHealth"@,
        Method::GetVersionInfo => "getVersionInfo"@,
        Method::GetNetwork => "getNetwork"@,
        Method::GetLatestLedger => "getLatestLedger"@,
        Method::GetLedgers => "getLedgers"@,
        Method::GetLedgerEntries => "getLedgerEntries"@,
        Method::SimulateTransaction => "simulateTransaction"@,
        Method::SendTransaction => "sendTransaction"@,
        Method::GetTransaction => "getTransaction"@,
        Method::SetLedgerEntry => "fork_setLedgerEntry"@,
        Method::SetStorage => "fork_setStorage"@,
        Method::SetCode => "fork_setCode"@,
        Method::SetBalance => "fork_setBalance"@,
        Method::Etch => "fork_etch"@,
        Method::CloseLedgers => "fork_closeLedgers"@,
    }
}

impl Method {
    /// The name of the method.
    pub fn name(self) -> (r: &'static str)
        ensures
            r@ == method_text(self),
    {
        match self {
            Method::GetHealth => "getHealth",
            Method::GetVersionInfo => "getVersionInfo",
            Method::GetNetwork => "getNetwork",
            Method::GetLatestLedger => "getLatestLedger",
            Method::GetLedgers => "getLedgers",
            Method::GetLedgerEntries => "getLedgerEntries",
            Method::SimulateTransaction => "simulateTransaction",
            Method::SendTransaction => "sendTransaction",
            Method::GetTransaction => "getTransaction",
            Method::SetLedgerEntry => "fork_setLedgerEntry",
            Method::SetStorage => "fork_setStorage",
            Method::SetCode => "fork_setCode",
            Method::SetBalance => "fork_setBalance",
            Method::Etch => "fork_etch",
            Method::CloseLedgers => "fork_closeLedgers",
        }
    }

    /// The error for parameters that are not of the method's shape.
    pub fn params_error(self, detail: &str) -> (r: JsonRpcError)
        ensures
            r@ == bad_params(method_text(self) + " params: "@ + detail@),
    {
        JsonRpcError::invalid_params(join3(self.name(), " params: ", detail).as_str())
    }
}

/// Whether a name is told to be that of a method just where it is one.
pub open spec fn dispatched(method: Seq<char>, r: Result<Method, JsonRpcError>) -> bool {
    match r {
        Ok(m) => method_text(m) == method,
        Err(e) => e@ == unknown_method(method) && forall|m: Method| #[trigger] method_text(m) != method,
    }
}

/// Find a method by its name.
pub fn dispatch(method: &str) -> (r: Result<Method, JsonRpcError>)
    ensures
        dispatched(method@, r),
{
    if same_text(method, "getHealth") {
        Ok(Method::GetHealth)
    } else if same_text(method, "getVersionInfo") {
        Ok(Method::GetVersionInfo)
    } else if same_text(method, "getNetwork") {
        Ok(Method::GetNetwork)
    } else if same_text(method, "getLatestLedger") {
        Ok(Method::GetLatestLedger)
    } else if same_text(method, "getLedgers") {
        Ok(Method::GetLedgers)
    } else if same_text(method, "getLedgerEntries") {
        Ok(Method::GetLedgerEntries)
    } else if same_text(method, "simulateTransaction") {
        Ok(Method::SimulateTransaction)
    } else if same_text(method, "sendTransaction") {
        Ok(Method::SendTransaction)
    } else if same_text(method, "getTransaction") {
        Ok(Method::GetTransaction)
    } else if same_text(method, "fork_setLedgerEntry") {
        Ok(Method::SetLedgerEntry)
    } else if same_text(method, "fork_setStorage") {
        Ok(Method::SetStorage)
    } else if same_text(method, "fork_setCode") {
        Ok(Method::SetCode)
    } else if same_text(method, "fork_setBalance") {
        Ok(Method::SetBalance)
    } else if same_text(method, "fork_etch") {
        Ok(Method::Etch)
    } else if same_text(method, "fork_closeLedgers") {
        Ok(Method::CloseLedgers)
    } else {
        Err(JsonRpcError::method_not_found(method))
    }
}

/// No two methods share a name.
pub proof fn law_method_names_differ(a: Method, b: Method)
    requires
        method_text(a) == method_text(b),
    ensures
        a == b,
{
    reveal_strlit("getHealth");
    reveal_strlit("getVersionInfo");
    reveal_strlit("getNetwork");
    reveal_strlit("getLatestLedger");
    reveal_strlit("getLedgers");
    reveal_strlit("getLedgerEntries");
    reveal_strlit("simulateTransaction");
    reveal_strlit("sendTransaction");
    reveal_strlit("getTransaction");
    reveal_strlit("fork_setLedgerEntry");
    reveal_strlit("fork_setStorage");
    reveal_strlit("fork_setCode");
    reveal_strlit("fork_setBalance");
    reveal_strlit("fork_etch");
    reveal_strlit("fork_closeLedgers");
    let x = method_text(a);
    let y = method_text(b);
    assert(x.len() == y.len() && x[0] == y[0] && x[3] == y[3] && x[x.len() - 1] == y[y.len() - 1]);
    assert(x.len() >= 8 ==> x[5] == y[5] && x[7] == y[7]);
    assert(x.len() >= 9 ==> x[8] == y[8]);
    assert(x.len() >= 10 ==> x[9] == y[9]);
}

// ---------------------------------------------------------------------------
// Parameters
// ---------------------------------------------------------------------------

/// How long a storage entry lives.
#[derive(Debug, Clone, Copy, PartialEq, Eq, Structural)]
pub enum StorageDurability {
    Persistent,
    Temporary,
}

impl Default for StorageDurability {
    fn default() -> (r: StorageDurability)
        ensures
            r == StorageDurability::Persistent,
    {
        StorageDurability::Persistent
    }
}

/// An asset whose balance is to be set.
#[derive(Debug, PartialEq, Eq)]
pub enum AssetWire {
    /// The network's own asset.
    Native,
    /// A classic asset, by its code and issuer.
    Credit { code: String, issuer: String },
    /// A token contract, by its strkey.
    Contract { contract: String },
}

/// Parameters of `getLedgerEntries`: ledger keys as base64 of their XDR.
#[derive(Debug)]
pub struct GetLedgerEntriesParams {
    pub keys: Vec<String>,
}

/// Parameters of `simulateTransaction`: an envelope as base64 of its XDR.
#[derive(Debug)]
pub struct SimulateTransactionParams {
    pub transaction: String,
}

/// Parameters of `sendTransaction`: an envelope as base64 of its XDR.
#[derive(Debug)]
pub struct SendTransactionParams {
    pub transaction: String,
}

/// Parameters of `getTransaction`: a hash in hexadecimal.
#[derive(Debug)]
pub struct GetTransactionParams {
    pub hash: String,
}

/// Parameters of `fork_setLedgerEntry`: a key and an entry as base64 of their
/// XDR, and the ledger up to which the entry lives.
#[derive(Debug)]
pub struct SetLedgerEntryParams {
    pub key: String,
    pub entry: String,
    pub live_until_ledger_seq: Option<u32>,
}

/// Parameters of `fork_setStorage`: a contract strkey, and a key and a value
/// as base64 of their XDR.
#[derive(Debug)]
pub struct SetStorageParams {
    pub contract: String,
    pub key: String,
    pub value: String,
    pub durability: Option<StorageDurability>,
    pub live_until_ledger_seq: Option<u32>,
}

/// Parameters of `fork_setCode`: the code in base64.
#[derive(Debug)]
pub struct SetCodeParams {
    pub wasm: String,
    pub live_until_ledger_seq: Option<u32>,
}

/// Parameters of `fork_setBalance`: an account strkey, an amount in decimal,
/// and an asset, by default the network's own.
#[derive(Debug)]
pub struct SetBalanceParams {
    pub account: String,
    pub amount: String,
    pub asset: Option<AssetWire>,
}

/// Parameters of `fork_etch`: a contract strkey and the code in base64.
#[derive(Debug)]
pub struct EtchParams {
    pub contract: String,
    pub wasm: String,
    pub live_until_ledger_seq: Option<u32>,
}

/// Parameters of `fork_closeLedgers`: by default one ledger, and five seconds
/// for each ledger.
#[derive(Debug, Clone, Copy)]
pub struct CloseLedgersParams {
    pub ledgers: Option<u32>,
    pub timestamp_advance_seconds: Option<u64>,
}

// ---------------------------------------------------------------------------
// Results
// ---------------------------------------------------------------------------

/// Result of `getHealth`.
#[derive(Debug, PartialEq, Eq)]
pub struct HealthResponse {
    pub status: &'static str,
    pub latest_ledger: u32,
    pub oldest_ledger: u32,
    pub ledger_retention_window: u32,
}

/// Result of `getVersionInfo`.
#[derive(Debug, PartialEq, Eq)]
pub struct VersionInfoResponse {
    pub version: String,
    pub commit_hash: &'static str,
    pub build_timestamp: &'static str,
    pub captive_core_version: &'static str,
    pub protocol_version: u32,
}

/// Result of `getNetwork`.
#[derive(Debug, PartialEq, Eq)]
pub struct NetworkResponse {
    pub passphrase: String,
    pub protocol_version: u32,
    pub network_id: String,
    pub friendbot_url: Option<String>,
}

/// Result of `getLatestLedger`.
#[derive(Debug, PartialEq, Eq)]
pub struct LatestLedgerResponse {
    pub id: String,
    pub sequence: u32,
    pub protocol_version: u32,
}

/// One ledger in the result of `getLedgers`.
#[derive(Debug, PartialEq, Eq)]
pub struct LedgerInfo {
    pub hash: String,
    pub sequence: u32,
    pub ledger_close_time: String,
}

/// Result of `getLedgers`.
#[derive(Debug, PartialEq, Eq)]
pub struct GetLedgersResponse {
    pub ledgers: Vec<LedgerInfo>,
    pub latest_ledger: u32,
    pub latest_ledger_close_time: String,
    pub oldest_ledger: u32,
    pub oldest_ledger_close_time: String,
    pub cursor: String,
}

/// One entry in the result of `getLedgerEntries`.
#[derive(Debug, PartialEq, Eq)]
pub struct LedgerEntryItem {
    pub key: String,
    pub xdr: String,
    pub last_modified_ledger_seq: u32,
    pub live_until_ledger_seq: Option<u32>,
}

/// Result of `getLedgerEntries`.
#[derive(Debug, PartialEq, Eq)]
pub struct GetLedgerEntriesResponse {
    pub entries: Vec<LedgerEntryItem>,
    pub latest_ledger: u32,
}

/// What a simulated host function gave, and the authorizations it needs.
#[derive(Debug, PartialEq, Eq)]
pub struct SimulateHostFunctionResult {
    pub auth: Vec<String>,
    pub xdr: String,
}

/// What a simulation took, in decimal.
#[derive(Debug, PartialEq, Eq)]
pub struct SimulationCost {
    pub cpu_insns: String,
    pub mem_bytes: String,
}

/// Result of `simulateTransaction`.
#[derive(Debug, PartialEq, Eq)]
pub struct SimulateTransactionResponse {
    pub transaction_data: Option<String>,
    pub min_resource_fee: Option<String>,
    pub events: Option<Vec<String>>,
    pub results: Option<Vec<SimulateHostFunctionResult>>,
    pub cost: Option<SimulationCost>,
    pub latest_ledger: u32,
    pub error: Option<String>,
}

/// Result of `sendTransaction`.
#[derive(Debug, PartialEq, Eq)]
pub struct SendTransactionResponse {
    pub status: &'static str,
    pub hash: String,
    pub latest_ledger: u32,
    pub latest_ledger_close_time: String,
    pub envelope_xdr: String,
    pub error_message: Option<String>,
    pub applied_changes: u32,
}

/// Result of `getTransaction`.
#[derive(Debug, PartialEq, Eq)]
pub struct GetTransactionResponse {
    pub status: &'static str,
    pub latest_ledger: u32,
    pub ledger: Option<u32>,
    pub created_at: Option<String>,
    pub envelope_xdr: Option<String>,
    pub return_value_xdr: Option<String>,
    pub error_message: Option<String>,
    pub applied_changes: Option<u32>,
}

/// Result of `fork_setLedgerEntry` and `fork_setStorage`.
#[derive(Debug, PartialEq, Eq)]
pub struct SetLedgerEntryResponse {
    pub ok: bool,
    pub latest_ledger: u32,
}

/// Result of `fork_setCode` and `fork_etch`.
#[derive(Debug, PartialEq, Eq)]
pub struct SetCodeResponse {
    pub ok: bool,
    pub hash: String,
    pub latest_ledger: u32,
}

/// Result of `fork_setBalance`.
#[derive(Debug, PartialEq, Eq)]
pub struct SetBalanceResponse {
    pub ok: bool,
    pub latest_ledger: u32,
}

/// Result of `fork_closeLedgers`.
#[derive(Debug, PartialEq, Eq)]
pub struct CloseLedgersResponse {
    pub new_sequence: u32,
    pub new_close_time: String,
}

/// Each kind of error has its own code, which is the one of JSON-RPC, and
/// tells what it is about.
pub proof fn law_errors_have_the_codes_of_json_rpc(text: Seq<char>)
    ensures
        unknown_method(text).code == -32601,
        unknown_method(text).message == "method not found: "@ + text,
        bad_params(text).code == -32602,
        bad_params(text).message == text,
        broken(text).code == -32603,
        broken(text).message == text,
{
}

/// Every method is found by its name, and nothing else is.
pub proof fn law_methods_are_found_by_name(name: Seq<char>, m: Method, r: Result<Method, JsonRpcError>)
    requires
        dispatched(name, r),
    ensures
        name == method_text(m) ==> r == Ok::<Method, JsonRpcError>(m),
        r matches Ok(found) ==> name == method_text(found),
        r matches Err(e) ==> e.code == -32601,
{
    if let Ok(found) = r {
        if name == method_text(m) {
            law_method_names_differ(found, m);
        }
    }
}

/// The methods of the network keep its names, and those of the fork are
/// marked as such.
pub proof fn law_methods_keep_their_names()
    ensures
        method_text(Method::GetHealth) == "getHealth"@,
        method_text(Method::GetVersionInfo) == "getVersionInfo"@,
        method_text(Method::GetNetwork) == "getNetwork"@,
        method_text(Method::GetLatestLedger) == "getLatestLedger"@,
        method_text(Method::GetLedgers) == "getLedgers"@,
        method_text(Method::GetLedgerEntries) == "getLedgerEntries"@,
        method_text(Method::SimulateTransaction) == "simulateTransaction"@,
        method_text(Method::SendTransaction) == "sendTransaction"@,
        method_text(Method::GetTransaction) == "getTransaction"@,
        method_text(Method::SetLedgerEntry) == "fork_setLedgerEntry"@,
        method_text(Method::SetStorage) == "fork_setStorage"@,
        method_text(Method::SetCode) == "fork_setCode"@,
        method_text(Method::SetBalance) == "fork_setBalance"@,
        method_text(Method::Etch) == "fork_etch"@,
        method_text(Method::CloseLedgers) == "fork_closeLedgers"@,
{
}

/// An answer holds a result or an error, never both and never neither.
pub proof fn law_answers_hold_one_thing<T>(outcome: Result<T, JsonRpcError>, r: JsonRpcResponse<T>)
    requires
        call_ensures(JsonRpcResponse::<T>::of, (outcome,), r),
    ensures
        outcome matches Ok(v) ==> r.result == Some(v) && r.error is None,
        outcome matches Err(e) ==> r.result is None && r.error == Some(e),
        r.jsonrpc@ == "2.0"@,
{
}

/// Only requests of the version that the server speaks are taken.
pub proof fn law_other_versions_are_refused(version: &str, r: Result<(), String>)
    requires
        call_ensures(check_version, (version,), r),
    ensures
        r is Ok <==> version@ == "2.0"@,
{
}

} // verus!

use base64::engine::general_purpose::STANDARD;
use base64::Engine;
use sha2::Digest;
use soroban_env_host::xdr;
use soroban_env_host::xdr::{Limits, ReadXdr, WriteXdr};

use soroban_fork::codec::{Durability, TrustLineAsset};
use soroban_fork::fees::{empty_soroban_resources, FeeConfiguration, SorobanResources};
use soroban_fork::fork::ForkConfig;
use soroban_fork::ledger::{
    decode_entry, encode_entry, new_account, new_trustline, LedgerEntry, LedgerEntryData, LedgerKey,
};
use soroban_fork::rpc::{LatestLedger, NetworkMetadata};
use soroban_fork::server::actor::{
    simulate_transaction, Command, FeeStep, HostOutcome, LedgerEntriesReply, Reply, SimulationReply,
    WorkStep, Worker,
};
use soroban_fork::server::handlers::{
    encode_simulation_reply, handle_get_ledger_entries, hex_lower, parse_hex32, plan_token_change,
    resume, start, Pending, Progress, Request, Response, TokenPlan,
};
use soroban_fork::server::types::{
    check_version, dispatch, AssetWire, CloseLedgersParams, EtchParams, GetLedgerEntriesParams,
    GetTransactionParams, JsonRpcError, JsonRpcResponse, Method, SendTransactionParams,
    SetBalanceParams, SetCodeParams, SetLedgerEntryParams, SetStorageParams, SimulateTransactionParams,
    StorageDurability,
};
use soroban_fork::source::{LedgerEntryChange, LedgerRow};

fn b64(bytes: &[u8]) -> String {
    STANDARD.encode(bytes)
}

fn to_b64<T: WriteXdr>(v: &T) -> String {
    b64(&v.to_xdr(Limits::none()).unwrap())
}

fn from_b64<T: ReadXdr>(s: &str) -> T {
    T::from_xdr(STANDARD.decode(s).unwrap(), Limits::none()).unwrap()
}

fn worker() -> Worker {
    let latest = LatestLedger { sequence: 1_000, protocol_version: 25, close_time: 5_000 };
    let network = NetworkMetadata::from_passphrase("Test Network".to_string());
    let env = ForkConfig::new("https://example.test")
        .test_account_count(1)
        .build(&vec![], latest, Some(network))
        .expect("build");
    Worker::new(env)
}

/// What the host does with a call in these tests.
type Host<'a> = &'a dyn Fn(&[u8]) -> HostOutcome;

fn recorded(result: Result<xdr::ScVal, &str>, changes: Vec<LedgerEntryChange>) -> HostOutcome {
    HostOutcome::Recorded {
        invoke_result: match result {
            Ok(v) => Ok(v.to_xdr(Limits::none()).unwrap()),
            Err(e) => Err(e.to_string()),
        },
        auth: vec![],
        resources: empty_soroban_resources(),
        contract_events: vec![],
        changes,
    }
}

fn carry_out(w: &mut Worker, command: Command, host: Host) -> Reply {
    loop {
        match w.step(&command) {
            WorkStep::Done(reply) => return reply,
            WorkStep::Fetch(key) => {
                let n = w.env_mut().snapshot_source_mut().begin_fetch();
                let got = w.env_mut().snapshot_source_mut().finish_fetch(&key, n, Ok(None));
                assert_eq!(got, Ok(None));
            }
            WorkStep::Run => match &command {
                Command::SimulateTransaction { host_function, transaction_size_bytes, .. } => {
                    let latest = w.env().ledger_sequence();
                    return Reply::Simulation(simulate_transaction(
                        host(host_function),
                        vec![],
                        latest,
                        Some(9),
                        None,
                        *transaction_size_bytes,
                    ));
                }
                Command::SendTransaction { envelope_bytes, host_function, source_account } => {
                    let outcome = host(host_function);
                    return match w.send_transaction(envelope_bytes, source_account, outcome) {
                        Ok(sent) => Reply::Sent(sent),
                        Err(e) => Reply::Failed(e.to_text()),
                    };
                }
                other => panic!("{other:?} runs no host function"),
            },
        }
    }
}

fn ask_host(w: &mut Worker, request: Request, host: Host) -> Result<Response, JsonRpcError> {
    let mut progress = start(request);
    let mut rounds = 0;
    loop {
        match progress {
            Progress::Done(r) => return r,
            Progress::Ask { command, then } => {
                rounds += 1;
                assert!(rounds <= 4);
                let reply = carry_out(w, command, host);
                progress = resume(then, reply);
            }
        }
    }
}

fn ask(w: &mut Worker, request: Request) -> Result<Response, JsonRpcError> {
    ask_host(w, request, &|_| panic!("nothing is run here"))
}

fn refused(r: Result<Response, JsonRpcError>, message: &str) {
    let e = r.expect_err("refused");
    assert_eq!(e.code, -32602);
    assert_eq!(e.message, message);
}

fn broken(r: Result<Response, JsonRpcError>, message: &str) {
    let e = r.expect_err("broken");
    assert_eq!(e.code, -32603);
    assert_eq!(e.message, message);
}

const ACCOUNT: [u8; 32] = [7u8; 32];
const CONTRACT: [u8; 32] = [8u8; 32];

fn account_strkey() -> String {
    stellar_strkey::ed25519::PublicKey(ACCOUNT).to_string().as_str().to_string()
}

fn contract_strkey() -> String {
    stellar_strkey::Contract(CONTRACT).to_string().as_str().to_string()
}

fn muxed(key: [u8; 32]) -> xdr::MuxedAccount {
    xdr::MuxedAccount::Ed25519(xdr::Uint256(key))
}

fn account_id(key: [u8; 32]) -> xdr::AccountId {
    xdr::AccountId(xdr::PublicKey::PublicKeyTypeEd25519(xdr::Uint256(key)))
}

fn call(function: &str, args: Vec<xdr::ScVal>) -> xdr::HostFunction {
    xdr::HostFunction::InvokeContract(xdr::InvokeContractArgs {
        contract_address: xdr::ScAddress::Contract(xdr::ContractId(xdr::Hash(CONTRACT))),
        function_name: xdr::ScSymbol(function.try_into().unwrap()),
        args: args.try_into().unwrap(),
    })
}

fn invoke(function: xdr::HostFunction) -> xdr::OperationBody {
    xdr::OperationBody::InvokeHostFunction(xdr::InvokeHostFunctionOp {
        host_function: function,
        auth: vec![].try_into().unwrap(),
    })
}

fn transaction(source: xdr::MuxedAccount, operations: Vec<xdr::Operation>) -> xdr::Transaction {
    xdr::Transaction {
        source_account: source,
        fee: 100,
        seq_num: xdr::SequenceNumber(1),
        cond: xdr::Preconditions::None,
        memo: xdr::Memo::None,
        operations: operations.try_into().unwrap(),
        ext: xdr::TransactionExt::V0,
    }
}

fn envelope(tx: xdr::Transaction) -> xdr::TransactionEnvelope {
    xdr::TransactionEnvelope::Tx(xdr::TransactionV1Envelope { tx, signatures: vec![].try_into().unwrap() })
}

fn op(source_account: Option<xdr::MuxedAccount>, body: xdr::OperationBody) -> xdr::Operation {
    xdr::Operation { source_account, body }
}

fn call_envelope() -> xdr::TransactionEnvelope {
    envelope(transaction(muxed(ACCOUNT), vec![op(None, invoke(call("decimals", vec![])))]))
}

// ---------------------------------------------------------------------------
// Envelope
// ---------------------------------------------------------------------------

#[test]
fn every_method_is_found_by_its_name() {
    let names = [
        "getHealth",
        "getVersionInfo",
        "getNetwork",
        "getLatestLedger",
        "getLedgers",
        "getLedgerEntries",
        "simulateTransaction",
        "sendTransaction",
        "getTransaction",
        "fork_setLedgerEntry",
        "fork_setStorage",
        "fork_setCode",
        "fork_setBalance",
        "fork_etch",
        "fork_closeLedgers",
    ];
    for name in names {
        assert_eq!(dispatch(name).unwrap().name(), name);
    }
    assert_eq!(dispatch("fork_etch"), Ok(Method::Etch));
}

#[test]
fn unknown_methods_are_not_found() {
    let e = dispatch("anvil_mine").expect_err("unknown");
    assert_eq!(e.code, -32601);
    assert_eq!(e.message, "method not found: anvil_mine");
    assert!(dispatch("gethealth").is_err());
    assert!(dispatch("").is_err());
}

#[test]
fn only_one_version_is_spoken() {
    assert_eq!(check_version("2.0"), Ok(()));
    assert_eq!(check_version("1.0"), Err("unsupported jsonrpc version: 1.0".to_string()));
    assert!(check_version("").is_err());
}

#[test]
fn responses_carry_a_result_or_an_error() {
    let ok = JsonRpcResponse::of(Ok(5));
    assert_eq!((ok.jsonrpc, ok.result, ok.error), ("2.0", Some(5), None));
    let err = JsonRpcResponse::<u8>::of(Err(Method::Etch.params_error("bad shape")));
    assert_eq!(err.result, None);
    assert_eq!(
        err.error,
        Some(JsonRpcError { code: -32602, message: "fork_etch params: bad shape".to_string() })
    );
}

#[test]
fn hashes_read_back() {
    let mut hash = [0u8; 32];
    for (i, b) in hash.iter_mut().enumerate() {
        *b = (i * 37 + 11) as u8;
    }
    let text = hex_lower(&hash);
    assert_eq!(text.len(), 64);
    assert_eq!(parse_hex32(&text), Some(hash));
    assert_eq!(parse_hex32(&text.to_uppercase()), Some(hash));
    assert_eq!(parse_hex32(&text[1..]), None);
    assert_eq!(parse_hex32(&format!("g{}", &text[1..])), None);
    assert_eq!(parse_hex32(&format!("{}\u{e9}", &text[2..])), None);
}

// ---------------------------------------------------------------------------
// Telling about the fork
// ---------------------------------------------------------------------------

#[test]
fn basic_metadata_is_served() {
    let mut w = worker();
    match ask(&mut w, Request::GetHealth).unwrap() {
        Response::Health(h) => {
            assert_eq!(h.status, "healthy");
            assert_eq!((h.latest_ledger, h.oldest_ledger, h.ledger_retention_window), (1_000, 1_000, 0));
        }
        other => panic!("got {other:?}"),
    }
    match ask(&mut w, Request::GetVersionInfo { version: "9.9.9".to_string() }).unwrap() {
        Response::VersionInfo(v) => {
            assert_eq!(v.version, "9.9.9");
            assert_eq!((v.commit_hash, v.build_timestamp), ("unknown", "unknown"));
            assert_eq!(v.captive_core_version, "n/a (forked-RPC mode)");
            assert_eq!(v.protocol_version, 25);
        }
        other => panic!("got {other:?}"),
    }
    match ask(&mut w, Request::GetNetwork).unwrap() {
        Response::Network(n) => {
            assert_eq!(n.passphrase, "Test Network");
            let id: [u8; 32] = sha2::Sha256::digest(b"Test Network").into();
            assert_eq!(n.network_id, hex_lower(&id));
            assert_eq!(n.protocol_version, 25);
            assert_eq!(n.friendbot_url, None);
        }
        other => panic!("got {other:?}"),
    }
    match ask(&mut w, Request::GetLatestLedger).unwrap() {
        Response::LatestLedger(l) => {
            assert_eq!(l.id, "forked-ledger-1000");
            assert_eq!((l.sequence, l.protocol_version), (1_000, 25));
        }
        other => panic!("got {other:?}"),
    }
    match ask(&mut w, Request::GetLedgers).unwrap() {
        Response::Ledgers(l) => {
            assert_eq!(l.ledgers.len(), 1);
            assert_eq!(l.ledgers[0].hash, "forked-ledger-hash-1000");
            assert_eq!(l.ledgers[0].ledger_close_time, "5000");
            assert_eq!((l.latest_ledger, l.oldest_ledger), (1_000, 1_000));
            assert_eq!(l.cursor, "");
        }
        other => panic!("got {other:?}"),
    }
}

#[test]
fn a_network_without_passphrase_gets_a_label() {
    let latest = LatestLedger { sequence: 1, protocol_version: 25, close_time: 1 };
    let env = ForkConfig::new("u").network_id([3u8; 32]).build(&vec![], latest, None).unwrap();
    match ask(&mut Worker::new(env), Request::GetNetwork).unwrap() {
        Response::Network(n) => {
            assert_eq!(n.passphrase, "Forked Soroban Network (custom network_id)");
            assert_eq!(n.network_id, "03".repeat(32));
        }
        other => panic!("got {other:?}"),
    }
}

#[test]
fn ledgers_close_and_the_clock_tells() {
    let mut w = worker();
    let close = |ledgers, seconds| {
        Request::CloseLedgers(CloseLedgersParams { ledgers, timestamp_advance_seconds: seconds })
    };
    match ask(&mut w, close(None, None)).unwrap() {
        Response::Closed(c) => assert_eq!((c.new_sequence, c.new_close_time.as_str()), (1_001, "5005")),
        other => panic!("got {other:?}"),
    }
    match ask(&mut w, close(Some(10), None)).unwrap() {
        Response::Closed(c) => assert_eq!((c.new_sequence, c.new_close_time.as_str()), (1_011, "5055")),
        other => panic!("got {other:?}"),
    }
    match ask(&mut w, close(Some(0), Some(1))).unwrap() {
        Response::Closed(c) => assert_eq!((c.new_sequence, c.new_close_time.as_str()), (1_011, "5056")),
        other => panic!("got {other:?}"),
    }
    match ask(&mut w, close(Some(u32::MAX), None)).unwrap() {
        Response::Closed(c) => assert_eq!(c.new_sequence, u32::MAX),
        other => panic!("got {other:?}"),
    }
}

// ---------------------------------------------------------------------------
// Entries
// ---------------------------------------------------------------------------

fn entries(w: &mut Worker, keys: Vec<String>) -> Vec<(String, String, u32, Option<u32>)> {
    match ask(w, Request::GetLedgerEntries(GetLedgerEntriesParams { keys })).unwrap() {
        Response::LedgerEntries(b) => b
            .entries
            .into_iter()
            .map(|e| (e.key, e.xdr, e.last_modified_ledger_seq, e.live_until_ledger_seq))
            .collect(),
        other => panic!("got {other:?}"),
    }
}

#[test]
fn entries_that_exist_are_shown_in_order() {
    let mut w = worker();
    let funded = w.env().test_accounts()[0].public_key;
    let first = b64(LedgerKey::account(&funded).as_xdr());
    let absent = b64(LedgerKey::account(&[99u8; 32]).as_xdr());
    let asset = soroban_fork::test_accounts::usdc_mainnet_trustline_asset().unwrap();
    let second = b64(LedgerKey::trustline(&funded, &asset).as_xdr());
    let found = entries(&mut w, vec![second.clone(), absent, first.clone()]);
    assert_eq!(found.len(), 2);
    assert_eq!(found[0].0, second);
    assert_eq!(found[1].0, first);
    assert_eq!(found[1].2, 1_000);
    match from_b64::<xdr::LedgerEntryData>(&found[1].1) {
        xdr::LedgerEntryData::Account(a) => assert_eq!(a.balance, 1_000_000_000_000),
        other => panic!("got {other:?}"),
    }
    assert_eq!(w.env().fetch_count(), 1);
}

#[test]
fn keys_that_make_no_sense_are_refused() {
    let mut w = worker();
    let get = |keys: Vec<&str>| {
        Request::GetLedgerEntries(GetLedgerEntriesParams {
            keys: keys.into_iter().map(|k| k.to_string()).collect(),
        })
    };
    refused(ask(&mut w, get(vec![])), "getLedgerEntries: keys array must be non-empty");
    let good = b64(LedgerKey::account(&[1u8; 32]).as_xdr());
    let base64_error = STANDARD.decode("?").unwrap_err();
    refused(ask(&mut w, get(vec![&good, "?"])), &format!("keys[1]: base64 decode: {base64_error}"));
    let xdr_error = xdr::LedgerKey::from_xdr([1, 2, 3], Limits::none()).unwrap_err();
    refused(
        ask(&mut w, get(vec![&b64(&[1, 2, 3]), "?"])),
        &format!("keys[0]: XDR decode: {xdr_error}"),
    );
}

#[test]
fn entries_that_cannot_be_encoded_are_reported() {
    let mut entry = new_account(&ACCOUNT, 1, 1);
    if let LedgerEntryData::Account(a) = &mut entry.data {
        a.ext = vec![9];
    }
    let row = LedgerRow { key: LedgerKey::account(&ACCOUNT), entry, live_until: None };
    let reply = LedgerEntriesReply { entries: vec![None, Some(row)], latest_ledger: 1 };
    let e = handle_get_ledger_entries(&reply).expect_err("malformed");
    assert_eq!(e.code, -32603);
    assert_eq!(e.message, "encode response LedgerEntryData: entry data has a malformed part");
}

#[test]
fn an_entry_that_was_set_reads_back() {
    let mut w = worker();
    let key = LedgerKey::account(&ACCOUNT);
    let params = || SetLedgerEntryParams {
        key: b64(key.as_xdr()),
        entry: b64(&encode_entry(&new_account(&ACCOUNT, 77, 3)).unwrap()),
        live_until_ledger_seq: Some(5_555),
    };
    match ask(&mut w, Request::SetLedgerEntry(params())).unwrap() {
        Response::EntrySet(b) => assert_eq!((b.ok, b.latest_ledger), (true, 1_000)),
        other => panic!("got {other:?}"),
    }
    let found = entries(&mut w, vec![b64(key.as_xdr())]);
    assert_eq!(found[0].3, Some(5_555));
    match from_b64::<xdr::LedgerEntryData>(&found[0].1) {
        xdr::LedgerEntryData::Account(a) => assert_eq!(a.balance, 77),
        other => panic!("got {other:?}"),
    }
    let mut bad = params();
    bad.entry = b64(&[0]);
    let xdr_error = xdr::LedgerEntry::from_xdr([0], Limits::none()).unwrap_err();
    refused(ask(&mut w, Request::SetLedgerEntry(bad)), &format!("entry: XDR decode: {xdr_error}"));
    let mut bad = params();
    bad.key = "!".to_string();
    let base64_error = STANDARD.decode("!").unwrap_err();
    refused(ask(&mut w, Request::SetLedgerEntry(bad)), &format!("key: base64 decode: {base64_error}"));
}

#[test]
fn a_stored_value_reads_back() {
    let mut w = worker();
    let params = || SetStorageParams {
        contract: contract_strkey(),
        key: to_b64(&xdr::ScVal::U32(5)),
        value: to_b64(&xdr::ScVal::Bool(true)),
        durability: None,
        live_until_ledger_seq: Some(999_999_999),
    };
    match ask(&mut w, Request::SetStorage(params())).unwrap() {
        Response::EntrySet(b) => assert!(b.ok),
        other => panic!("got {other:?}"),
    }
    let key = |durability| {
        to_b64(&xdr::LedgerKey::ContractData(xdr::LedgerKeyContractData {
            contract: xdr::ScAddress::Contract(xdr::ContractId(xdr::Hash(CONTRACT))),
            key: xdr::ScVal::U32(5),
            durability,
        }))
    };
    let found = entries(&mut w, vec![key(xdr::ContractDataDurability::Persistent)]);
    assert_eq!((found[0].2, found[0].3), (0, Some(999_999_999)));
    match from_b64::<xdr::LedgerEntryData>(&found[0].1) {
        xdr::LedgerEntryData::ContractData(c) => {
            assert_eq!(c.key, xdr::ScVal::U32(5));
            assert_eq!(c.val, xdr::ScVal::Bool(true));
            assert_eq!(c.durability, xdr::ContractDataDurability::Persistent);
        }
        other => panic!("got {other:?}"),
    }
    let mut temporary = params();
    temporary.durability = Some(StorageDurability::Temporary);
    ask(&mut w, Request::SetStorage(temporary)).unwrap();
    assert_eq!(entries(&mut w, vec![key(xdr::ContractDataDurability::Temporary)]).len(), 1);

    let mut bad = params();
    bad.contract = account_strkey();
    refused(
        ask(&mut w, Request::SetStorage(bad)),
        "contract: not a valid C... strkey: the strkey is invalid",
    );
    let xdr_error = xdr::ScVal::from_xdr([1], Limits::none()).unwrap_err();
    let mut bad = params();
    bad.value = b64(&[1]);
    refused(ask(&mut w, Request::SetStorage(bad)), &format!("value: ScVal XDR decode: {xdr_error}"));
    let mut bad = params();
    bad.key = b64(&[1]);
    refused(ask(&mut w, Request::SetStorage(bad)), &format!("key: ScVal XDR decode: {xdr_error}"));
}

#[test]
fn code_is_written_under_its_own_hash() {
    let mut w = worker();
    let wasm = b"\0asm not really";
    let params = SetCodeParams { wasm: b64(wasm), live_until_ledger_seq: Some(42) };
    let hash: [u8; 32] = sha2::Sha256::digest(wasm).into();
    match ask(&mut w, Request::SetCode(params)).unwrap() {
        Response::CodeSet(b) => assert_eq!((b.ok, b.hash, b.latest_ledger), (true, hex_lower(&hash), 1_000)),
        other => panic!("got {other:?}"),
    }
    let found = entries(&mut w, vec![b64(LedgerKey::contract_code(&hash).as_xdr())]);
    assert_eq!(found[0].3, Some(42));
    match from_b64::<xdr::LedgerEntryData>(&found[0].1) {
        xdr::LedgerEntryData::ContractCode(c) => {
            assert_eq!(c.hash.0, hash);
            assert_eq!(c.code.as_slice(), wasm);
        }
        other => panic!("got {other:?}"),
    }
    let base64_error = STANDARD.decode("*").unwrap_err();
    let bad = SetCodeParams { wasm: "*".to_string(), live_until_ledger_seq: None };
    refused(ask(&mut w, Request::SetCode(bad)), &format!("wasm: base64 decode: {base64_error}"));
}

// ---------------------------------------------------------------------------
// Etching
// ---------------------------------------------------------------------------

fn instance_key() -> LedgerKey {
    let scval = xdr::ScVal::LedgerKeyContractInstance.to_xdr(Limits::none()).unwrap();
    LedgerKey::contract_data(&CONTRACT, &scval, Durability::Persistent).unwrap()
}

fn set_instance(w: &mut Worker, val: xdr::ScVal) {
    let entry = xdr::LedgerEntry {
        last_modified_ledger_seq: 3,
        data: xdr::LedgerEntryData::ContractData(xdr::ContractDataEntry {
            ext: xdr::ExtensionPoint::V0,
            contract: xdr::ScAddress::Contract(xdr::ContractId(xdr::Hash(CONTRACT))),
            key: xdr::ScVal::LedgerKeyContractInstance,
            durability: xdr::ContractDataDurability::Persistent,
            val,
        }),
        ext: xdr::LedgerEntryExt::V0,
    };
    let entry = decode_entry(&entry.to_xdr(Limits::none()).unwrap()).unwrap();
    w.set_ledger_entry(&instance_key(), &entry, None).unwrap();
}

fn etch(w: &mut Worker) -> Result<Response, JsonRpcError> {
    ask(
        w,
        Request::Etch(EtchParams {
            contract: contract_strkey(),
            wasm: b64(b"new code"),
            live_until_ledger_seq: Some(70),
        }),
    )
}

fn instance(w: &mut Worker) -> xdr::ScContractInstance {
    let found = entries(w, vec![b64(instance_key().as_xdr())]);
    assert_eq!((found[0].2, found[0].3), (0, Some(70)));
    match from_b64::<xdr::LedgerEntryData>(&found[0].1) {
        xdr::LedgerEntryData::ContractData(c) => match c.val {
            xdr::ScVal::ContractInstance(i) => i,
            other => panic!("got {other:?}"),
        },
        other => panic!("got {other:?}"),
    }
}

#[test]
fn etching_keeps_the_storage_of_a_contract() {
    let mut w = worker();
    let storage = xdr::ScMap(
        vec![xdr::ScMapEntry { key: xdr::ScVal::U32(1), val: xdr::ScVal::Bool(true) }]
            .try_into()
            .unwrap(),
    );
    set_instance(
        &mut w,
        xdr::ScVal::ContractInstance(xdr::ScContractInstance {
            executable: xdr::ContractExecutable::StellarAsset,
            storage: Some(storage.clone()),
        }),
    );
    let hash: [u8; 32] = sha2::Sha256::digest(b"new code").into();
    match etch(&mut w).unwrap() {
        Response::CodeSet(b) => assert_eq!(b.hash, hex_lower(&hash)),
        other => panic!("got {other:?}"),
    }
    let now = instance(&mut w);
    assert_eq!(now.executable, xdr::ContractExecutable::Wasm(xdr::Hash(hash)));
    assert_eq!(now.storage, Some(storage));
    assert_eq!(entries(&mut w, vec![b64(LedgerKey::contract_code(&hash).as_xdr())]).len(), 1);
}

#[test]
fn etching_creates_a_contract_that_is_not_there() {
    let mut w = worker();
    etch(&mut w).unwrap();
    assert_eq!(instance(&mut w).storage, None);
}

#[test]
fn etching_overwrites_nothing_else() {
    let mut w = worker();
    set_instance(&mut w, xdr::ScVal::U32(9));
    broken(
        etch(&mut w),
        "instance entry's val is not ContractInstance: U32(9) (host invariant violation; refusing to overwrite)",
    );
    let account = new_account(&ACCOUNT, 1, 1);
    w.set_ledger_entry(&instance_key(), &account, None).unwrap();
    broken(
        etch(&mut w),
        &format!("instance LedgerKey resolved to non-ContractData entry: {}", account.data.to_text()),
    );
}

// ---------------------------------------------------------------------------
// Balances
// ---------------------------------------------------------------------------

fn set_balance(w: &mut Worker, amount: &str, asset: Option<AssetWire>) -> Result<Response, JsonRpcError> {
    let params =
        SetBalanceParams { account: account_strkey(), amount: amount.to_string(), asset };
    ask(w, Request::SetBalance(params))
}

fn entry_under(w: &mut Worker, key: &LedgerKey) -> LedgerEntry {
    match carry_out(w, Command::GetLedgerEntries { keys: vec![key.copied()] }, &|_| panic!("no host")) {
        Reply::LedgerEntries(mut e) => e.entries.remove(0).expect("present").entry,
        other => panic!("got {other:?}"),
    }
}

fn credit() -> Option<AssetWire> {
    let issuer = stellar_strkey::ed25519::PublicKey([9u8; 32]).to_string().as_str().to_string();
    Some(AssetWire::Credit { code: "USDC".to_string(), issuer })
}

#[test]
fn a_native_balance_is_set_and_nothing_else_of_the_account() {
    let mut w = worker();
    match set_balance(&mut w, "500", None).unwrap() {
        Response::BalanceSet(b) => assert_eq!((b.ok, b.latest_ledger), (true, 1_000)),
        other => panic!("got {other:?}"),
    }
    let key = LedgerKey::account(&ACCOUNT);
    assert_eq!(entry_under(&mut w, &key), new_account(&ACCOUNT, 500, 1_000));

    let mut special = new_account(&ACCOUNT, 1, 7);
    if let LedgerEntryData::Account(a) = &mut special.data {
        a.seq_num = 123;
        a.flags = 2;
        a.num_sub_entries = 4;
        a.thresholds = [9, 8, 7, 6];
        a.inflation_dest = Some([5u8; 32]);
    }
    w.set_ledger_entry(&key, &special, None).unwrap();
    set_balance(&mut w, "600", Some(AssetWire::Native)).unwrap();
    special.last_modified_ledger_seq = 1_000;
    if let LedgerEntryData::Account(a) = &mut special.data {
        a.balance = 600;
    }
    assert_eq!(entry_under(&mut w, &key), special);
}

#[test]
fn a_credit_balance_is_set_and_nothing_else_of_the_trustline() {
    let mut w = worker();
    let asset = TrustLineAsset::CreditAlphanum4 { code: *b"USDC", issuer: [9u8; 32] };
    let key = LedgerKey::trustline(&ACCOUNT, &asset);
    set_balance(&mut w, "500", credit()).unwrap();
    assert_eq!(entry_under(&mut w, &key), new_trustline(&ACCOUNT, &asset, 500, 1_000));

    let mut special = new_trustline(&ACCOUNT, &asset, 1, 7);
    if let LedgerEntryData::Trustline(t) = &mut special.data {
        t.limit = 44;
        t.flags = 0;
    }
    w.set_ledger_entry(&key, &special, None).unwrap();
    set_balance(&mut w, "+9", credit()).unwrap();
    special.last_modified_ledger_seq = 1_000;
    if let LedgerEntryData::Trustline(t) = &mut special.data {
        t.balance = 9;
    }
    assert_eq!(entry_under(&mut w, &key), special);
}

#[test]
fn asset_codes_are_short_or_long() {
    let mut w = worker();
    let with_code = |code: &str| match credit() {
        Some(AssetWire::Credit { issuer, .. }) => {
            Some(AssetWire::Credit { code: code.to_string(), issuer })
        }
        other => other,
    };
    set_balance(&mut w, "1", with_code("A")).unwrap();
    let asset = TrustLineAsset::CreditAlphanum4 { code: *b"A\0\0\0", issuer: [9u8; 32] };
    entry_under(&mut w, &LedgerKey::trustline(&ACCOUNT, &asset));
    set_balance(&mut w, "1", with_code("TWELVECODEXY")).unwrap();
    let asset = TrustLineAsset::CreditAlphanum12 { code: *b"TWELVECODEXY", issuer: [9u8; 32] };
    entry_under(&mut w, &LedgerKey::trustline(&ACCOUNT, &asset));
    refused(set_balance(&mut w, "1", with_code("")), "asset.code: must be 1-12 chars, got empty");
    refused(
        set_balance(&mut w, "1", with_code("THIRTEENCHARS")),
        "asset.code: must be 1-12 chars, got 13",
    );
    let bad = Some(AssetWire::Credit { code: "A".to_string(), issuer: "G".to_string() });
    refused(
        set_balance(&mut w, "1", bad),
        "asset.issuer: not a valid G... strkey: the strkey is invalid",
    );
}

#[test]
fn amounts_that_make_no_sense_are_refused() {
    let mut w = worker();
    let e = "x1".parse::<i64>().unwrap_err();
    refused(
        set_balance(&mut w, "x1", None),
        &format!("amount: not a valid i64 decimal string ({e}): \"x1\""),
    );
    let big = "9223372036854775808";
    let e = big.parse::<i64>().unwrap_err();
    refused(
        set_balance(&mut w, big, None),
        &format!("amount: not a valid i64 decimal string ({e}): {big:?}"),
    );
    refused(set_balance(&mut w, "-5", credit()), "amount: must be >= 0, got -5");
    let params = SetBalanceParams { account: "nobody".to_string(), amount: "1".to_string(), asset: None };
    refused(
        ask(&mut w, Request::SetBalance(params)),
        "account: not a valid G... strkey: the strkey is invalid",
    );
}

#[test]
fn a_misplaced_entry_is_not_overwritten() {
    let mut w = worker();
    let line = new_trustline(&ACCOUNT, &TrustLineAsset::Native, 1, 1);
    w.set_ledger_entry(&LedgerKey::account(&ACCOUNT), &line, None).unwrap();
    broken(
        set_balance(&mut w, "1", None),
        &format!(
            "expected Account entry under Account key, got {} (cache corruption or LedgerKey/LedgerEntry shape mismatch)",
            line.data.to_text()
        ),
    );
    let asset = TrustLineAsset::CreditAlphanum4 { code: *b"USDC", issuer: [9u8; 32] };
    let account = new_account(&ACCOUNT, 1, 1);
    w.set_ledger_entry(&LedgerKey::trustline(&ACCOUNT, &asset), &account, None).unwrap();
    broken(
        set_balance(&mut w, "1", credit()),
        &format!(
            "expected Trustline entry under Trustline key, got {} (cache corruption or LedgerKey/LedgerEntry shape mismatch)",
            account.data.to_text()
        ),
    );
}

fn i128_scval(n: i128) -> xdr::ScVal {
    xdr::ScVal::I128(xdr::Int128Parts { hi: (n >> 64) as i64, lo: n as u64 })
}

fn account_scval() -> xdr::ScVal {
    xdr::ScVal::Address(xdr::ScAddress::Account(account_id(ACCOUNT)))
}

fn set_token(w: &mut Worker, amount: &str, host: Host) -> Result<Response, JsonRpcError> {
    let params = SetBalanceParams {
        account: account_strkey(),
        amount: amount.to_string(),
        asset: Some(AssetWire::Contract { contract: contract_strkey() }),
    };
    ask_host(w, Request::SetBalance(params), host)
}

#[test]
fn a_token_balance_is_minted_or_burnt_to_the_target() {
    for (current, target, function, change) in
        [(5i128, 12i128, "mint", 7i128), (12, 5, "burn", 7), (0, i128::MAX, "mint", i128::MAX)]
    {
        let mut w = worker();
        let seen = std::cell::RefCell::new(Vec::new());
        let host = |f: &[u8]| {
            seen.borrow_mut().push(f.to_vec());
            if seen.borrow().len() == 1 {
                recorded(Ok(i128_scval(current)), vec![])
            } else {
                recorded(Ok(xdr::ScVal::Void), vec![])
            }
        };
        match set_token(&mut w, &target.to_string(), &host).unwrap() {
            Response::BalanceSet(b) => assert_eq!((b.ok, b.latest_ledger), (true, 1_000)),
            other => panic!("got {other:?}"),
        }
        let seen = seen.into_inner();
        assert_eq!(seen.len(), 2);
        assert_eq!(seen[0], call("balance", vec![account_scval()]).to_xdr(Limits::none()).unwrap());
        let changed = call(function, vec![account_scval(), i128_scval(change)]);
        assert_eq!(seen[1], changed.to_xdr(Limits::none()).unwrap());

        let mut tx = transaction(muxed([0u8; 32]), vec![op(None, invoke(changed))]);
        tx.fee = 0;
        tx.seq_num = xdr::SequenceNumber(0);
        let hash = envelope(tx).hash(w.env().network_id()).unwrap();
        let get = GetTransactionParams { hash: hex_lower(&hash) };
        match ask(&mut w, Request::GetTransaction(get)).unwrap() {
            Response::Transaction(t) => assert_eq!(t.status, "SUCCESS"),
            other => panic!("got {other:?}"),
        }
    }
}

#[test]
fn a_token_balance_at_its_target_needs_no_call() {
    let mut w = worker();
    let calls = std::cell::Cell::new(0);
    let host = |_: &[u8]| {
        calls.set(calls.get() + 1);
        recorded(Ok(i128_scval(8)), vec![])
    };
    assert!(matches!(set_token(&mut w, "8", &host), Ok(Response::BalanceSet(_))));
    assert_eq!(calls.get(), 1);
}

#[test]
fn tokens_that_are_none_are_refused() {
    let mut w = worker();
    let small = |_: &[u8]| recorded(Ok(xdr::ScVal::U64(3)), vec![]);
    refused(
        set_token(&mut w, "8", &small),
        "asset.contract: token's balance() returned a non-i128 ScVal \u{2014} not a SEP-41-shaped token. Got: Ok(U64(3))",
    );
    let other = |_: &[u8]| recorded(Ok(xdr::ScVal::Void), vec![]);
    refused(
        set_token(&mut w, "8", &other),
        "asset.contract: token's balance() returned unexpected ScVal type: Void",
    );
    let failing = |_: &[u8]| recorded(Err("no such contract"), vec![]);
    refused(
        set_token(&mut w, "8", &failing),
        "asset.contract: token's balance() simulation failed: host error: no such contract. Is the contract a SEP-41-shaped token? Does the account exist?",
    );
    let deep = |_: &[u8]| recorded(Ok(i128_scval(i128::MIN)), vec![]);
    refused(set_token(&mut w, "8", &deep), "amount: delta does not fit in an i128");
    let e = "1.5".parse::<i128>().unwrap_err();
    refused(
        set_token(&mut w, "1.5", &other),
        &format!("amount: not a valid i128 decimal string ({e}): \"1.5\""),
    );
    refused(set_token(&mut w, "-1", &other), "amount: must be >= 0, got -1");
    let params = SetBalanceParams {
        account: account_strkey(),
        amount: "1".to_string(),
        asset: Some(AssetWire::Contract { contract: "C".to_string() }),
    };
    refused(
        ask(&mut w, Request::SetBalance(params)),
        "asset.contract: not a valid C... strkey: the strkey is invalid",
    );
}

#[test]
fn a_token_that_refuses_the_change_is_reported() {
    let mut w = worker();
    let calls = std::cell::Cell::new(0);
    let host = |_: &[u8]| {
        calls.set(calls.get() + 1);
        if calls.get() == 1 {
            recorded(Ok(i128_scval(10)), vec![])
        } else {
            recorded(Err("no burn"), vec![])
        }
    };
    refused(
        set_token(&mut w, "4", &host),
        "token burn(-6) failed: host error: no burn. Is the contract SEP-41-shaped with public mint/burn? Trust-mode auth bypasses admin checks but the function must still exist and accept (Address, i128).",
    );
}

#[test]
fn a_change_of_the_least_number_is_refused() {
    let r = plan_token_change(&CONTRACT, &ACCOUNT, 0, i128::MIN);
    assert!(matches!(r, Err(e) if e.message == "amount: i128::MIN delta unreachable"));
    assert!(matches!(plan_token_change(&CONTRACT, &ACCOUNT, 3, 3), Ok(TokenPlan::Nothing)));
}

// ---------------------------------------------------------------------------
// Transactions
// ---------------------------------------------------------------------------

fn simulate(w: &mut Worker, e: &xdr::TransactionEnvelope, host: Host) -> Result<Response, JsonRpcError> {
    let params = SimulateTransactionParams { transaction: to_b64(e) };
    ask_host(w, Request::SimulateTransaction(params), host)
}

#[test]
fn a_simulation_runs_the_function_of_the_envelope() {
    let mut w = worker();
    let expected = call("decimals", vec![]).to_xdr(Limits::none()).unwrap();
    let host = |f: &[u8]| {
        assert_eq!(f, expected.as_slice());
        recorded(Ok(xdr::ScVal::U32(7)), vec![])
    };
    match simulate(&mut w, &call_envelope(), &host).unwrap() {
        Response::Simulation(b) => {
            assert_eq!(b.error, None);
            assert_eq!(b.latest_ledger, 1_000);
            let results = b.results.unwrap();
            assert_eq!(from_b64::<xdr::ScVal>(&results[0].xdr), xdr::ScVal::U32(7));
            assert!(results[0].auth.is_empty());
            assert_eq!(b.min_resource_fee, None);
            assert_eq!(b.events, Some(vec![]));
            let cost = b.cost.unwrap();
            assert_eq!((cost.cpu_insns.as_str(), cost.mem_bytes.as_str()), ("0", "9"));
            let data: xdr::SorobanTransactionData = from_b64(&b.transaction_data.unwrap());
            assert_eq!(data.resource_fee, 0);
        }
        other => panic!("got {other:?}"),
    }
}

#[test]
fn a_failed_simulation_shows_the_reason_and_nothing_else() {
    let mut w = worker();
    let host = |_: &[u8]| recorded(Err("trapped"), vec![]);
    match simulate(&mut w, &call_envelope(), &host).unwrap() {
        Response::Simulation(b) => {
            assert_eq!(b.error.as_deref(), Some("host error: trapped"));
            assert_eq!(b.latest_ledger, 1_000);
            assert!(b.transaction_data.is_none() && b.min_resource_fee.is_none());
            assert!(b.events.is_none() && b.results.is_none() && b.cost.is_none());
        }
        other => panic!("got {other:?}"),
    }
    let host = |_: &[u8]| HostOutcome::Failed("budget".to_string());
    match simulate(&mut w, &call_envelope(), &host).unwrap() {
        Response::Simulation(b) => assert_eq!(b.error.as_deref(), Some("recording-mode error: budget")),
        other => panic!("got {other:?}"),
    }
}

#[test]
fn the_account_of_an_operation_comes_first() {
    let own = [6u8; 32];
    let with_own = envelope(transaction(
        muxed(ACCOUNT),
        vec![op(
            Some(xdr::MuxedAccount::MuxedEd25519(xdr::MuxedAccountMed25519 {
                id: 5,
                ed25519: xdr::Uint256(own),
            })),
            invoke(call("f", vec![])),
        )],
    ));
    let inner = match call_envelope() {
        xdr::TransactionEnvelope::Tx(e) => e,
        other => panic!("got {other:?}"),
    };
    let bump = xdr::TransactionEnvelope::TxFeeBump(xdr::FeeBumpTransactionEnvelope {
        tx: xdr::FeeBumpTransaction {
            fee_source: muxed([1u8; 32]),
            fee: 1,
            inner_tx: xdr::FeeBumpTransactionInnerTx::Tx(inner),
            ext: xdr::FeeBumpTransactionExt::V0,
        },
        signatures: vec![].try_into().unwrap(),
    });
    for (e, account) in [(with_own, own), (call_envelope(), ACCOUNT), (bump, ACCOUNT)] {
        let size = e.to_xdr(Limits::none()).unwrap().len() as u32;
        let params = SimulateTransactionParams { transaction: to_b64(&e) };
        match start(Request::SimulateTransaction(params)) {
            Progress::Ask {
                command: Command::SimulateTransaction { source_account, transaction_size_bytes, .. },
                then: Pending::Simulation,
            } => assert_eq!((source_account, transaction_size_bytes), (account, size)),
            other => panic!("got {other:?}"),
        }
    }
}

#[test]
fn envelopes_that_call_no_contract_are_refused() {
    let mut w = worker();
    let host = |_: &[u8]| panic!("nothing is run here");
    let bump = xdr::OperationBody::BumpSequence(xdr::BumpSequenceOp { bump_to: xdr::SequenceNumber(1) });
    let text = format!("{bump:?}");
    refused(
        simulate(&mut w, &envelope(transaction(muxed(ACCOUNT), vec![op(None, bump)])), &host),
        &format!("simulateTransaction: only InvokeHostFunction operations supported, got {text}"),
    );
    refused(
        simulate(&mut w, &envelope(transaction(muxed(ACCOUNT), vec![])), &host),
        "simulateTransaction: expected exactly 1 operation, got 0",
    );
    let two = vec![op(None, invoke(call("f", vec![]))), op(None, invoke(call("g", vec![])))];
    refused(
        simulate(&mut w, &envelope(transaction(muxed(ACCOUNT), two)), &host),
        "simulateTransaction: expected exactly 1 operation, got 2",
    );
    let v0 = xdr::TransactionEnvelope::TxV0(xdr::TransactionV0Envelope {
        tx: xdr::TransactionV0 {
            source_account_ed25519: xdr::Uint256(ACCOUNT),
            fee: 1,
            seq_num: xdr::SequenceNumber(1),
            time_bounds: None,
            memo: xdr::Memo::None,
            operations: vec![].try_into().unwrap(),
            ext: xdr::TransactionV0Ext::V0,
        },
        signatures: vec![].try_into().unwrap(),
    });
    refused(
        simulate(&mut w, &v0, &host),
        "simulateTransaction: V0 transaction envelopes do not support Soroban operations",
    );
    let xdr_error = xdr::TransactionEnvelope::from_xdr([1, 2], Limits::none()).unwrap_err();
    let bad = || b64(&[1, 2]);
    refused(
        ask(&mut w, Request::SimulateTransaction(SimulateTransactionParams { transaction: bad() })),
        &format!("transaction: XDR decode: {xdr_error}"),
    );
    refused(
        ask(&mut w, Request::SendTransaction(SendTransactionParams { transaction: bad() })),
        &format!("transaction: XDR decode: {xdr_error}"),
    );
}

#[test]
fn a_simulation_on_the_wire_has_all_its_parts() {
    let event = xdr::ContractEvent {
        ext: xdr::ExtensionPoint::V0,
        contract_id: None,
        type_: xdr::ContractEventType::Contract,
        body: xdr::ContractEventBody::V0(xdr::ContractEventV0 {
            topics: vec![].try_into().unwrap(),
            data: xdr::ScVal::U32(2),
        }),
    };
    let diagnostic = xdr::DiagnosticEvent { in_successful_contract_call: false, event: event.clone() };
    let key = xdr::LedgerKey::Account(xdr::LedgerKeyAccount { account_id: account_id(ACCOUNT) });
    let key_bytes = key.to_xdr(Limits::none()).unwrap();
    let reply = || SimulationReply {
        result: Ok(xdr::ScVal::U32(1).to_xdr(Limits::none()).unwrap()),
        auth: vec![vec![1, 2, 3]],
        resources: SorobanResources {
            read_only: vec![key_bytes.clone()],
            read_write: vec![key_bytes.clone(), key_bytes.clone()],
            instructions: 44,
            disk_read_bytes: 55,
            write_bytes: 66,
        },
        contract_events: vec![event.to_xdr(Limits::none()).unwrap()],
        diagnostic_events: vec![diagnostic.to_xdr(Limits::none()).unwrap()],
        latest_ledger: 3,
        min_resource_fee: Some(-77),
        mem_bytes: None,
    };
    let body = encode_simulation_reply(&reply()).unwrap();
    let data: xdr::SorobanTransactionData = from_b64(&body.transaction_data.unwrap());
    assert_eq!(data.resource_fee, -77);
    assert_eq!(data.resources.footprint.read_only.as_slice(), &[key.clone()]);
    assert_eq!(data.resources.footprint.read_write.as_slice(), &[key.clone(), key]);
    assert_eq!(data.resources.instructions, 44);
    assert_eq!(data.resources.disk_read_bytes, 55);
    assert_eq!(data.resources.write_bytes, 66);
    assert_eq!(body.min_resource_fee.as_deref(), Some("-77"));
    let events = body.events.unwrap();
    assert_eq!(events.len(), 2);
    let wrapped = xdr::DiagnosticEvent { in_successful_contract_call: true, event: event.clone() };
    assert_eq!(events[0], to_b64(&wrapped));
    assert_eq!(events[1], to_b64(&diagnostic));
    assert_eq!(body.results.unwrap()[0].auth, vec![b64(&[1, 2, 3])]);
    assert_eq!(body.cost, None);

    let mut bad = reply();
    bad.contract_events.push(vec![0]);
    let e = encode_simulation_reply(&bad).expect_err("broken event");
    assert_eq!(e.code, -32603);
    assert!(e.message.starts_with("encode contract event: "));
    let mut bad = reply();
    bad.resources.read_only = vec![vec![0]];
    let e = encode_simulation_reply(&bad).expect_err("broken key");
    assert!(e.message.starts_with("encode SorobanTransactionData: "));
}

#[test]
fn a_fee_is_named_where_there_is_a_schedule() {
    let schedule = FeeConfiguration { fee_per_transaction_size_1kb: 1_024, ..FeeConfiguration::default() };
    let outcome = recorded(Ok(xdr::ScVal::Void), vec![]);
    let r = simulate_transaction(outcome, vec![], 3, Some(4), Some(schedule), 10);
    assert_eq!(r.min_resource_fee, Some(10));
    let r = simulate_transaction(HostOutcome::Failed("x".to_string()), vec![vec![1]], 3, None, Some(schedule), 10);
    assert_eq!((r.min_resource_fee, r.mem_bytes, r.latest_ledger), (None, None, 3));
    assert_eq!(r.diagnostic_events, vec![vec![1]]);
}

fn send(w: &mut Worker, e: &xdr::TransactionEnvelope, host: Host) -> Result<Response, JsonRpcError> {
    let params = SendTransactionParams { transaction: to_b64(e) };
    ask_host(w, Request::SendTransaction(params), host)
}

#[test]
fn a_sent_transaction_persists_and_is_found_by_its_hash() {
    let mut w = worker();
    let source = w.env().test_accounts()[0].public_key;
    let e = envelope(transaction(muxed(source), vec![op(None, invoke(call("mint", vec![])))]));
    let written = LedgerKey::account(&ACCOUNT);
    let host = |_: &[u8]| {
        recorded(
            Ok(xdr::ScVal::U32(3)),
            vec![LedgerEntryChange {
                read_only: false,
                encoded_key: LedgerKey::account(&ACCOUNT).as_xdr().to_vec(),
                encoded_new_value: Some(encode_entry(&new_account(&ACCOUNT, 31, 2)).unwrap()),
                new_live_until_ledger: None,
            }],
        )
    };
    let hash = hex_lower(&e.hash(w.env().network_id()).unwrap());
    match send(&mut w, &e, &host).unwrap() {
        Response::Sent(b) => {
            assert_eq!(b.status, "SUCCESS");
            assert_eq!(b.hash, hash);
            assert_eq!(b.applied_changes, 1);
            assert_eq!(b.error_message, None);
            assert_eq!((b.latest_ledger, b.latest_ledger_close_time.as_str()), (1_000, "5000"));
            assert_eq!(b.envelope_xdr, to_b64(&e));
        }
        other => panic!("got {other:?}"),
    }
    assert_eq!(entry_under(&mut w, &written), new_account(&ACCOUNT, 31, 2));
    match entry_under(&mut w, &LedgerKey::account(&source)).data {
        LedgerEntryData::Account(a) => assert_eq!(a.seq_num, (1_000i64 << 32) + 1),
        other => panic!("got {other:?}"),
    }
    match ask(&mut w, Request::GetTransaction(GetTransactionParams { hash })).unwrap() {
        Response::Transaction(t) => {
            assert_eq!(t.status, "SUCCESS");
            assert_eq!(t.ledger, Some(1_000));
            assert_eq!(t.created_at.as_deref(), Some("5000"));
            assert_eq!(t.envelope_xdr, Some(to_b64(&e)));
            assert_eq!(t.return_value_xdr, Some(to_b64(&xdr::ScVal::U32(3))));
            assert_eq!(t.applied_changes, Some(1));
            assert_eq!(t.error_message, None);
        }
        other => panic!("got {other:?}"),
    }
}

#[test]
fn a_failed_transaction_changes_nothing_but_is_found() {
    let mut w = worker();
    let source = w.env().test_accounts()[0].public_key;
    let before = entry_under(&mut w, &LedgerKey::account(&source));
    let e = envelope(transaction(muxed(source), vec![op(None, invoke(call("mint", vec![])))]));
    let host = |_: &[u8]| {
        recorded(
            Err("denied"),
            vec![LedgerEntryChange {
                read_only: false,
                encoded_key: LedgerKey::account(&source).as_xdr().to_vec(),
                encoded_new_value: None,
                new_live_until_ledger: None,
            }],
        )
    };
    let hash = match send(&mut w, &e, &host).unwrap() {
        Response::Sent(b) => {
            assert_eq!((b.status, b.applied_changes), ("ERROR", 0));
            assert_eq!(b.error_message.as_deref(), Some("host error: denied"));
            b.hash
        }
        other => panic!("got {other:?}"),
    };
    assert_eq!(entry_under(&mut w, &LedgerKey::account(&source)), before);
    match ask(&mut w, Request::GetTransaction(GetTransactionParams { hash })).unwrap() {
        Response::Transaction(t) => {
            assert_eq!(t.status, "FAILED");
            assert_eq!(t.error_message.as_deref(), Some("host error: denied"));
            assert_eq!((t.return_value_xdr, t.applied_changes), (None, Some(0)));
        }
        other => panic!("got {other:?}"),
    }
}

#[test]
fn a_transaction_nobody_sent_is_not_found() {
    let mut w = worker();
    let get = |hash: &str| Request::GetTransaction(GetTransactionParams { hash: hash.to_string() });
    match ask(&mut w, get(&"ab".repeat(32))).unwrap() {
        Response::Transaction(t) => {
            assert_eq!((t.status, t.latest_ledger), ("NOT_FOUND", 1_000));
            assert!(t.ledger.is_none() && t.created_at.is_none() && t.envelope_xdr.is_none());
            assert!(t.return_value_xdr.is_none() && t.error_message.is_none() && t.applied_changes.is_none());
        }
        other => panic!("got {other:?}"),
    }
    refused(ask(&mut w, get("abc")), "hash: must be 64-char hex");
}

#[test]
fn changes_with_an_unreadable_key_end_the_request() {
    let mut w = worker();
    let host = |_: &[u8]| {
        recorded(
            Ok(xdr::ScVal::Void),
            vec![LedgerEntryChange {
                read_only: false,
                encoded_key: vec![1],
                encoded_new_value: None,
                new_live_until_ledger: None,
            }],
        )
    };
    let e = send(&mut w, &call_envelope(), &host).expect_err("unreadable");
    assert_eq!(e.code, -32603);
    assert!(e.message.starts_with("XDR codec error: "));
}

#[test]
fn replies_that_do_not_fit_end_the_request() {
    match resume(Pending::Health, Reply::Written) {
        Progress::Done(r) => broken(r, "unexpected reply from the worker"),
        other => panic!("got {other:?}"),
    }
    match resume(Pending::Simulation, Reply::Failed("worker thread is no longer running".to_string())) {
        Progress::Done(r) => broken(r, "worker thread is no longer running"),
        other => panic!("got {other:?}"),
    }
}

#[test]
fn the_worker_passes_over_a_schedule_it_cannot_read() {
    let mut w = worker();
    match w.fee_schedule() {
        FeeStep::Missing(key) => {
            w.env_mut().snapshot_source_mut().begin_fetch();
            w.env_mut().snapshot_source_mut().finish_fetch(&key, 1, Ok(None)).unwrap();
        }
        other => panic!("got {other:?}"),
    }
    assert!(matches!(w.fee_schedule(), FeeStep::Known(None)));
}

//! The XDR of transactions, contract calls and contract code: what the fork
//! reads from it and writes into it. Each trusted function here is one trip
//! through the XDR codec.

use vstd::prelude::*;

use soroban_env_host::xdr;
use soroban_env_host::xdr::{Limits, ReadXdr, WriteXdr};

use crate::codec::{
    array_option, be32, bytes_option, bytes_result, canonical_data_of, canonical_key,
    canonical_key_of, canonical_scval_of, contract_address_xdr, data_kind_of, intact, of_kind,
    DataKind,
};
use crate::fees::SorobanResources;

verus! {

/// A 64-bit number, signed or not, as eight bytes, most significant first.
#[verifier::opaque]
pub open spec fn be64(n: int) -> Seq<u8> {
    be32(n / 0x1_0000_0000 % 0x1_0000_0000) + be32(n % 0x1_0000_0000)
}

/// A byte string of variable length: the length, the bytes, and zeros up to a
/// multiple of four.
pub open spec fn var_bytes_xdr(b: Seq<u8>) -> Seq<u8> {
    be32(b.len() as int) + b + Seq::new(((4 - b.len() % 4) % 4) as nat, |i: int| 0u8)
}

/// Some byte strings, one after another.
pub open spec fn strung(parts: Seq<Seq<u8>>) -> Seq<u8>
    decreases parts.len(),
{
    if parts.len() == 0 {
        Seq::empty()
    } else {
        strung(parts.drop_last()) + parts.last()
    }
}

/// A list of XDR values.
pub open spec fn list_xdr(parts: Seq<Seq<u8>>) -> Seq<u8> {
    be32(parts.len() as int) + strung(parts)
}

/// The contents of some byte vectors.
pub open spec fn all_bytes(v: Seq<Vec<u8>>) -> Seq<Seq<u8>> {
    v.map_values(|b: Vec<u8>| b@)
}

// ---------------------------------------------------------------------------
// Envelopes
// ---------------------------------------------------------------------------

/// A transaction envelope, as far as the fork looks into it.
#[derive(Debug, PartialEq, Eq)]
pub enum Envelope {
    /// The oldest form, which cannot call contracts.
    V0,
    /// The current form: its transaction, as XDR.
    V1(Vec<u8>),
    /// An envelope in which another account pays the fee: the transaction
    /// inside, as XDR.
    FeeBump(Vec<u8>),
}

/// The content of an envelope.
pub enum EnvelopeView {
    V0,
    V1(Seq<u8>),
    FeeBump(Seq<u8>),
}

impl View for Envelope {
    type V = EnvelopeView;

    open spec fn view(&self) -> EnvelopeView {
        match *self {
            Envelope::V0 => EnvelopeView::V0,
            Envelope::V1(tx) => EnvelopeView::V1(tx@),
            Envelope::FeeBump(tx) => EnvelopeView::FeeBump(tx@),
        }
    }
}

/// A transaction, as far as the fork looks into it.
#[derive(Debug, PartialEq, Eq)]
pub struct Transaction {
    pub source: [u8; 32],
    /// As XDR.
    pub operations: Vec<Vec<u8>>,
}

/// The content of a transaction.
#[verifier::ext_equal]
pub struct TransactionView {
    pub source: Seq<u8>,
    pub operations: Seq<Seq<u8>>,
}

impl View for Transaction {
    type V = TransactionView;

    open spec fn view(&self) -> TransactionView {
        TransactionView { source: self.source@, operations: all_bytes(self.operations@) }
    }
}

/// An operation, as far as the fork looks into it.
#[derive(Debug, PartialEq, Eq)]
pub struct Operation {
    /// The account that the operation acts for, where it is not the
    /// transaction's.
    pub source: Option<[u8; 32]>,
    pub body: OperationBody,
}

/// What an operation does.
#[derive(Debug, PartialEq, Eq)]
pub enum OperationBody {
    /// It invokes a host function, given as XDR.
    InvokeHostFunction(Vec<u8>),
    /// It does something else, given as `Debug` text.
    Other(String),
}

/// The content of an operation.
pub struct OperationView {
    pub source: Option<Seq<u8>>,
    pub body: BodyView,
}

/// The content of what an operation does.
pub enum BodyView {
    InvokeHostFunction(Seq<u8>),
    Other(Seq<char>),
}

impl View for Operation {
    type V = OperationView;

    open spec fn view(&self) -> OperationView {
        OperationView {
            source: array_option(self.source),
            body: match self.body {
                OperationBody::InvokeHostFunction(x) => BodyView::InvokeHostFunction(x@),
                OperationBody::Other(t) => BodyView::Other(t@),
            },
        }
    }
}

/// What `TransactionEnvelope::from_xdr` finds in some bytes, or the message
/// of the decoding error.
pub uninterp spec fn envelope_of(xdr: Seq<u8>) -> Result<EnvelopeView, Seq<char>>;

/// What `Transaction::from_xdr` finds in some bytes.
pub uninterp spec fn transaction_of(xdr: Seq<u8>) -> Option<TransactionView>;

/// What `Operation::from_xdr` finds in some bytes.
pub uninterp spec fn operation_of(xdr: Seq<u8>) -> Option<OperationView>;

/// What `TransactionEnvelope::hash` makes of an envelope, given as XDR, on a
/// network; or the message of the codec's error.
pub uninterp spec fn envelope_hash_of(envelope: Seq<u8>, network_id: Seq<u8>) -> Result<
    Seq<u8>,
    Seq<char>,
>;

/// The view of a decoded envelope.
pub open spec fn envelope_result(r: Result<Envelope, String>) -> Result<EnvelopeView, Seq<char>> {
    match r {
        Ok(e) => Ok(e@),
        Err(e) => Err(e@),
    }
}

/// The view of an optional transaction.
pub open spec fn transaction_option(r: Option<Transaction>) -> Option<TransactionView> {
    match r {
        Some(t) => Some(t@),
        None => None,
    }
}

/// The view of an optional operation.
pub open spec fn operation_option(r: Option<Operation>) -> Option<OperationView> {
    match r {
        Some(o) => Some(o@),
        None => None,
    }
}

/// The view of a hash.
pub open spec fn hash_result(r: Result<[u8; 32], String>) -> Result<Seq<u8>, Seq<char>> {
    match r {
        Ok(h) => Ok(h@),
        Err(e) => Err(e@),
    }
}

/// Whether the transaction of an envelope can be read on its own.
pub open spec fn readable(e: Envelope) -> bool {
    match e {
        Envelope::V0 => true,
        Envelope::V1(tx) => transaction_of(tx@) is Some,
        Envelope::FeeBump(tx) => transaction_of(tx@) is Some,
    }
}

/// Whether each of some operations, given as XDR, can be read on its own.
pub open spec fn all_readable(operations: Seq<Vec<u8>>) -> bool {
    forall|i: int| 0 <= i < operations.len() ==> operation_of((#[trigger] operations[i])@) is Some
}

/// Decodes a transaction envelope with `TransactionEnvelope::from_xdr` and
/// gives its transaction, or the one inside, encoded with `to_xdr`.
#[verifier::external_body]
pub(crate) fn decode_envelope(xdr: &[u8]) -> (r: Result<Envelope, String>)
    ensures
        envelope_result(r) == envelope_of(xdr@),
        r matches Ok(e) ==> readable(e),
{
    let envelope = xdr::TransactionEnvelope::from_xdr(xdr, Limits::none()).map_err(|e| e.to_string())?;
    let encoded = match envelope {
        xdr::TransactionEnvelope::TxV0(_) => Ok(Envelope::V0),
        xdr::TransactionEnvelope::Tx(e) => e.tx.to_xdr(Limits::none()).map(Envelope::V1),
        xdr::TransactionEnvelope::TxFeeBump(e) => {
            let xdr::FeeBumpTransactionInnerTx::Tx(inner) = e.tx.inner_tx;
            inner.tx.to_xdr(Limits::none()).map(Envelope::FeeBump)
        }
    };
    encoded.map_err(|e| e.to_string())
}

/// Decodes a transaction with `Transaction::from_xdr` and gives the key of
/// its source account and each operation, encoded with `to_xdr`.
#[verifier::external_body]
pub(crate) fn decode_transaction(xdr: &[u8]) -> (r: Option<Transaction>)
    ensures
        transaction_option(r) == transaction_of(xdr@),
        r matches Some(t) ==> all_readable(t.operations@),
{
    let tx = xdr::Transaction::from_xdr(xdr, Limits::none()).ok()?;
    let xdr::AccountId(xdr::PublicKey::PublicKeyTypeEd25519(key)) = tx.source_account.account_id();
    let operations: Result<Vec<Vec<u8>>, xdr::Error> =
        tx.operations.iter().map(|o| o.to_xdr(Limits::none())).collect();
    Some(Transaction { source: key.0, operations: operations.ok()? })
}

/// Decodes an operation with `Operation::from_xdr` and gives the key of its
/// own source account, and the host function that it invokes, encoded with
/// `to_xdr`, or else its body formatted with `Debug`.
#[verifier::external_body]
pub(crate) fn decode_operation(xdr: &[u8]) -> (r: Option<Operation>)
    ensures
        operation_option(r) == operation_of(xdr@),
{
    let op = xdr::Operation::from_xdr(xdr, Limits::none()).ok()?;
    let key = |xdr::AccountId(xdr::PublicKey::PublicKeyTypeEd25519(k)): xdr::AccountId| k.0;
    let body = match op.body {
        xdr::OperationBody::InvokeHostFunction(i) => {
            OperationBody::InvokeHostFunction(i.host_function.to_xdr(Limits::none()).ok()?)
        }
        other => OperationBody::Other(format!("{other:?}")),
    };
    Some(Operation { source: op.source_account.map(|m| key(m.account_id())), body })
}

/// Decodes a transaction envelope with `TransactionEnvelope::from_xdr` and
/// calls `hash`: the hash that the network knows the transaction by.
#[verifier::external_body]
pub(crate) fn envelope_hash(envelope: &[u8], network_id: &[u8; 32]) -> (r: Result<[u8; 32], String>)
    ensures
        hash_result(r) == envelope_hash_of(envelope@, network_id@),
        r is Ok <==> envelope_of(envelope@) is Ok,
{
    let envelope = xdr::TransactionEnvelope::from_xdr(envelope, Limits::none()).map_err(|e| e.to_string())?;
    envelope.hash(*network_id).map_err(|e| e.to_string())
}

// ---------------------------------------------------------------------------
// Contract values
// ---------------------------------------------------------------------------

/// The XDR of the contract value that holds an account's address.
pub open spec fn account_scval_xdr(account: Seq<u8>) -> Seq<u8> {
    be32(18) + be32(0) + be32(0) + account
}

/// The XDR of the contract value that holds a signed 128-bit number.
pub open spec fn number_xdr(n: int) -> Seq<u8> {
    i128_scval_xdr((n / 0x1_0000_0000_0000_0000) as i64, (n % 0x1_0000_0000_0000_0000) as u64)
}

/// The XDR of the contract value that holds a signed 128-bit number, given by
/// its halves.
pub open spec fn i128_scval_xdr(hi: i64, lo: u64) -> Seq<u8> {
    be32(10) + be64(hi as int) + be64(lo as int)
}

proof fn lemma_be32_injective(a: int, b: int)
    requires
        0 <= a < 0x1_0000_0000,
        0 <= b < 0x1_0000_0000,
        be32(a) == be32(b),
    ensures
        a == b,
{
    let x = be32(a);
    let y = be32(b);
    assert(x[0] == y[0] && x[1] == y[1] && x[2] == y[2] && x[3] == y[3]);
}

proof fn lemma_be64_len(n: int)
    ensures
        be64(n).len() == 8,
{
    reveal(be64);
}

proof fn lemma_be64_injective(a: int, b: int)
    requires
        be64(a) == be64(b),
    ensures
        a / 0x1_0000_0000 % 0x1_0000_0000 == b / 0x1_0000_0000 % 0x1_0000_0000,
        a % 0x1_0000_0000 == b % 0x1_0000_0000,
{
    reveal(be64);
    let (x, y) = (be64(a), be64(b));
    let (ah, al) = (a / 0x1_0000_0000 % 0x1_0000_0000, a % 0x1_0000_0000);
    let (bh, bl) = (b / 0x1_0000_0000 % 0x1_0000_0000, b % 0x1_0000_0000);
    assert(be32(ah) == be32(bh)) by {
        assert(x.take(4) =~= be32(ah));
        assert(y.take(4) =~= be32(bh));
    }
    assert(be32(al) == be32(bl)) by {
        assert(x.skip(4) =~= be32(al));
        assert(y.skip(4) =~= be32(bl));
    }
    lemma_be32_injective(ah, bh);
    lemma_be32_injective(al, bl);
}

/// The length of the XDR of a number.
pub(crate) proof fn lemma_number_len(hi: i64, lo: u64)
    ensures
        i128_scval_xdr(hi, lo).len() == 20,
{
    lemma_be64_len(hi as int);
    lemma_be64_len(lo as int);
}

/// Two sequences of parts are the same only if their parts are.
proof fn lemma_same_parts(p: Seq<u8>, a: Seq<u8>, b: Seq<u8>, c: Seq<u8>, d: Seq<u8>)
    requires
        a.len() == c.len(),
        p + a + b == p + c + d,
    ensures
        a == c,
        b == d,
{
    let n = p.len() as int;
    let m = n + a.len();
    assert((p + a + b).subrange(n, m) =~= a);
    assert((p + c + d).subrange(n, m) =~= c);
    assert((p + a + b).skip(m) =~= b);
    assert((p + c + d).skip(m) =~= d);
}

/// The XDR of a number determines it.
pub proof fn law_numbers_read_back(hi1: i64, lo1: u64, hi2: i64, lo2: u64)
    requires
        i128_scval_xdr(hi1, lo1) == i128_scval_xdr(hi2, lo2),
    ensures
        hi1 == hi2,
        lo1 == lo2,
{
    lemma_be64_len(hi1 as int);
    lemma_be64_len(hi2 as int);
    lemma_same_parts(
        be32(10),
        be64(hi1 as int),
        be64(lo1 as int),
        be64(hi2 as int),
        be64(lo2 as int),
    );
    lemma_be64_injective(hi1 as int, hi2 as int);
    lemma_be64_injective(lo1 as int, lo2 as int);
}

/// What a token contract gave as a balance.
#[derive(Debug, Clone, Copy, PartialEq, Eq, Structural)]
pub enum BalanceValue {
    /// A signed 128-bit number, by its halves.
    I128 { hi: i64, lo: u64 },
    /// A number of at most 64 bits.
    SmallNumber,
    /// Anything else.
    Other,
}

/// Whether some XDR is that of a contract value that holds a number of at
/// most 64 bits.
pub open spec fn is_small_number(x: Seq<u8>) -> bool {
    ||| x.len() == 8 && (x.take(4) == be32(3) || x.take(4) == be32(4))
    ||| x.len() == 12 && (x.take(4) == be32(5) || x.take(4) == be32(6))
}

/// What a contract value, given as XDR, is as a balance.
pub open spec fn balance_value(x: Seq<u8>, v: BalanceValue) -> bool {
    match v {
        BalanceValue::I128 { hi, lo } => x == i128_scval_xdr(hi, lo),
        BalanceValue::SmallNumber => is_small_number(x),
        BalanceValue::Other => !is_small_number(x) && forall|hi: i64, lo: u64|
            x != #[trigger] i128_scval_xdr(hi, lo),
    }
}

/// Encodes an account's address as a contract value with `to_xdr`, which
/// cannot fail on a value of fixed size.
#[verifier::external_body]
pub(crate) fn encode_account_scval(account: &[u8; 32]) -> (r: Vec<u8>)
    ensures
        r@ == account_scval_xdr(account@),
        canonical_scval_of(r@) == intact(r@),
{
    let id = xdr::AccountId(xdr::PublicKey::PublicKeyTypeEd25519(xdr::Uint256(*account)));
    xdr::ScVal::Address(xdr::ScAddress::Account(id)).to_xdr(Limits::none()).expect("fixed-size XDR")
}

/// Encodes a signed 128-bit number as a contract value with `to_xdr`, which
/// cannot fail on a value of fixed size.
#[verifier::external_body]
pub(crate) fn encode_i128_scval(hi: i64, lo: u64) -> (r: Vec<u8>)
    ensures
        r@ == i128_scval_xdr(hi, lo),
        canonical_scval_of(r@) == intact(r@),
{
    xdr::ScVal::I128(xdr::Int128Parts { hi, lo }).to_xdr(Limits::none()).expect("fixed-size XDR")
}

/// Decodes a contract value with `ScVal::from_xdr` and tells what it is as a
/// balance. The XDR of a number is its type and the number, nothing else.
#[verifier::external_body]
pub(crate) fn decode_balance(xdr: &[u8]) -> (r: BalanceValue)
    ensures
        balance_value(xdr@, r),
{
    match xdr::ScVal::from_xdr(xdr, Limits::none()) {
        Ok(xdr::ScVal::I128(xdr::Int128Parts { hi, lo })) => BalanceValue::I128 { hi, lo },
        Ok(xdr::ScVal::U32(_)) => BalanceValue::SmallNumber,
        Ok(xdr::ScVal::I32(_)) => BalanceValue::SmallNumber,
        Ok(xdr::ScVal::U64(_)) => BalanceValue::SmallNumber,
        Ok(xdr::ScVal::I64(_)) => BalanceValue::SmallNumber,
        _ => BalanceValue::Other,
    }
}

/// Encodes the address of a contract with `to_xdr`, which cannot fail on a
/// value of fixed size.
#[verifier::external_body]
pub(crate) fn encode_contract_address(contract: &[u8; 32]) -> (r: Vec<u8>)
    ensures
        r@ == contract_address_xdr(contract@),
{
    let address = xdr::ScAddress::Contract(xdr::ContractId(xdr::Hash(*contract)));
    address.to_xdr(Limits::none()).expect("fixed-size XDR")
}

// ---------------------------------------------------------------------------
// Contract calls
// ---------------------------------------------------------------------------

/// The XDR of the host function that calls a contract: the contract, the
/// function's name, and the arguments as XDR.
pub open spec fn call_xdr(contract: Seq<u8>, function: Seq<u8>, args: Seq<Seq<u8>>) -> Seq<u8> {
    be32(0) + contract_address_xdr(contract) + var_bytes_xdr(function) + list_xdr(args)
}

/// Whether some arguments are contract values as the codec writes them, and
/// few enough for a list.
pub open spec fn are_scvals(args: Seq<Seq<u8>>) -> bool {
    &&& args.len() <= u32::MAX
    &&& forall|i: int|
        0 <= i < args.len() ==> canonical_scval_of(#[trigger] args[i]) == intact(args[i])
}

/// Whether some XDR is that of a host function that calls a contract.
pub open spec fn is_call(x: Seq<u8>) -> bool {
    exists|contract: Seq<u8>, function: Seq<u8>, args: Seq<Seq<u8>>|
        contract.len() == 32 && function.len() <= 32 && are_scvals(args) && x == #[trigger] call_xdr(
            contract,
            function,
            args,
        )
}

/// The XDR of an unsigned transaction of the current form with one operation,
/// which invokes a host function and carries no authorization. The parts are
/// the envelope's type, the source, the fee, the sequence number, no
/// preconditions, no memo, one operation without a source of its own that
/// invokes the function, no extension, no signatures.
pub open spec fn call_envelope_xdr(source: Seq<u8>, fee: u32, seq_num: i64, function: Seq<u8>) -> Seq<u8> {
    be32(2) + be32(0) + source + be32(fee as int) + be64(seq_num as int) + be32(0) + be32(0) + be32(1) + be32(
        0,
    ) + be32(24) + function + be32(0) + be32(0) + be32(0)
}

/// Encodes a host function that calls a contract with `to_xdr`, its arguments
/// decoded with `ScVal::from_xdr`.
#[verifier::external_body]
pub(crate) fn encode_call(contract: &[u8; 32], function: &[u8], args: &Vec<Vec<u8>>) -> (r: Vec<u8>)
    requires
        function@.len() <= 32,
        are_scvals(all_bytes(args@)),
    ensures
        r@ == call_xdr(contract@, function@, all_bytes(args@)),
{
    let args: Vec<xdr::ScVal> = args
        .iter()
        .map(|a| xdr::ScVal::from_xdr(a, Limits::none()).expect("XDR of a contract value"))
        .collect();
    let call = xdr::HostFunction::InvokeContract(xdr::InvokeContractArgs {
        contract_address: xdr::ScAddress::Contract(xdr::ContractId(xdr::Hash(*contract))),
        function_name: xdr::ScSymbol(function.to_vec().try_into().expect("a short name")),
        args: args.try_into().expect("a short list"),
    });
    call.to_xdr(Limits::none()).expect("XDR of parts that were XDR")
}

/// Encodes an unsigned transaction that invokes a host function with
/// `to_xdr`, the function decoded with `HostFunction::from_xdr`.
#[verifier::external_body]
pub(crate) fn encode_call_envelope(source: &[u8; 32], fee: u32, seq_num: i64, function: &[u8]) -> (r: Vec<u8>)
    requires
        is_call(function@),
    ensures
        r@ == call_envelope_xdr(source@, fee, seq_num, function@),
        envelope_of(r@) is Ok,
{
    let host_function = ReadXdr::from_xdr(function, Limits::none()).expect("XDR of a host function");
    let body = xdr::OperationBody::InvokeHostFunction(xdr::InvokeHostFunctionOp { host_function, auth: Default::default() });
    let tx = xdr::Transaction {
        source_account: xdr::MuxedAccount::Ed25519(xdr::Uint256(*source)),
        fee,
        seq_num: xdr::SequenceNumber(seq_num),
        cond: xdr::Preconditions::None,
        memo: xdr::Memo::None,
        operations: vec![xdr::Operation { source_account: None, body }].try_into().expect("one operation"),
        ext: xdr::TransactionExt::V0,
    };
    let envelope = xdr::TransactionEnvelope::Tx(xdr::TransactionV1Envelope { tx, signatures: Default::default() });
    envelope.to_xdr(Limits::none()).expect("XDR of parts that were XDR")
}

// ---------------------------------------------------------------------------
// Contract code and instances
// ---------------------------------------------------------------------------

/// The XDR of entry data that holds contract code.
pub open spec fn contract_code_xdr(hash: Seq<u8>, code: Seq<u8>) -> Seq<u8> {
    be32(7) + be32(0) + hash + var_bytes_xdr(code)
}

/// The XDR of the contract value that holds a contract's instance, given the
/// hash of its code and its storage as XDR.
pub open spec fn instance_xdr(hash: Seq<u8>, storage: Seq<u8>) -> Seq<u8> {
    be32(19) + be32(0) + hash + storage
}

/// The XDR of the storage of the contract instance that a contract value,
/// given as XDR, holds; nothing where it holds something else. An instance
/// without storage has an empty option.
pub uninterp spec fn instance_storage_of(val: Seq<u8>) -> Option<Seq<u8>>;

/// Whether some XDR is that of an instance's storage.
pub open spec fn is_instance_storage(storage: Seq<u8>) -> bool {
    storage == be32(0) || exists|val: Seq<u8>| #[trigger] instance_storage_of(val) == Some(storage)
}

/// Encodes entry data that holds contract code with `to_xdr`. It fails only
/// where the code is too long for the codec, which counts bytes in 32 bits.
#[verifier::external_body]
pub(crate) fn encode_contract_code(hash: &[u8; 32], code: &[u8]) -> (r: Option<Vec<u8>>)
    ensures
        r is Some <==> code@.len() <= u32::MAX,
        r matches Some(d) ==> d@ == contract_code_xdr(hash@, code@) && canonical_data_of(d@) == intact(d@)
            && data_kind_of(d@) == of_kind(DataKind::Other),
{
    let data = xdr::LedgerEntryData::ContractCode(xdr::ContractCodeEntry {
        ext: xdr::ContractCodeEntryExt::V0,
        hash: xdr::Hash(*hash),
        code: code.try_into().ok()?,
    });
    data.to_xdr(Limits::none()).ok()
}

/// Decodes a contract value with `ScVal::from_xdr` and gives the storage of
/// the contract instance that it holds, encoded with `to_xdr`.
#[verifier::external_body]
pub(crate) fn decode_instance_storage(val: &[u8]) -> (r: Option<Vec<u8>>)
    ensures
        bytes_option(r) == instance_storage_of(val@),
{
    match xdr::ScVal::from_xdr(val, Limits::none()) {
        Ok(xdr::ScVal::ContractInstance(instance)) => instance.storage.to_xdr(Limits::none()).ok(),
        _ => None,
    }
}

/// Encodes a contract instance as a contract value with `to_xdr`, its storage
/// decoded with `from_xdr`. Reading the storage back gives the same.
#[verifier::external_body]
pub(crate) fn encode_instance(hash: &[u8; 32], storage: &[u8]) -> (r: Vec<u8>)
    requires
        is_instance_storage(storage@),
    ensures
        r@ == instance_xdr(hash@, storage@),
        canonical_scval_of(r@) == intact(r@),
        instance_storage_of(r@) == Some(storage@),
{
    let instance = xdr::ScVal::ContractInstance(xdr::ScContractInstance {
        executable: xdr::ContractExecutable::Wasm(xdr::Hash(*hash)),
        storage: ReadXdr::from_xdr(storage, Limits::none()).expect("XDR of instance storage"),
    });
    instance.to_xdr(Limits::none()).expect("XDR of parts that were XDR")
}

// ---------------------------------------------------------------------------
// What a transaction uses
// ---------------------------------------------------------------------------

/// What a transaction uses: the ledger keys that it only reads and those that
/// it writes, as XDR, and how much of everything else.
pub struct UsedView {
    pub read_only: Seq<Seq<u8>>,
    pub read_write: Seq<Seq<u8>>,
    pub instructions: u32,
    pub disk_read_bytes: u32,
    pub write_bytes: u32,
}

/// The XDR of the data that tells what a transaction uses and pays for it.
pub open spec fn transaction_data_xdr(u: UsedView, resource_fee: i64) -> Seq<u8> {
    be32(0) + list_xdr(u.read_only) + list_xdr(u.read_write) + be32(u.instructions as int) + be32(
        u.disk_read_bytes as int,
    ) + be32(u.write_bytes as int) + be64(resource_fee as int)
}

/// Whether some keys are ledger keys as the codec writes them, and few enough
/// for a list.
pub open spec fn are_ledger_keys(keys: Seq<Vec<u8>>) -> bool {
    &&& keys.len() <= u32::MAX
    &&& forall|i: int|
        0 <= i < keys.len() ==> canonical_key_of((#[trigger] keys[i])@) == intact(keys[i]@)
}

/// Encodes a `SorobanTransactionData` with `to_xdr`, its keys decoded with
/// `LedgerKey::from_xdr`.
#[verifier::external_body]
pub(crate) fn encode_transaction_data(
    read_only: &Vec<Vec<u8>>,
    read_write: &Vec<Vec<u8>>,
    instructions: u32,
    disk_read_bytes: u32,
    write_bytes: u32,
    resource_fee: i64,
) -> (r: Vec<u8>)
    requires
        are_ledger_keys(read_only@),
        are_ledger_keys(read_write@),
    ensures
        r@ == transaction_data_xdr(
            (UsedView {
                read_only: all_bytes(read_only@),
                read_write: all_bytes(read_write@),
                instructions,
                disk_read_bytes,
                write_bytes,
            }),
            resource_fee,
        ),
{
    let keys = |v: &Vec<Vec<u8>>| -> xdr::VecM<xdr::LedgerKey> {
        let keys: Vec<_> =
            v.iter().map(|k| ReadXdr::from_xdr(k, Limits::none()).expect("XDR of a ledger key")).collect();
        keys.try_into().expect("a short list")
    };
    let resources = xdr::SorobanResources {
        footprint: xdr::LedgerFootprint { read_only: keys(read_only), read_write: keys(read_write) },
        instructions,
        disk_read_bytes,
        write_bytes,
    };
    let data = xdr::SorobanTransactionData { ext: Default::default(), resources, resource_fee };
    data.to_xdr(Limits::none()).expect("XDR of parts that were XDR")
}

/// The number of the first key from `from` on that cannot be read.
pub open spec fn first_unreadable(keys: Seq<Vec<u8>>, from: int) -> Option<int>
    decreases keys.len() - from,
{
    if from < 0 || from >= keys.len() {
        None
    } else if canonical_key_of(keys[from]@) is Err {
        Some(from)
    } else {
        first_unreadable(keys, from + 1)
    }
}

/// Some keys as the codec writes them.
pub open spec fn rewritten(keys: Seq<Vec<u8>>) -> Seq<Seq<u8>> {
    keys.map_values(|k: Vec<u8>| canonical_key_of(k@)->Ok_0)
}

/// Why some keys make no list.
pub open spec fn list_failure(keys: Seq<Vec<u8>>) -> Option<Seq<char>> {
    match first_unreadable(keys, 0) {
        Some(i) => Some(canonical_key_of(keys[i]@)->Err_0),
        None => if keys.len() > u32::MAX {
            Some("too many ledger keys"@)
        } else {
            None
        },
    }
}

/// The XDR of the data that tells what a transaction uses and pays for it, or
/// why there is none.
pub open spec fn used_xdr(r: SorobanResources, resource_fee: i64) -> Result<Seq<u8>, Seq<char>> {
    match list_failure(r.read_only@) {
        Some(m) => Err(m),
        None => match list_failure(r.read_write@) {
            Some(m) => Err(m),
            None => Ok(
                transaction_data_xdr(
                    UsedView {
                        read_only: rewritten(r.read_only@),
                        read_write: rewritten(r.read_write@),
                        instructions: r.instructions,
                        disk_read_bytes: r.disk_read_bytes,
                        write_bytes: r.write_bytes,
                    },
                    resource_fee,
                ),
            ),
        },
    }
}

fn rewrite_keys(keys: &Vec<Vec<u8>>) -> (r: Result<Vec<Vec<u8>>, String>)
    ensures
        (match list_failure(keys@) {
            Some(m) => r matches Err(e) && e@ == m,
            None => r matches Ok(out) && are_ledger_keys(out@) && all_bytes(out@) == rewritten(keys@),
        }),
{
    let mut out: Vec<Vec<u8>> = Vec::new();
    let mut i: usize = 0;
    while i < keys.len()
        invariant
            i <= keys@.len(),
            out@.len() == i,
            first_unreadable(keys@, 0) == first_unreadable(keys@, i as int),
            forall|j: int|
                0 <= j < i ==> canonical_key_of((#[trigger] out@[j])@) == intact(out@[j]@) && out@[j]@
                    == canonical_key_of(keys@[j]@)->Ok_0,
        decreases keys@.len() - i,
    {
        match canonical_key(keys[i].as_slice()) {
            Ok(k) => out.push(k),
            Err(e) => {
                return Err(e);
            },
        }
        i = i + 1;
    }
    if keys.len() as u64 > 0xFFFF_FFFF {
        return Err("too many ledger keys".to_owned());
    }
    assert(all_bytes(out@) =~= rewritten(keys@));
    Ok(out)
}

/// The XDR of the data that tells what a transaction uses and pays for it.
pub fn transaction_data(res: &SorobanResources, resource_fee: i64) -> (r: Result<Vec<u8>, String>)
    ensures
        bytes_result(r) == used_xdr(*res, resource_fee),
{
    let read_only = match rewrite_keys(&res.read_only) {
        Ok(keys) => keys,
        Err(e) => {
            return Err(e);
        },
    };
    let read_write = match rewrite_keys(&res.read_write) {
        Ok(keys) => keys,
        Err(e) => {
            return Err(e);
        },
    };
    Ok(
        encode_transaction_data(
            &read_only,
            &read_write,
            res.instructions,
            res.disk_read_bytes,
            res.write_bytes,
            resource_fee,
        ),
    )
}

/// What a transaction uses is written down in full: every key that it reads
/// and every key that it writes, in order, as the codec writes it.
pub proof fn law_used_keys_are_listed(r: SorobanResources, resource_fee: i64)
    requires
        r.read_only@.len() <= u32::MAX,
        r.read_write@.len() <= u32::MAX,
        forall|i: int| 0 <= i < r.read_only@.len() ==> canonical_key_of((#[trigger] r.read_only@[i])@) is Ok,
        forall|i: int| 0 <= i < r.read_write@.len() ==> canonical_key_of((#[trigger] r.read_write@[i])@) is Ok,
    ensures
        used_xdr(r, resource_fee) == intact(
            transaction_data_xdr(
                UsedView {
                    read_only: Seq::new(
                        r.read_only@.len(),
                        |i: int| canonical_key_of(r.read_only@[i]@)->Ok_0,
                    ),
                    read_write: Seq::new(
                        r.read_write@.len(),
                        |i: int| canonical_key_of(r.read_write@[i]@)->Ok_0,
                    ),
                    instructions: r.instructions,
                    disk_read_bytes: r.disk_read_bytes,
                    write_bytes: r.write_bytes,
                },
                resource_fee,
            ),
        ),
{
    lemma_all_keys_readable(r.read_only@, 0);
    lemma_all_keys_readable(r.read_write@, 0);
    assert(rewritten(r.read_only@) =~= Seq::new(
        r.read_only@.len(),
        |i: int| canonical_key_of(r.read_only@[i]@)->Ok_0,
    ));
    assert(rewritten(r.read_write@) =~= Seq::new(
        r.read_write@.len(),
        |i: int| canonical_key_of(r.read_write@[i]@)->Ok_0,
    ));
}

/// A key that the codec cannot read makes the whole fail.
pub proof fn law_unreadable_keys_are_refused(r: SorobanResources, resource_fee: i64, i: int)
    requires
        0 <= i < r.read_only@.len() && canonical_key_of(r.read_only@[i]@) is Err || 0 <= i
            < r.read_write@.len() && canonical_key_of(r.read_write@[i]@) is Err,
    ensures
        used_xdr(r, resource_fee) is Err,
{
    if 0 <= i < r.read_only@.len() && canonical_key_of(r.read_only@[i]@) is Err {
        lemma_some_key_unreadable(r.read_only@, 0, i);
    } else {
        lemma_some_key_unreadable(r.read_write@, 0, i);
    }
}

proof fn lemma_all_keys_readable(keys: Seq<Vec<u8>>, from: int)
    requires
        0 <= from,
        forall|i: int| 0 <= i < keys.len() ==> canonical_key_of((#[trigger] keys[i])@) is Ok,
    ensures
        first_unreadable(keys, from) is None,
    decreases keys.len() - from,
{
    if from < keys.len() {
        lemma_all_keys_readable(keys, from + 1);
    }
}

proof fn lemma_some_key_unreadable(keys: Seq<Vec<u8>>, from: int, i: int)
    requires
        0 <= from <= i < keys.len(),
        canonical_key_of(keys[i]@) is Err,
    ensures
        first_unreadable(keys, from) is Some,
    decreases i - from,
{
    if from < i {
        lemma_some_key_unreadable(keys, from + 1, i);
    }
}

} // verus!

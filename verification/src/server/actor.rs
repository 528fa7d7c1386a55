//! The worker: it owns the fork and carries out one command after another.
//!
//! Commands that the fork can answer by itself are answered at once. Where an
//! entry has to be fetched, or a contract has to be run, the worker says so;
//! once that is done, the command goes on.

use vstd::prelude::*;

use crate::codec::{account_key_xdr, bytes_result, canonical_key_of, intact};
use crate::error::{error_text, ErrorView, ForkError};
use crate::fees::{
    charged, compute_min_resource_fee, empty_soroban_resources, events_size, free_schedule,
    resource_fee_of, schedule_from, whole_fee, FeeConfiguration, FeeOutcome, FeeProgress,
    SorobanResources, TransactionResources,
};
use crate::fork::{warped, ForkView, ForkedEnv};
use crate::ledger::{
    decoded_entry, entry_xdr, plain, settled, writable, AccountView, DataView, EntryView,
    LedgerEntry, LedgerKey,
};
use crate::scval::copy_bytes;
use crate::source::{
    bad_change, bumped, changed_all, first_bad_key, known_account, law_changes_touch_written_keys,
    law_last_write_is_known, law_writes_are_counted, lemma_seq_num_reads_back, looked_up,
    next_seq_num, with_seq_num, write_count, Held, LedgerEntryChange, LedgerRow, Lookup, LookupView,
    RowView, SourceView,
};
use crate::store::ByteMap;
use crate::text::{decimal, hex, hex_encode, join2, u32_text};
use crate::transaction::{envelope_hash, envelope_hash_of};

verus! {

// ---------------------------------------------------------------------------
// Commands and replies
// ---------------------------------------------------------------------------

/// What the worker can be told to do.
#[derive(Debug)]
pub enum Command {
    /// Tell which network was forked.
    GetNetwork,
    /// Tell which ledger it is now.
    GetLatestLedger,
    /// Tell which ledger it is now, and its time.
    GetLedgersPage,
    /// Find entries, fetching those that have not been asked for yet.
    GetLedgerEntries { keys: Vec<LedgerKey> },
    /// Run a host function, given as XDR, without keeping what it wrote.
    SimulateTransaction {
        host_function: Vec<u8>,
        source_account: [u8; 32],
        /// How long the envelope is on the wire.
        transaction_size_bytes: u32,
    },
    /// Run a host function, given as XDR, and keep what it wrote.
    SendTransaction {
        envelope_bytes: Vec<u8>,
        host_function: Vec<u8>,
        source_account: [u8; 32],
    },
    /// Find what became of a transaction.
    GetTransaction { hash: [u8; 32] },
    /// Write an entry.
    SetLedgerEntry { key: LedgerKey, entry: LedgerEntry, live_until: Option<u32> },
    /// Let ledgers close and time pass.
    CloseLedgers { ledgers: u32, timestamp_advance_seconds: u64 },
}

/// Which network was forked.
#[derive(Debug, PartialEq, Eq)]
pub struct NetworkReply {
    pub passphrase: String,
    pub protocol_version: u32,
    /// In hexadecimal.
    pub network_id_hex: String,
}

/// Which ledger it is now.
#[derive(Debug, PartialEq, Eq)]
pub struct LatestLedgerReply {
    pub sequence: u32,
    pub protocol_version: u32,
    /// A label that stands for the ledger's hash.
    pub id: String,
}

/// Which ledger it is now, and its time.
#[derive(Debug, PartialEq, Eq)]
pub struct LedgersPageReply {
    pub sequence: u32,
    pub close_time: u64,
}

/// What was found under some keys.
#[derive(Debug, PartialEq, Eq)]
pub struct LedgerEntriesReply {
    /// For each key, in order, its row; nothing where there is no entry.
    pub entries: Vec<Option<LedgerRow>>,
    pub latest_ledger: u32,
}

/// What a simulation found out.
#[derive(Debug, PartialEq, Eq)]
pub struct SimulationReply {
    /// What the host function gave, as XDR, or why it failed.
    pub result: Result<Vec<u8>, String>,
    /// The authorizations that it needs, as XDR.
    pub auth: Vec<Vec<u8>>,
    pub resources: SorobanResources,
    /// As XDR.
    pub contract_events: Vec<Vec<u8>>,
    /// As XDR.
    pub diagnostic_events: Vec<Vec<u8>>,
    pub latest_ledger: u32,
    /// What a real transaction would pay; unknown without a fee schedule.
    pub min_resource_fee: Option<i64>,
    pub mem_bytes: Option<u64>,
}

/// What became of a transaction.
#[derive(Debug, PartialEq, Eq)]
pub struct Receipt {
    pub envelope_bytes: Vec<u8>,
    /// What the host function gave, as XDR, or why it failed.
    pub result: Result<Vec<u8>, String>,
    /// How many entries were written.
    pub applied_changes: u32,
    /// The ledger at the time.
    pub ledger: u32,
    /// That ledger's time.
    pub created_at: u64,
}

/// The content of a receipt.
#[verifier::ext_equal]
pub struct ReceiptView {
    pub envelope: Seq<u8>,
    pub result: Result<Seq<u8>, Seq<char>>,
    pub applied_changes: u32,
    pub ledger: u32,
    pub created_at: u64,
}

impl View for Receipt {
    type V = ReceiptView;

    open spec fn view(&self) -> ReceiptView {
        ReceiptView {
            envelope: self.envelope_bytes@,
            result: bytes_result(self.result),
            applied_changes: self.applied_changes,
            ledger: self.ledger,
            created_at: self.created_at,
        }
    }
}

impl Receipt {
    /// A copy of the receipt.
    pub fn copied(&self) -> (r: Receipt)
        ensures
            r@ == self@,
    {
        Receipt {
            envelope_bytes: copy_bytes(&self.envelope_bytes),
            result: match &self.result {
                Ok(v) => Ok(copy_bytes(v)),
                Err(e) => Err(e.as_str().to_owned()),
            },
            applied_changes: self.applied_changes,
            ledger: self.ledger,
            created_at: self.created_at,
        }
    }
}

/// What became of a transaction that was just sent.
#[derive(Debug, PartialEq, Eq)]
pub struct SendReply {
    pub hash: [u8; 32],
    pub receipt: Receipt,
}

/// Where the clock stands after ledgers have closed.
#[derive(Debug, PartialEq, Eq)]
pub struct CloseLedgersReply {
    pub new_sequence: u32,
    pub new_close_time: u64,
}

/// What the worker answers.
#[derive(Debug)]
pub enum Reply {
    Network(NetworkReply),
    LatestLedger(LatestLedgerReply),
    LedgersPage(LedgersPageReply),
    LedgerEntries(LedgerEntriesReply),
    Simulation(SimulationReply),
    Sent(SendReply),
    Transaction(Option<Receipt>),
    Written,
    Closed(CloseLedgersReply),
    /// The worker could not carry the command out.
    Failed(String),
}

/// What the worker does next.
#[derive(Debug)]
pub enum WorkStep {
    /// The command is done.
    Done(Reply),
    /// This key has to be fetched; the command is then to be tried again.
    Fetch(LedgerKey),
    /// The command's host function has to be run.
    Run,
}

// ---------------------------------------------------------------------------
// The worker
// ---------------------------------------------------------------------------

/// The worker.
#[derive(Debug)]
pub struct Worker {
    env: ForkedEnv,
    receipts: ByteMap<Receipt>,
}

/// The content of the worker.
#[verifier::ext_equal]
pub struct WorkerView {
    pub env: ForkView,
    /// What became of the transactions that were sent, by hash.
    pub receipts: Map<Seq<u8>, ReceiptView>,
}

/// The contents of some receipts.
pub open spec fn receipts_view(m: Map<Seq<u8>, Receipt>) -> Map<Seq<u8>, ReceiptView> {
    m.map_values(|r: Receipt| r@)
}

impl View for Worker {
    type V = WorkerView;

    closed spec fn view(&self) -> WorkerView {
        WorkerView { env: self.env@, receipts: receipts_view(self.receipts@) }
    }
}

/// The label of a network whose passphrase is not known.
pub open spec fn network_label(passphrase: Option<Seq<char>>) -> Seq<char> {
    match passphrase {
        Some(p) => p,
        None => "Forked Soroban Network (custom network_id)"@,
    }
}

/// Whether a reply tells which network was forked.
pub open spec fn tells_network(e: ForkView, r: NetworkReply) -> bool {
    &&& r.passphrase@ == network_label(e.passphrase)
    &&& r.protocol_version == e.ledger.protocol_version
    &&& r.network_id_hex@ == hex(e.ledger.network_id@)
}

/// Whether a reply tells which ledger it is.
pub open spec fn tells_ledger(e: ForkView, r: LatestLedgerReply) -> bool {
    &&& r.sequence == e.ledger.sequence_number
    &&& r.protocol_version == e.ledger.protocol_version
    &&& r.id@ == "forked-ledger-"@ + decimal(e.ledger.sequence_number as int)
}

/// What is found under a key. XDR that cannot be read counts as nothing.
pub open spec fn found_under(known: Map<Seq<u8>, Option<Held>>, key: Seq<u8>) -> Option<RowView> {
    match looked_up(known, key) {
        Ok(LookupView::Hit(Some((entry, live_until)))) => Some(RowView { key, entry, live_until }),
        _ => None,
    }
}

/// The number of the first key from `from` on that has not been asked for yet.
pub open spec fn first_unasked(
    known: Map<Seq<u8>, Option<Held>>,
    keys: Seq<LedgerKey>,
    from: int,
) -> Option<int>
    decreases keys.len() - from,
{
    if from < 0 || from >= keys.len() {
        None
    } else if !known.dom().contains(keys[from]@) {
        Some(from)
    } else {
        first_unasked(known, keys, from + 1)
    }
}

/// The view of an optional row.
pub open spec fn row_option(r: Option<LedgerRow>) -> Option<RowView> {
    match r {
        Some(row) => Some(row@),
        None => None,
    }
}

/// Whether some rows are what is found under some keys, in order. An entry
/// that is found can be written again, with other numbers too.
pub open spec fn finds(
    known: Map<Seq<u8>, Option<Held>>,
    keys: Seq<LedgerKey>,
    entries: Seq<Option<LedgerRow>>,
) -> bool {
    &&& entries.len() == keys.len()
    &&& forall|i: int|
        0 <= i < keys.len() ==> row_option(#[trigger] entries[i]) == found_under(known, keys[i]@)
    &&& forall|i: int| 0 <= i < entries.len() ==> can_be_written(#[trigger] entries[i])
}

/// Whether a row, where there is one, can be written again.
pub open spec fn can_be_written(row: Option<LedgerRow>) -> bool {
    row matches Some(r) ==> writable(r.entry@)
}

/// How far resolving some keys came.
#[derive(Debug)]
pub enum Resolution {
    /// This key has to be fetched first.
    Missing(LedgerKey),
    /// What is found under each key.
    Found(Vec<Option<LedgerRow>>),
}

/// Whether resolving some keys came this far.
pub open spec fn resolves(known: Map<Seq<u8>, Option<Held>>, keys: Seq<LedgerKey>, r: Resolution) -> bool {
    match first_unasked(known, keys, 0) {
        Some(i) => r matches Resolution::Missing(k) && k@ == keys[i]@,
        None => r matches Resolution::Found(entries) && finds(known, keys, entries@),
    }
}

/// How far finding the fee schedule came.
#[derive(Debug)]
pub enum FeeStep {
    /// This key has to be fetched first.
    Missing(LedgerKey),
    /// The schedule, where it could be read.
    Known(Option<FeeConfiguration>),
}

/// What running a host function came to.
#[derive(Debug)]
pub enum HostOutcome {
    /// The host ran the function.
    Recorded {
        /// What the function gave, as XDR, or the host's error.
        invoke_result: Result<Vec<u8>, String>,
        /// As XDR.
        auth: Vec<Vec<u8>>,
        resources: SorobanResources,
        /// As XDR.
        contract_events: Vec<Vec<u8>>,
        changes: Vec<LedgerEntryChange>,
    },
    /// The host gave up before it ran the function.
    Failed(String),
}

/// What a host function gave, or why it failed.
pub open spec fn host_result(o: HostOutcome) -> Result<Seq<u8>, Seq<char>> {
    match o {
        HostOutcome::Recorded { invoke_result, .. } => match invoke_result {
            Ok(v) => Ok(v@),
            Err(e) => Err("host error: "@ + e@),
        },
        HostOutcome::Failed(e) => Err("recording-mode error: "@ + e@),
    }
}

/// The fee that a reply names for what a simulation used.
pub open spec fn simulated_fee(
    schedule: Option<FeeConfiguration>,
    resources: SorobanResources,
    events: Seq<Vec<u8>>,
    transaction_size_bytes: u32,
) -> Option<int> {
    match (schedule, events_size(events)) {
        (Some(c), Some(n)) => Some(
            whole_fee(resource_fee_of(charged(resources, n, transaction_size_bytes), c)),
        ),
        _ => None,
    }
}

/// The view of an optional fee.
pub open spec fn fee_option(f: Option<i64>) -> Option<int> {
    match f {
        Some(n) => Some(n as int),
        None => None,
    }
}

/// Whether a reply tells what a simulation found out.
pub open spec fn tells_simulation(
    o: HostOutcome,
    schedule: Option<FeeConfiguration>,
    transaction_size_bytes: u32,
    r: SimulationReply,
) -> bool {
    &&& bytes_result(r.result) == host_result(o)
    &&& match o {
        HostOutcome::Recorded { auth, resources, contract_events, .. } => {
            &&& r.auth == auth
            &&& r.resources == resources
            &&& r.contract_events == contract_events
            &&& fee_option(r.min_resource_fee) == simulated_fee(
                schedule,
                resources,
                contract_events@,
                transaction_size_bytes,
            )
        },
        HostOutcome::Failed(_) => {
            &&& r.auth@.len() == 0
            &&& r.resources.read_only@.len() == 0
            &&& r.resources.read_write@.len() == 0
            &&& r.resources.instructions == 0
            &&& r.resources.disk_read_bytes == 0
            &&& r.resources.write_bytes == 0
            &&& r.contract_events@.len() == 0
            &&& r.min_resource_fee is None
        },
    }
}

fn host_message(invoke_result: Result<Vec<u8>, String>) -> (r: Result<Vec<u8>, String>)
    ensures
        (match invoke_result {
            Ok(v) => r == Ok::<Vec<u8>, String>(v),
            Err(e) => r matches Err(m) && m@ == "host error: "@ + e@,
        }),
{
    match invoke_result {
        Ok(v) => Ok(v),
        Err(e) => Err(join2("host error: ", e.as_str())),
    }
}

/// The reply for a simulation. The fee is left out where there is no
/// schedule, and where the host gave up.
pub fn simulate_transaction(
    outcome: HostOutcome,
    diagnostic_events: Vec<Vec<u8>>,
    latest_ledger: u32,
    mem_bytes: Option<u64>,
    schedule: Option<FeeConfiguration>,
    transaction_size_bytes: u32,
) -> (r: SimulationReply)
    ensures
        tells_simulation(outcome, schedule, transaction_size_bytes, r),
        r.diagnostic_events == diagnostic_events,
        r.latest_ledger == latest_ledger,
        r.mem_bytes == mem_bytes,
{
    match outcome {
        HostOutcome::Recorded { invoke_result, auth, resources, contract_events, changes: _ } => {
            let min_resource_fee = compute_min_resource_fee(
                schedule.as_ref(),
                &resources,
                &contract_events,
                transaction_size_bytes,
            );
            SimulationReply {
                result: host_message(invoke_result),
                auth,
                resources,
                contract_events,
                diagnostic_events,
                latest_ledger,
                min_resource_fee,
                mem_bytes,
            }
        },
        HostOutcome::Failed(e) => SimulationReply {
            result: Err(join2("recording-mode error: ", e.as_str())),
            auth: Vec::new(),
            resources: empty_soroban_resources(),
            contract_events: Vec::new(),
            diagnostic_events,
            latest_ledger,
            min_resource_fee: None,
            mem_bytes,
        },
    }
}

// ---------------------------------------------------------------------------
// Carrying commands out
// ---------------------------------------------------------------------------

/// Whether a host function gave a result.
pub open spec fn succeeded(o: HostOutcome) -> bool {
    host_result(o) is Ok
}

/// The changes that a transaction makes: those that the host recorded, where
/// the function gave a result.
pub open spec fn kept_changes(o: HostOutcome) -> Seq<LedgerEntryChange> {
    match o {
        HostOutcome::Recorded { changes, .. } => if succeeded(o) {
            changes@
        } else {
            Seq::empty()
        },
        HostOutcome::Failed(_) => Seq::empty(),
    }
}

/// What is known after a transaction. One that failed changes nothing; one
/// that succeeded makes its changes and raises the sequence number of its
/// source account.
pub open spec fn after_transaction(
    known: Map<Seq<u8>, Option<Held>>,
    source_account: Seq<u8>,
    o: HostOutcome,
) -> Map<Seq<u8>, Option<Held>> {
    if succeeded(o) {
        bumped(changed_all(known, kept_changes(o)), source_account)
    } else {
        known
    }
}

/// Whether the sequence number of an account was raised by one between two
/// states of what is known, where the account is known to exist.
pub open spec fn raised(
    before: Map<Seq<u8>, Option<Held>>,
    account: Seq<u8>,
    after: Map<Seq<u8>, Option<Held>>,
) -> bool {
    known_account(before, account) matches Some((e, live_until)) ==> known_account(after, account)
        == Some((with_seq_num(e, next_seq_num(e)), live_until))
}

/// A count as a receipt holds it.
pub open spec fn capped_count(n: nat) -> u32 {
    if n > u32::MAX {
        u32::MAX
    } else {
        n as u32
    }
}

/// The receipt of a transaction.
pub open spec fn receipt_for(e: ForkView, envelope: Seq<u8>, o: HostOutcome) -> ReceiptView {
    ReceiptView {
        envelope,
        result: host_result(o),
        applied_changes: capped_count(write_count(kept_changes(o))),
        ledger: e.ledger.sequence_number,
        created_at: e.ledger.timestamp,
    }
}

/// A fork of which something else is known.
pub open spec fn with_known(e: ForkView, known: Map<Seq<u8>, Option<Held>>) -> ForkView {
    ForkView { source: SourceView { known, ..e.source }, ..e }
}

proof fn lemma_receipts_insert(m: Map<Seq<u8>, Receipt>, k: Seq<u8>, v: Receipt)
    ensures
        receipts_view(m.insert(k, v)) == receipts_view(m).insert(k, v@),
{
    assert(receipts_view(m.insert(k, v)) =~= receipts_view(m).insert(k, v@));
}

impl Worker {
    /// A worker for a fork, on which nothing has been sent yet.
    pub fn new(env: ForkedEnv) -> (r: Worker)
        ensures
            r@ == (WorkerView { env: env@, receipts: Map::empty() }),
    {
        let r = Worker { env, receipts: ByteMap::new() };
        assert(r@.receipts =~= Map::<Seq<u8>, ReceiptView>::empty());
        r
    }

    /// The fork.
    pub fn env(&self) -> (r: &ForkedEnv)
        ensures
            r@ == self@.env,
    {
        &self.env
    }

    /// The fork, to be changed.
    pub fn env_mut(&mut self) -> (r: &mut ForkedEnv)
        ensures
            r@ == old(self)@.env,
            final(self)@ == (WorkerView { env: final(r)@, ..old(self)@ }),
    {
        &mut self.env
    }

    /// Tell which network was forked.
    pub fn get_network(&self) -> (r: NetworkReply)
        ensures
            tells_network(self@.env, r),
    {
        let passphrase = match self.env.passphrase() {
            Some(p) => p.to_owned(),
            None => "Forked Soroban Network (custom network_id)".to_owned(),
        };
        NetworkReply {
            passphrase,
            protocol_version: self.env.protocol_version(),
            network_id_hex: hex_encode(self.env.network_id().as_slice()),
        }
    }

    /// Tell which ledger it is now.
    pub fn get_latest_ledger(&self) -> (r: LatestLedgerReply)
        ensures
            tells_ledger(self@.env, r),
    {
        let sequence: u32 = self.env.ledger_sequence();
        LatestLedgerReply {
            sequence,
            protocol_version: self.env.protocol_version(),
            id: join2("forked-ledger-", u32_text(sequence).as_str()),
        }
    }

    /// Tell which ledger it is now, and its time.
    pub fn get_ledgers_page(&self) -> (r: LedgersPageReply)
        ensures
            r.sequence == self@.env.ledger.sequence_number,
            r.close_time == self@.env.ledger.timestamp,
    {
        LedgersPageReply {
            sequence: self.env.ledger_sequence(),
            close_time: self.env.ledger_close_time(),
        }
    }

    /// Find what is under some keys, in order. Where a key has not been asked
    /// for yet, it is handed back: once it has been fetched, resolving can be
    /// tried again.
    pub fn resolve_ledger_entries(&self, keys: &Vec<LedgerKey>) -> (r: Resolution)
        ensures
            resolves(self@.env.source.known, keys@, r),
    {
        let source = self.env.snapshot_source();
        let mut out: Vec<Option<LedgerRow>> = Vec::new();
        let mut i: usize = 0;
        while i < keys.len()
            invariant
                i <= keys@.len(),
                out@.len() == i,
                source@ == self@.env.source,
                first_unasked(source@.known, keys@, 0) == first_unasked(
                    source@.known,
                    keys@,
                    i as int,
                ),
                forall|j: int|
                    0 <= j < i ==> row_option(#[trigger] out@[j]) == found_under(
                        source@.known,
                        keys@[j]@,
                    ),
                forall|j: int| 0 <= j < i ==> can_be_written(#[trigger] out@[j]),
            decreases keys@.len() - i,
        {
            let key = &keys[i];
            match source.get(key) {
                Ok(Lookup::Miss) => {
                    return Resolution::Missing(key.copied());
                },
                Ok(Lookup::Hit(Some(f))) => {
                    out.push(
                        Some(
                            LedgerRow { key: key.copied(), entry: f.entry, live_until: f.live_until },
                        ),
                    );
                },
                Ok(Lookup::Hit(None)) => {
                    out.push(None);
                },
                Err(_) => {
                    out.push(None);
                },
            }
            assert(row_option(out@[i as int]) == found_under(source@.known, keys@[i as int]@));
            i = i + 1;
        }
        Resolution::Found(out)
    }

    /// Write an entry over whatever is known of its key.
    pub fn set_ledger_entry(&mut self, key: &LedgerKey, entry: &LedgerEntry, live_until: Option<u32>) -> (r:
        Result<(), ForkError>)
        ensures
            (match entry_xdr(entry@) {
                Ok(x) => {
                    &&& r is Ok
                    &&& final(self)@ == (WorkerView {
                        env: with_known(
                            old(self)@.env,
                            old(self)@.env.source.known.insert(key@, Some((x, live_until))),
                        ),
                        ..old(self)@
                    })
                },
                Err(m) => {
                    &&& r matches Err(e) && e@ == ErrorView::Xdr(m)
                    &&& final(self)@ == old(self)@
                },
            }),
            plain(entry@) ==> r is Ok,
            r is Ok ==> settled(entry@) ==> found_under(final(self)@.env.source.known, key@) == Some(
                (RowView { key: key@, entry: entry@, live_until }),
            ),
    {
        let source = self.env.snapshot_source_mut();
        source.set_entry(key, entry, live_until)
    }

    /// Let ledgers close and time pass.
    pub fn close_ledgers(&mut self, ledgers: u32, timestamp_advance_seconds: u64) -> (r: CloseLedgersReply)
        ensures
            final(self)@ == (WorkerView {
                env: ForkView {
                    ledger: warped(old(self)@.env.ledger, ledgers, timestamp_advance_seconds),
                    ..old(self)@.env
                },
                ..old(self)@
            }),
            r.new_sequence == final(self)@.env.ledger.sequence_number,
            r.new_close_time == final(self)@.env.ledger.timestamp,
    {
        self.env.warp(ledgers, timestamp_advance_seconds);
        CloseLedgersReply {
            new_sequence: self.env.ledger_sequence(),
            new_close_time: self.env.ledger_close_time(),
        }
    }

    /// Find what became of a transaction.
    pub fn get_transaction(&self, hash: &[u8; 32]) -> (r: Option<Receipt>)
        ensures
            (match r {
                Some(receipt) => self@.receipts.dom().contains(hash@) && receipt@ == self@.receipts[hash@],
                None => !self@.receipts.dom().contains(hash@),
            }),
    {
        match self.receipts.get(hash.as_slice()) {
            Some(receipt) => Some(receipt.copied()),
            None => None,
        }
    }

    /// Find the fee schedule, for the fee that a simulation names. A schedule
    /// that cannot be read is passed over.
    pub fn fee_schedule(&mut self) -> (r: FeeStep)
        ensures
            tells_schedule(old(self)@, final(self)@, r),
    {
        match self.env.fee_configuration() {
            Ok(FeeProgress::Ready(c)) => FeeStep::Known(Some(c)),
            Ok(FeeProgress::Missing(key)) => FeeStep::Missing(key),
            Err(_) => FeeStep::Known(None),
        }
    }

    /// Take the outcome of a transaction's host function over, and keep a
    /// receipt under the hash that the network knows the transaction by.
    pub fn send_transaction(
        &mut self,
        envelope_bytes: &Vec<u8>,
        source_account: &[u8; 32],
        outcome: HostOutcome,
    ) -> (r: Result<SendReply, ForkError>)
        ensures
            sends(old(self)@, envelope_bytes@, source_account@, outcome, final(self)@, r),
    {
        let network_id = self.env.network_id();
        let hash = match envelope_hash(envelope_bytes.as_slice(), &network_id) {
            Ok(h) => h,
            Err(e) => {
                return Err(ForkError::Xdr(e));
            },
        };
        let ghost known = self@.env.source.known;
        let mut applied_changes: u32 = 0;
        let result = match outcome {
            HostOutcome::Recorded { invoke_result, changes, .. } => {
                match invoke_result {
                    Ok(value) => {
                        let source = self.env.snapshot_source_mut();
                        match source.apply_changes(&changes) {
                            Ok(n) => {
                                applied_changes = n;
                            },
                            Err(e) => {
                                return Err(e);
                            },
                        }
                        let _next = source.bump_account_seq(source_account);
                        Ok(value)
                    },
                    Err(e) => Err(join2("host error: ", e.as_str())),
                }
            },
            HostOutcome::Failed(e) => Err(join2("recording-mode error: ", e.as_str())),
        };
        let receipt = Receipt {
            envelope_bytes: copy_bytes(envelope_bytes),
            result,
            applied_changes,
            ledger: self.env.ledger_sequence(),
            created_at: self.env.ledger_close_time(),
        };
        let kept = receipt.copied();
        proof {
            lemma_receipts_insert(self.receipts@, hash@, kept);
        }
        let hash_bytes = vstd::slice::slice_to_vec(hash.as_slice());
        self.receipts.insert(hash_bytes, kept);
        Ok(SendReply { hash, receipt })
    }
}

/// Whether this is what becomes of the worker, and what it replies, when a
/// transaction is sent whose host function had this outcome.
pub open spec fn sends(
    before: WorkerView,
    envelope: Seq<u8>,
    source_account: Seq<u8>,
    outcome: HostOutcome,
    after: WorkerView,
    r: Result<SendReply, ForkError>,
) -> bool {
    match envelope_hash_of(envelope, before.env.ledger.network_id@) {
        Err(m) => {
            &&& r matches Err(e) && e@ == ErrorView::Xdr(m)
            &&& after == before
        },
        Ok(h) => if let Some(i) = first_bad_key(kept_changes(outcome), 0) {
            &&& r matches Err(e) && e@ == bad_change(kept_changes(outcome)[i])
            &&& after == before
        } else {
            let receipt = receipt_for(before.env, envelope, outcome);
            &&& succeeded(outcome) ==> raised(
                changed_all(before.env.source.known, kept_changes(outcome)),
                source_account,
                after.env.source.known,
            )
            &&& r matches Ok(reply) && reply.hash@ == h && reply.receipt@ == receipt
            &&& after == (WorkerView {
                env: with_known(
                    before.env,
                    after_transaction(before.env.source.known, source_account, outcome),
                ),
                receipts: before.receipts.insert(h, receipt),
            })
        },
    }
}

/// Whether this is what becomes of the worker, and what it tells, when it is
/// asked for the fee schedule.
pub open spec fn tells_schedule(before: WorkerView, after: WorkerView, r: FeeStep) -> bool {
    match before.env.fees {
        Some(c) => r == FeeStep::Known(Some(c)) && after == before,
        None => match schedule_from(before.env.source.known, 0, free_schedule()) {
            FeeOutcome::Ready(c) => {
                &&& r == FeeStep::Known(Some(c))
                &&& after == (WorkerView {
                    env: ForkView { fees: Some(c), ..before.env },
                    ..before
                })
            },
            FeeOutcome::Missing(k) => {
                &&& r matches FeeStep::Missing(key) && key@ == k
                &&& after == before
            },
            FeeOutcome::Failed(_) => {
                &&& r == FeeStep::Known(None)
                &&& after == before
            },
        },
    }
}

/// Whether this is what the worker does with a command, and what it is like
/// afterwards.
pub open spec fn carried_out(w: WorkerView, c: Command, after: WorkerView, r: WorkStep) -> bool {
    match c {
        Command::GetNetwork => {
            &&& r matches WorkStep::Done(Reply::Network(n)) && tells_network(w.env, n)
            &&& after == w
        },
        Command::GetLatestLedger => {
            &&& r matches WorkStep::Done(Reply::LatestLedger(l)) && tells_ledger(w.env, l)
            &&& after == w
        },
        Command::GetLedgersPage => {
            &&& r matches WorkStep::Done(Reply::LedgersPage(p)) && p.sequence == w.env.ledger.sequence_number
                && p.close_time == w.env.ledger.timestamp
            &&& after == w
        },
        Command::GetLedgerEntries { keys } => {
            &&& match first_unasked(w.env.source.known, keys@, 0) {
                Some(i) => r matches WorkStep::Fetch(k) && k@ == keys@[i]@,
                None => r matches WorkStep::Done(Reply::LedgerEntries(e)) && finds(
                    w.env.source.known,
                    keys@,
                    e.entries@,
                ) && e.latest_ledger == w.env.ledger.sequence_number,
            }
            &&& after == w
        },
        Command::SimulateTransaction { .. } => r is Run && after == w,
        Command::SendTransaction { .. } => r is Run && after == w,
        Command::GetTransaction { hash } => {
            &&& r matches WorkStep::Done(Reply::Transaction(t)) && match t {
                Some(receipt) => w.receipts.dom().contains(hash@) && receipt@ == w.receipts[hash@],
                None => !w.receipts.dom().contains(hash@),
            }
            &&& after == w
        },
        Command::SetLedgerEntry { key, entry, live_until } => match entry_xdr(entry@) {
            Ok(x) => {
                &&& r == WorkStep::Done(Reply::Written)
                &&& after == (WorkerView {
                    env: with_known(
                        w.env,
                        w.env.source.known.insert(key@, Some((x, live_until))),
                    ),
                    ..w
                })
                &&& settled(entry@) ==> found_under(after.env.source.known, key@) == Some(
                    (RowView { key: key@, entry: entry@, live_until }),
                )
            },
            Err(m) => {
                &&& r matches WorkStep::Done(Reply::Failed(t)) && t@ == error_text(ErrorView::Xdr(m))
                &&& !plain(entry@)
                &&& after == w
            },
        },
        Command::CloseLedgers { ledgers, timestamp_advance_seconds } => {
            &&& after == (WorkerView {
                env: ForkView {
                    ledger: warped(w.env.ledger, ledgers, timestamp_advance_seconds),
                    ..w.env
                },
                ..w
            })
            &&& r matches WorkStep::Done(Reply::Closed(c)) && c.new_sequence
                == after.env.ledger.sequence_number && c.new_close_time == after.env.ledger.timestamp
        },
    }
}

impl Worker {
    /// Carry a command out, as far as the worker can by itself.
    pub fn step(&mut self, command: &Command) -> (r: WorkStep)
        ensures
            carried_out(old(self)@, *command, final(self)@, r),
    {
        match command {
            Command::GetNetwork => WorkStep::Done(Reply::Network(self.get_network())),
            Command::GetLatestLedger => WorkStep::Done(Reply::LatestLedger(self.get_latest_ledger())),
            Command::GetLedgersPage => WorkStep::Done(Reply::LedgersPage(self.get_ledgers_page())),
            Command::GetLedgerEntries { keys } => match self.resolve_ledger_entries(keys) {
                Resolution::Missing(key) => WorkStep::Fetch(key),
                Resolution::Found(entries) => WorkStep::Done(
                    Reply::LedgerEntries(
                        LedgerEntriesReply { entries, latest_ledger: self.env.ledger_sequence() },
                    ),
                ),
            },
            Command::SimulateTransaction { .. } => WorkStep::Run,
            Command::SendTransaction { .. } => WorkStep::Run,
            Command::GetTransaction { hash } => WorkStep::Done(
                Reply::Transaction(self.get_transaction(hash)),
            ),
            Command::SetLedgerEntry { key, entry, live_until } => {
                match self.set_ledger_entry(key, entry, *live_until) {
                    Ok(_) => WorkStep::Done(Reply::Written),
                    Err(e) => WorkStep::Done(Reply::Failed(e.to_text())),
                }
            },
            Command::CloseLedgers { ledgers, timestamp_advance_seconds } => WorkStep::Done(
                Reply::Closed(self.close_ledgers(*ledgers, *timestamp_advance_seconds)),
            ),
        }
    }
}

// ---------------------------------------------------------------------------
// Laws
// ---------------------------------------------------------------------------

/// What a successful transaction wrote is known from then on: of the writes to
/// a key the last one counts, whatever was known of the key before. Only the
/// entry of the source account is written again afterwards.
pub proof fn law_successful_transactions_are_kept(
    known: Map<Seq<u8>, Option<Held>>,
    source_account: Seq<u8>,
    o: HostOutcome,
    i: int,
    key: Seq<u8>,
)
    requires
        o matches HostOutcome::Recorded { invoke_result, .. } && invoke_result is Ok,
        first_bad_key(o->changes@, 0) is None,
        0 <= i < o->changes@.len(),
        !o->changes@[i].read_only,
        canonical_key_of(o->changes@[i].encoded_key@) == intact(key),
        forall|j: int|
            i < j < o->changes@.len() && !(#[trigger] o->changes@[j]).read_only ==> canonical_key_of(
                o->changes@[j].encoded_key@,
            ) != intact(key),
        key != account_key_xdr(source_account),
    ensures
        after_transaction(known, source_account, o).dom().contains(key),
        o->changes@[i].encoded_new_value is None ==> after_transaction(known, source_account, o)[key] is None,
        o->changes@[i].encoded_new_value matches Some(x) ==> (after_transaction(
            known,
            source_account,
            o,
        )[key] matches Some((bytes, _)) && bytes == x@),
{
    law_last_write_is_known(known, o->changes@, i, key);
}

/// A transaction leaves alone what it did not write, but for the entry of its
/// source account.
pub proof fn law_transactions_touch_written_keys(
    known: Map<Seq<u8>, Option<Held>>,
    source_account: Seq<u8>,
    o: HostOutcome,
    key: Seq<u8>,
)
    requires
        o matches HostOutcome::Recorded { .. },
        first_bad_key(o->changes@, 0) is None,
        forall|i: int|
            0 <= i < o->changes@.len() && !(#[trigger] o->changes@[i]).read_only ==> canonical_key_of(
                o->changes@[i].encoded_key@,
            ) != intact(key),
        key != account_key_xdr(source_account),
    ensures
        looked_up(after_transaction(known, source_account, o), key) == looked_up(known, key),
{
    law_changes_touch_written_keys(known, o->changes@, key);
}

/// The receipt of a transaction tells what came of it: the value that it gave
/// or why it failed, how much was written, and when.
pub proof fn law_receipts_tell_what_happened(e: ForkView, envelope: Seq<u8>, o: HostOutcome)
    ensures
        receipt_for(e, envelope, o).envelope == envelope,
        receipt_for(e, envelope, o).ledger == e.ledger.sequence_number,
        receipt_for(e, envelope, o).created_at == e.ledger.timestamp,
        o matches HostOutcome::Recorded { invoke_result: Ok(v), changes, .. } ==> receipt_for(
            e,
            envelope,
            o,
        ).result == Ok::<Seq<u8>, Seq<char>>(v@) && receipt_for(e, envelope, o).applied_changes == ({
            let writes = changes@.filter(|c: LedgerEntryChange| !c.read_only).len();
            if writes <= u32::MAX {
                writes
            } else {
                u32::MAX as nat
            }
        }),
        o matches HostOutcome::Recorded { invoke_result: Err(m), .. } ==> receipt_for(e, envelope, o).result
            == Err::<Seq<u8>, Seq<char>>("host error: "@ + m@) && receipt_for(e, envelope, o).applied_changes
            == 0,
        o matches HostOutcome::Failed(m) ==> receipt_for(e, envelope, o).result == Err::<
            Seq<u8>,
            Seq<char>,
        >("recording-mode error: "@ + m@) && receipt_for(e, envelope, o).applied_changes == 0,
{
    if let HostOutcome::Recorded { changes, .. } = o {
        law_writes_are_counted(changes@);
    }
}

/// A simulation tells what the host recorded, and of a host that gave up only
/// why it did.
pub proof fn law_simulations_tell_what_was_recorded(
    o: HostOutcome,
    schedule: Option<FeeConfiguration>,
    transaction_size_bytes: u32,
    r: SimulationReply,
)
    requires
        tells_simulation(o, schedule, transaction_size_bytes, r),
    ensures
        o matches HostOutcome::Recorded { invoke_result, auth, resources, contract_events, .. } ==> r.auth
            == auth && r.resources == resources && r.contract_events == contract_events && (
        match invoke_result {
            Ok(v) => r.result matches Ok(x) && x@ == v@,
            Err(m) => r.result matches Err(x) && x@ == "host error: "@ + m@,
        }) && (schedule is None ==> r.min_resource_fee is None),
        o matches HostOutcome::Failed(m) ==> (r.result matches Err(x) && x@ == "recording-mode error: "@
            + m@) && r.auth@.len() == 0 && r.contract_events@.len() == 0 && r.min_resource_fee is None
            && r.resources.read_only@.len() == 0 && r.resources.read_write@.len() == 0
            && r.resources.instructions == 0 && r.resources.disk_read_bytes == 0 && r.resources.write_bytes == 0,
{
}

/// The fee of a simulation is what the network's schedule asks for what the
/// host recorded, both of its parts together.
pub proof fn law_simulated_fees_follow_the_schedule(
    o: HostOutcome,
    c: FeeConfiguration,
    transaction_size_bytes: u32,
    r: SimulationReply,
)
    requires
        tells_simulation(o, Some(c), transaction_size_bytes, r),
        o is Recorded,
        events_size(o->contract_events@) is Some,
        o->resources.read_only@.len() + o->resources.read_write@.len() <= u32::MAX,
    ensures
        ({
            let used = TransactionResources {
                instructions: o->resources.instructions,
                disk_read_entries: (o->resources.read_only@.len() + o->resources.read_write@.len()) as u32,
                write_entries: o->resources.read_write@.len() as u32,
                disk_read_bytes: o->resources.disk_read_bytes,
                write_bytes: o->resources.write_bytes,
                contract_events_size_bytes: (events_size(o->contract_events@)->0) as u32,
                transaction_size_bytes,
            };
            let (refundable, other) = resource_fee_of(used, c);
            r.min_resource_fee matches Some(fee) && (i64::MIN <= refundable + other <= i64::MAX ==> fee
                == refundable + other) && (refundable + other > i64::MAX ==> fee == i64::MAX)
        }),
{
}

/// A transaction that failed leaves the ledger as it was.
pub proof fn law_failed_transactions_change_nothing(
    known: Map<Seq<u8>, Option<Held>>,
    source_account: Seq<u8>,
    o: HostOutcome,
)
    requires
        host_result(o) is Err,
    ensures
        after_transaction(known, source_account, o) == known,
        write_count(kept_changes(o)) == 0,
{
}

/// A transaction that succeeded raises the sequence number of its source
/// account by one, unless the transaction itself wrote that account.
pub proof fn law_sending_raises_the_sequence_number(
    known: Map<Seq<u8>, Option<Held>>,
    source_account: Seq<u8>,
    o: HostOutcome,
)
    requires
        succeeded(o),
        known_account(known, source_account) is Some,
        known_account(changed_all(known, kept_changes(o)), source_account) == known_account(
            known,
            source_account,
        ),
        writable((known_account(known, source_account)->0).0),
    ensures
        raised(known, source_account, after_transaction(known, source_account, o)),
{
    let e = (known_account(known, source_account)->0).0;
    lemma_seq_num_reads_back(e, next_seq_num(e));
}

/// A transaction that was sent is found under its hash, with its receipt; one
/// that was sent before is still found, unless it has the same hash.
pub proof fn law_sent_transactions_are_found(
    receipts: Map<Seq<u8>, ReceiptView>,
    sent: Seq<u8>,
    receipt: ReceiptView,
    w: WorkerView,
    hash: [u8; 32],
    after: WorkerView,
    r: WorkStep,
)
    requires
        w.receipts == receipts.insert(sent, receipt),
        carried_out(w, Command::GetTransaction { hash }, after, r),
    ensures
        hash@ == sent ==> (r matches WorkStep::Done(Reply::Transaction(Some(t))) && t@ == receipt),
        hash@ != sent && receipts.dom().contains(hash@) ==> (r matches WorkStep::Done(
            Reply::Transaction(Some(t)),
        ) && t@ == receipts[hash@]),
        hash@ != sent && !receipts.dom().contains(hash@) ==> (r matches WorkStep::Done(
            Reply::Transaction(None),
        )),
{
}

/// Writing one entry leaves what is found under every other key as it was.
pub proof fn law_commands_write_one_key(
    w: WorkerView,
    key: LedgerKey,
    entry: LedgerEntry,
    live_until: Option<u32>,
    after: WorkerView,
    r: WorkStep,
    other: Seq<u8>,
)
    requires
        carried_out(w, Command::SetLedgerEntry { key, entry, live_until }, after, r),
        other != key@,
    ensures
        found_under(after.env.source.known, other) == found_under(w.env.source.known, other),
        after.env.ledger == w.env.ledger,
        after.receipts == w.receipts,
{
}

/// A step of the worker changes the fork only to write an entry or to close
/// ledgers. Asking for anything, and handing a transaction to the host, leaves
/// the entries, the clock and the receipts as they were.
pub proof fn law_only_writes_and_closing_change_the_fork(w: WorkerView, c: Command, after: WorkerView, r: WorkStep)
    requires
        carried_out(w, c, after, r),
        !(c is SetLedgerEntry),
        !(c is CloseLedgers),
    ensures
        after == w,
{
}

/// What a resolution finds is what is known under each key, in order. It finds
/// nothing until every key has been asked for, and then asks for none.
pub proof fn law_resolutions_find_what_is_known(
    known: Map<Seq<u8>, Option<Held>>,
    keys: Seq<LedgerKey>,
    r: Resolution,
    i: int,
)
    requires
        resolves(known, keys, r),
        0 <= i < keys.len(),
    ensures
        r matches Resolution::Missing(k) ==> !known.dom().contains(k@) && exists|j: int|
            0 <= j < keys.len() && (#[trigger] keys[j])@ == k@,
        r matches Resolution::Found(entries) ==> entries@.len() == keys.len() && known.dom().contains(
            keys[i]@,
        ) && (match known[keys[i]@] {
            None => entries@[i] is None,
            Some((x, live_until)) => match decoded_entry(x) {
                Ok(e) => entries@[i] matches Some(row) && row@ == (RowView { key: keys[i]@, entry: e, live_until }),
                Err(_) => entries@[i] is None,
            },
        }),
{
    lemma_first_missing(known, keys, 0);
    if let Resolution::Found(entries) = r {
        assert(row_option(entries@[i]) == found_under(known, keys[i]@));
    }
}

proof fn lemma_first_missing(known: Map<Seq<u8>, Option<Held>>, keys: Seq<LedgerKey>, from: int)
    requires
        0 <= from <= keys.len(),
    ensures
        (match first_unasked(known, keys, from) {
            None => forall|j: int| from <= j < keys.len() ==> known.dom().contains((#[trigger] keys[j])@),
            Some(i) => from <= i < keys.len() && !known.dom().contains(keys[i]@),
        }),
    decreases keys.len() - from,
{
    if from < keys.len() {
        lemma_first_missing(known, keys, from + 1);
    }
}

/// A receipt stands for what it holds.
pub proof fn law_receipts_stand_for_what_they_hold(r: Receipt)
    ensures
        r@.envelope == r.envelope_bytes@,
        r@.applied_changes == r.applied_changes,
        r@.ledger == r.ledger,
        r@.created_at == r.created_at,
        r.result matches Ok(v) ==> r@.result == Ok::<Seq<u8>, Seq<char>>(v@),
        r.result matches Err(m) ==> r@.result == Err::<Seq<u8>, Seq<char>>(m@),
{
}

/// A transaction whose host function succeeded is kept: what it wrote is found
/// from then on, its receipt is found under its hash, and neither the ledger
/// nor its time moves. Other receipts stay.
pub proof fn law_sent_transactions_are_kept(
    before: WorkerView,
    envelope: Seq<u8>,
    source_account: Seq<u8>,
    outcome: HostOutcome,
    after: WorkerView,
    r: Result<SendReply, ForkError>,
    i: int,
    key: Seq<u8>,
    other: Seq<u8>,
)
    requires
        sends(before, envelope, source_account, outcome, after, r),
        r is Ok,
        outcome matches HostOutcome::Recorded { invoke_result, .. } && invoke_result is Ok,
        0 <= i < outcome->changes@.len(),
        !outcome->changes@[i].read_only,
        canonical_key_of(outcome->changes@[i].encoded_key@) == intact(key),
        forall|j: int|
            i < j < outcome->changes@.len() && !(#[trigger] outcome->changes@[j]).read_only
                ==> canonical_key_of(outcome->changes@[j].encoded_key@) != intact(key),
        key != account_key_xdr(source_account),
        other != r->Ok_0.hash@,
    ensures
        match outcome->changes@[i].encoded_new_value {
            None => found_under(after.env.source.known, key) is None && after.env.source.known.dom().contains(
                key,
            ),
            Some(x) => decoded_entry(x@) matches Ok(e) ==> (found_under(after.env.source.known, key) matches Some(
                row,
            ) && row.key == key && row.entry == e),
        },
        envelope_hash_of(envelope, before.env.ledger.network_id@) == Ok::<Seq<u8>, Seq<char>>(
            r->Ok_0.hash@,
        ),
        after.receipts.dom().contains(r->Ok_0.hash@),
        after.receipts[r->Ok_0.hash@] == r->Ok_0.receipt@,
        r->Ok_0.receipt@.result == Ok::<Seq<u8>, Seq<char>>((outcome->invoke_result)->Ok_0@),
        r->Ok_0.receipt@.envelope == envelope,
        after.receipts.dom().contains(other) == before.receipts.dom().contains(other),
        before.receipts.dom().contains(other) ==> after.receipts[other] == before.receipts[other],
        after.env.ledger == before.env.ledger,
{
    law_successful_transactions_are_kept(before.env.source.known, source_account, outcome, i, key);
}

/// A transaction whose host function failed leaves a receipt that tells why,
/// and nothing else.
pub proof fn law_failed_transactions_leave_a_receipt(
    before: WorkerView,
    envelope: Seq<u8>,
    source_account: Seq<u8>,
    outcome: HostOutcome,
    after: WorkerView,
    r: Result<SendReply, ForkError>,
)
    requires
        sends(before, envelope, source_account, outcome, after, r),
        match outcome {
            HostOutcome::Recorded { invoke_result, .. } => invoke_result is Err,
            HostOutcome::Failed(_) => true,
        },
        envelope_hash_of(envelope, before.env.ledger.network_id@) is Ok,
    ensures
        after.env == before.env,
        r matches Ok(reply) && reply.receipt@.result is Err && reply.receipt@.applied_changes == 0
            && after.receipts == before.receipts.insert(reply.hash@, reply.receipt@),
{
}

/// What cannot be hashed is not sent.
pub proof fn law_unreadable_envelopes_are_not_sent(
    before: WorkerView,
    envelope: Seq<u8>,
    source_account: Seq<u8>,
    outcome: HostOutcome,
    after: WorkerView,
    r: Result<SendReply, ForkError>,
)
    requires
        sends(before, envelope, source_account, outcome, after, r),
        envelope_hash_of(envelope, before.env.ledger.network_id@) is Err,
    ensures
        r is Err,
        after == before,
{
}

/// The fee schedule is read once and then kept; one that cannot be read is
/// told to be unknown, and nothing but the schedule changes.
pub proof fn law_schedules_are_kept(before: WorkerView, after: WorkerView, r: FeeStep)
    requires
        tells_schedule(before, after, r),
    ensures
        before.env.fees matches Some(c) ==> r == FeeStep::Known(Some(c)) && after == before,
        r matches FeeStep::Known(Some(c)) ==> after.env.fees == Some(c),
        before.env.fees is None ==> (schedule_from(before.env.source.known, 0, free_schedule()) is Failed
            <==> r == FeeStep::Known(None)),
        after.env.source == before.env.source,
        after.env.ledger == before.env.ledger,
        after.receipts == before.receipts,
{
}

/// A successful transaction moves its source account on: the account's
/// sequence number goes up by one, and nothing else of it changes that the
/// transaction did not write.
pub proof fn law_senders_move_on(
    before: WorkerView,
    envelope: Seq<u8>,
    source_account: Seq<u8>,
    outcome: HostOutcome,
    after: WorkerView,
    r: Result<SendReply, ForkError>,
    e: EntryView,
    a: AccountView,
    live_until: Option<u32>,
)
    requires
        sends(before, envelope, source_account, outcome, after, r),
        r is Ok,
        outcome matches HostOutcome::Recorded { invoke_result, .. } && invoke_result is Ok,
        looked_up(
            changed_all(before.env.source.known, outcome->changes@),
            account_key_xdr(source_account),
        ) == Ok::<LookupView, Seq<char>>(LookupView::Hit(Some((e, live_until)))),
        e.data == DataView::Account(a),
        a.seq_num < i64::MAX,
    ensures
        looked_up(after.env.source.known, account_key_xdr(source_account)) == Ok::<LookupView, Seq<char>>(
            LookupView::Hit(
                Some(
                    (
                        EntryView {
                            last_modified_ledger_seq: e.last_modified_ledger_seq,
                            data: DataView::Account(
                                AccountView { seq_num: (a.seq_num + 1) as i64, ..a },
                            ),
                            ext: e.ext,
                        },
                        live_until,
                    ),
                ),
            ),
        ),
{
}

/// A simulation also tells what it was handed: the diagnostic events, the
/// ledger and the memory.
pub proof fn law_simulations_tell_what_they_were_handed(
    outcome: HostOutcome,
    diagnostic_events: Vec<Vec<u8>>,
    latest_ledger: u32,
    mem_bytes: Option<u64>,
    schedule: Option<FeeConfiguration>,
    transaction_size_bytes: u32,
    r: SimulationReply,
)
    requires
        call_ensures(
            simulate_transaction,
            (
                outcome,
                diagnostic_events,
                latest_ledger,
                mem_bytes,
                schedule,
                transaction_size_bytes,
            ),
            r,
        ),
    ensures
        r.diagnostic_events == diagnostic_events,
        r.latest_ledger == latest_ledger,
        r.mem_bytes == mem_bytes,
        outcome matches HostOutcome::Recorded { invoke_result, .. } ==> (r.result is Ok
            <==> invoke_result is Ok),
        outcome is Failed ==> r.result is Err,
{
}

} // verus!

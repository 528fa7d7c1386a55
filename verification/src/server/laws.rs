//! What a client can rely on from the request to the answer.
//!
//! Each law follows one request: what the method asks of the worker, what the
//! worker does, and what the answer then says.

use vstd::prelude::*;
use vstd::utf8::encode_utf8;

use crate::strkey::{account_of_strkey, contract_of_strkey};
use crate::scval::{i128_value};
use crate::source::{Held, LedgerRow, RowView};
use crate::ledger::{
    data_xdr, decoded_entry, AccountView, ContractDataView, DataView, EntryView, LedgerKey,
    TrustLineView,
};
use crate::transaction::{
    account_scval_xdr, call_envelope_xdr, call_xdr, contract_code_xdr, envelope_of, i128_scval_xdr,
    instance_storage_of, instance_xdr, law_numbers_read_back, number_xdr, operation_of,
    transaction_of, used_xdr, BodyView, EnvelopeView,
};
use crate::codec::{
    account_key_xdr, asset_xdr, base64_decoded, be32, canonical_key_of, canonical_scval_of,
    contract_address_xdr, contract_code_key_xdr, contract_data_key_xdr, diagnostic_event_of,
    instance_key_scval, intact, sha256_of, trustline_key_xdr, Durability, TrustLineAsset,
};
use crate::server::actor::{
    carried_out, first_unasked, found_under, row_option, Command, LatestLedgerReply,
    LedgerEntriesReply, LedgersPageReply, Reply, SendReply, SimulationReply, WorkStep, WorkerView,
};
use crate::server::handlers::{
    first_refused, first_unwrappable, hash_spelled, key_name, law_hashes_read_back,
    law_only_existing_entries_are_shown, nibble, on_the_wire, padded, param_account, param_bytes,
    param_contract, param_entry, param_key, param_scval, plans, present, resumes, showable, shows,
    shows_success, starts, Pending, Progress, Request, Response, TokenPlan,
};
use crate::server::types::{
    AssetWire, CloseLedgersParams, EtchParams, GetLedgerEntriesParams, GetLedgerEntriesResponse,
    GetTransactionParams, JsonRpcError, SendTransactionParams, SetBalanceParams, SetCodeParams,
    SetLedgerEntryParams, SetStorageParams, SimulateTransactionParams, SimulateTransactionResponse,
    StorageDurability,
};
use crate::text::{decimal, hex, law_decimals_read_back, parsed_int, parsed_nat};

verus! {

// ---------------------------------------------------------------------------
// Closing ledgers
// ---------------------------------------------------------------------------

/// Where `fork_closeLedgers` names seconds, exactly that many pass, whatever
/// number of ledgers it names; only where it names none do five seconds pass
/// for each ledger. As many ledgers close as it names, one where it names
/// none. Neither counter runs over.
pub proof fn law_closing_moves_the_clock(
    params: CloseLedgersParams,
    command: Command,
    then: Pending,
    w: WorkerView,
    after: WorkerView,
    r: WorkStep,
)
    requires
        starts(Request::CloseLedgers(params), Progress::Ask { command, then }),
        carried_out(w, command, after, r),
    ensures
        params.timestamp_advance_seconds matches Some(n) ==> after.env.ledger.timestamp == (if w.env.ledger.timestamp
            + n <= u64::MAX {
            w.env.ledger.timestamp + n
        } else {
            u64::MAX as int
        }),
        params.timestamp_advance_seconds is None ==> after.env.ledger.timestamp == ({
            let passed = 5 * (match params.ledgers {
                Some(n) => n as int,
                None => 1,
            });
            if w.env.ledger.timestamp + passed <= u64::MAX {
                w.env.ledger.timestamp + passed
            } else {
                u64::MAX as int
            }
        }),
        params.ledgers matches Some(n) ==> after.env.ledger.sequence_number == (if w.env.ledger.sequence_number
            + n <= u32::MAX {
            w.env.ledger.sequence_number + n
        } else {
            u32::MAX as int
        }),
        params.ledgers is None && w.env.ledger.sequence_number < u32::MAX ==> after.env.ledger.sequence_number
            == w.env.ledger.sequence_number + 1,
{
}

/// The answer to `fork_closeLedgers` tells the ledger and the time that the
/// fork is at from then on.
pub proof fn law_closing_tells_the_new_ledger(
    params: CloseLedgersParams,
    command: Command,
    then: Pending,
    w: WorkerView,
    after: WorkerView,
    reply: Reply,
    p: Progress,
)
    requires
        starts(Request::CloseLedgers(params), Progress::Ask { command, then }),
        carried_out(w, command, after, WorkStep::Done(reply)),
        resumes(then, reply, p),
    ensures
        p matches Progress::Done(Ok(Response::Closed(b))) && b.new_sequence == after.env.ledger.sequence_number
            && b.new_close_time@ == decimal(after.env.ledger.timestamp as int),
        after.env.source == w.env.source,
        after.receipts == w.receipts,
{
}

// ---------------------------------------------------------------------------
// Simulating
// ---------------------------------------------------------------------------

/// The answer to a simulation that gave a value holds all that the simulation
/// recorded: each authorization and each event has a text of its own, in
/// order, that decodes to it, and there are no others.
pub proof fn law_simulation_answers_hold_everything(reply: SimulationReply, body: SimulateTransactionResponse)
    requires
        reply.result is Ok,
        on_the_wire(reply, Ok(body)) || resumes(
            Pending::Simulation,
            Reply::Simulation(reply),
            Progress::Done(Ok(Response::Simulation(body))),
        ),
    ensures
        body.results matches Some(v) && v@.len() == 1 && v@[0].auth@.len() == reply.auth@.len() && (forall|
            i: int,
        |
            0 <= i < reply.auth@.len() ==> base64_decoded((#[trigger] v@[0].auth@[i])@) == Ok::<
                Seq<u8>,
                Seq<char>,
            >(reply.auth@[i]@)) && base64_decoded(v@[0].xdr@) == Ok::<Seq<u8>, Seq<char>>(
            reply.result->Ok_0@,
        ),
        body.events matches Some(v) && v@.len() == reply.contract_events@.len()
            + reply.diagnostic_events@.len() && (forall|i: int|
            0 <= i < reply.contract_events@.len() ==> base64_decoded((#[trigger] v@[i])@)
                == diagnostic_event_of(true, reply.contract_events@[i]@)) && (forall|i: int|
            reply.contract_events@.len() <= i < v@.len() ==> base64_decoded((#[trigger] v@[i])@) == Ok::<
                Seq<u8>,
                Seq<char>,
            >(reply.diagnostic_events@[i - reply.contract_events@.len()]@)),
{
    assert(shows_success(reply, body));
    lemma_success_holds_everything(reply, body);
}

proof fn lemma_success_holds_everything(reply: SimulationReply, body: SimulateTransactionResponse)
    requires
        shows_success(reply, body),
    ensures
        body.results matches Some(v) && v@.len() == 1 && v@[0].auth@.len() == reply.auth@.len() && (forall|
            i: int,
        |
            0 <= i < reply.auth@.len() ==> base64_decoded((#[trigger] v@[0].auth@[i])@) == Ok::<
                Seq<u8>,
                Seq<char>,
            >(reply.auth@[i]@)) && base64_decoded(v@[0].xdr@) == Ok::<Seq<u8>, Seq<char>>(
            reply.result->Ok_0@,
        ),
        body.events matches Some(v) && v@.len() == reply.contract_events@.len()
            + reply.diagnostic_events@.len() && (forall|i: int|
            0 <= i < reply.contract_events@.len() ==> base64_decoded((#[trigger] v@[i])@)
                == diagnostic_event_of(true, reply.contract_events@[i]@)) && (forall|i: int|
            reply.contract_events@.len() <= i < v@.len() ==> base64_decoded((#[trigger] v@[i])@) == Ok::<
                Seq<u8>,
                Seq<char>,
            >(reply.diagnostic_events@[i - reply.contract_events@.len()]@)),
{
    let n = reply.contract_events@.len();
    let v = body.events->0@;
    assert forall|i: int| 0 <= i < n implies base64_decoded((#[trigger] v[i])@) == diagnostic_event_of(
        true,
        reply.contract_events@[i]@,
    ) by {
        assert(v.take(n as int)[i] == v[i]);
    }
    assert forall|i: int| n <= i < v.len() implies base64_decoded((#[trigger] v[i])@) == Ok::<
        Seq<u8>,
        Seq<char>,
    >(reply.diagnostic_events@[i - n]@) by {
        assert(v.skip(n as int)[i - n] == v[i]);
    }
}

/// The answer to a simulation that failed tells why and holds nothing else.
pub proof fn law_failed_simulations_tell_why(reply: SimulationReply, p: Progress)
    requires
        reply.result is Err,
        resumes(Pending::Simulation, Reply::Simulation(reply), p),
    ensures
        p matches Progress::Done(Ok(Response::Simulation(b))) && (b.error matches Some(e) && e@
            == reply.result->Err_0@) && b.latest_ledger == reply.latest_ledger && b.transaction_data is None
            && b.min_resource_fee is None && b.events is None && b.results is None && b.cost is None,
{
}

/// The answer to a simulation that gave a value tells the fee, the costs and
/// the ledger of the simulation, and no error.
pub proof fn law_simulation_answers_tell_the_costs(reply: SimulationReply, body: SimulateTransactionResponse)
    requires
        reply.result is Ok,
        on_the_wire(reply, Ok(body)),
    ensures
        body.latest_ledger == reply.latest_ledger,
        body.error is None,
        body.min_resource_fee is Some <==> reply.min_resource_fee is Some,
        reply.min_resource_fee matches Some(n) ==> parsed_int((body.min_resource_fee->0)@) == Some(n as int),
        body.cost is Some <==> reply.mem_bytes is Some,
        reply.mem_bytes matches Some(n) ==> parsed_nat((body.cost->0).mem_bytes@) == Some(n as nat)
            && parsed_nat((body.cost->0).cpu_insns@) == Some(reply.resources.instructions as nat),
{
    if reply.min_resource_fee is Some {
        law_decimals_read_back(reply.min_resource_fee->0 as int);
    }
    if reply.mem_bytes is Some {
        law_decimals_read_back(reply.mem_bytes->0 as int);
        law_decimals_read_back(reply.resources.instructions as int);
    }
}

/// A simulation that gave a value is answered wherever what it used and what
/// it announced can be written down.
pub proof fn law_simulations_are_answered(reply: SimulationReply, p: Progress)
    requires
        reply.result is Ok,
        used_xdr(
            reply.resources,
            match reply.min_resource_fee {
                Some(n) => n,
                None => 0,
            },
        ) is Ok,
        forall|i: int|
            0 <= i < reply.contract_events@.len() ==> diagnostic_event_of(
                true,
                (#[trigger] reply.contract_events@[i])@,
            ) is Ok,
        resumes(Pending::Simulation, Reply::Simulation(reply), p),
    ensures
        p matches Progress::Done(Ok(Response::Simulation(b))) && (b.transaction_data matches Some(t)
            && base64_decoded(t@) == used_xdr(
            reply.resources,
            match reply.min_resource_fee {
                Some(n) => n,
                None => 0,
            },
        )),
{
    lemma_all_wrappable(reply.contract_events@, 0);
}

proof fn lemma_all_wrappable(v: Seq<Vec<u8>>, from: int)
    requires
        0 <= from,
        forall|i: int| 0 <= i < v.len() ==> diagnostic_event_of(true, (#[trigger] v[i])@) is Ok,
    ensures
        first_unwrappable(v, from) is None,
    decreases v.len() - from,
{
    if from < v.len() {
        lemma_all_wrappable(v, from + 1);
    }
}

// ---------------------------------------------------------------------------
// Where the fork is
// ---------------------------------------------------------------------------

/// `getHealth` tells that the server is healthy and the one ledger that the
/// fork holds.
pub proof fn law_health_tells_the_ledger(
    command: Command,
    then: Pending,
    w: WorkerView,
    after: WorkerView,
    reply: Reply,
    p: Progress,
)
    requires
        starts(Request::GetHealth, Progress::Ask { command, then }),
        carried_out(w, command, after, WorkStep::Done(reply)),
        resumes(then, reply, p),
    ensures
        after == w,
        p matches Progress::Done(Ok(Response::Health(b))) && b.status@ == "healthy"@ && b.latest_ledger
            == w.env.ledger.sequence_number && b.oldest_ledger == w.env.ledger.sequence_number
            && b.ledger_retention_window == 0,
{
}

/// `getLatestLedger` tells the ledger and the protocol that the fork is at.
pub proof fn law_latest_ledger_is_the_forks(
    command: Command,
    then: Pending,
    w: WorkerView,
    after: WorkerView,
    reply: Reply,
    p: Progress,
)
    requires
        starts(Request::GetLatestLedger, Progress::Ask { command, then }),
        carried_out(w, command, after, WorkStep::Done(reply)),
        resumes(then, reply, p),
    ensures
        after == w,
        p matches Progress::Done(Ok(Response::LatestLedger(b))) && b.sequence == w.env.ledger.sequence_number
            && b.protocol_version == w.env.ledger.protocol_version && b.id@ == "forked-ledger-"@ + decimal(
            w.env.ledger.sequence_number as int,
        ),
{
}

/// `getLedgers` tells one ledger, the one that the fork is at, with its time.
pub proof fn law_ledgers_are_the_forks(
    command: Command,
    then: Pending,
    w: WorkerView,
    after: WorkerView,
    reply: Reply,
    p: Progress,
)
    requires
        starts(Request::GetLedgers, Progress::Ask { command, then }),
        carried_out(w, command, after, WorkStep::Done(reply)),
        resumes(then, reply, p),
    ensures
        after == w,
        p matches Progress::Done(Ok(Response::Ledgers(b))) && {
            let now = w.env.ledger;
            &&& b.ledgers@.len() == 1
            &&& b.ledgers@[0].sequence == now.sequence_number
            &&& b.latest_ledger == now.sequence_number
            &&& b.oldest_ledger == now.sequence_number
            &&& parsed_nat(b.ledgers@[0].ledger_close_time@) == Some(now.timestamp as nat)
            &&& parsed_nat(b.latest_ledger_close_time@) == Some(now.timestamp as nat)
            &&& parsed_nat(b.oldest_ledger_close_time@) == Some(now.timestamp as nat)
            &&& b.ledgers@[0].hash@ == "forked-ledger-hash-"@ + decimal(now.sequence_number as int)
        },
{
    law_decimals_read_back(w.env.ledger.timestamp as int);
}

/// `getNetwork` tells the network that was forked: its passphrase where it is
/// known, its protocol, and its id, which reads back from its text.
pub proof fn law_network_is_the_forked_one(
    command: Command,
    then: Pending,
    w: WorkerView,
    after: WorkerView,
    reply: Reply,
    p: Progress,
)
    requires
        starts(Request::GetNetwork, Progress::Ask { command, then }),
        carried_out(w, command, after, WorkStep::Done(reply)),
        resumes(then, reply, p),
    ensures
        after == w,
        p matches Progress::Done(Ok(Response::Network(b))) && b.protocol_version
            == w.env.ledger.protocol_version && b.friendbot_url is None && hash_spelled(b.network_id@) == Some(
            w.env.ledger.network_id@,
        ) && (w.env.passphrase matches Some(t) ==> b.passphrase@ == t) && (w.env.passphrase is None
            ==> b.passphrase@ == "Forked Soroban Network (custom network_id)"@),
{
    law_hashes_read_back(w.env.ledger.network_id@);
}

/// `getVersionInfo` tells the version that it was handed and the protocol of
/// the fork.
pub proof fn law_version_is_told(
    version: String,
    command: Command,
    then: Pending,
    w: WorkerView,
    after: WorkerView,
    reply: Reply,
    p: Progress,
)
    requires
        starts(Request::GetVersionInfo { version }, Progress::Ask { command, then }),
        carried_out(w, command, after, WorkStep::Done(reply)),
        resumes(then, reply, p),
    ensures
        after == w,
        p matches Progress::Done(Ok(Response::VersionInfo(b))) && b.version@ == version@
            && b.protocol_version == w.env.ledger.protocol_version && b.commit_hash@ == "unknown"@
            && b.build_timestamp@ == "unknown"@ && b.captive_core_version@ == "n/a (forked-RPC mode)"@,
{
}

// ---------------------------------------------------------------------------
// Reading entries
// ---------------------------------------------------------------------------

/// Whether a parameter is the base64 of this ledger key.
pub open spec fn spells_key(text: Seq<char>, key: Seq<u8>) -> bool {
    base64_decoded(text) matches Ok(b) && canonical_key_of(b) == intact(key)
}

/// Whether a parameter is the base64 of a ledger key.
pub open spec fn is_key(text: Seq<char>) -> bool {
    exists|key: Seq<u8>| spells_key(text, key)
}

/// `getLedgerEntries` looks for just the keys that it is asked for, in order.
pub proof fn law_requested_keys_are_looked_for(
    params: GetLedgerEntriesParams,
    wanted: Seq<Seq<u8>>,
    p: Progress,
)
    requires
        params.keys@.len() > 0,
        wanted.len() == params.keys@.len(),
        forall|i: int| 0 <= i < wanted.len() ==> spells_key((#[trigger] params.keys@[i])@, wanted[i]),
        starts(Request::GetLedgerEntries(params), p),
    ensures
        p matches Progress::Ask { command: Command::GetLedgerEntries { keys }, then: Pending::LedgerEntries }
            && keys@.len() == wanted.len() && (forall|i: int|
            0 <= i < wanted.len() ==> (#[trigger] keys@[i])@ == wanted[i]),
{
    lemma_no_key_refused(params.keys@, wanted, 0);
    if let Progress::Ask { command: Command::GetLedgerEntries { keys }, then } = p {
        assert forall|i: int| 0 <= i < wanted.len() implies (#[trigger] keys@[i])@ == wanted[i] by {
            assert(spells_key(params.keys@[i]@, wanted[i]));
        }
    }
}

/// `getLedgerEntries` refuses to look for nothing, and for what is no key.
pub proof fn law_bad_keys_are_refused(params: GetLedgerEntriesParams, i: int, p: Progress)
    requires
        starts(Request::GetLedgerEntries(params), p),
        params.keys@.len() == 0 || 0 <= i < params.keys@.len() && !is_key(params.keys@[i]@),
    ensures
        p matches Progress::Done(Err(e)) && e.code == -32602,
{
    if params.keys@.len() > 0 {
        match param_key(key_name(i), params.keys@[i]@) {
            Ok(k) => assert(spells_key(params.keys@[i]@, k)),
            Err(_) => lemma_some_key_refused(params.keys@, 0, i),
        }
    }
}

/// The worker finds an entry where it knows one, and nothing where it knows
/// that there is none. It asks for the first key that it knows nothing of,
/// and for none that it knows.
pub proof fn law_known_entries_are_found(
    w: WorkerView,
    keys: Vec<LedgerKey>,
    after: WorkerView,
    r: WorkStep,
    i: int,
)
    requires
        carried_out(w, Command::GetLedgerEntries { keys }, after, r),
        0 <= i < keys@.len(),
    ensures
        after == w,
        (forall|j: int| 0 <= j < keys@.len() ==> w.env.source.known.dom().contains((#[trigger] keys@[j])@))
            <==> r is Done,
        r matches WorkStep::Fetch(k) ==> !w.env.source.known.dom().contains(k@) && exists|j: int|
            0 <= j < keys@.len() && (#[trigger] keys@[j])@ == k@,
        r matches WorkStep::Done(reply) ==> (reply matches Reply::LedgerEntries(found)
            && found.latest_ledger == w.env.ledger.sequence_number && found.entries@.len() == keys@.len() && (
        match w.env.source.known[keys@[i]@] {
            None => found.entries@[i] is None,
            Some((x, live_until)) => match decoded_entry(x) {
                Ok(e) => found.entries@[i] matches Some(row) && row.key@ == keys@[i]@ && row.entry@ == e
                    && row.live_until == live_until,
                Err(_) => found.entries@[i] is None,
            },
        })),
        !(r is Run),
{
    lemma_first_unasked(w.env.source.known, keys@, 0);
    if r is Done {
        let found = (r->Done_0)->LedgerEntries_0;
        assert(row_option(found.entries@[i]) == found_under(w.env.source.known, keys@[i]@));
        assert(w.env.source.known.dom().contains(keys@[i]@));
    }
}

/// Every entry that was found is shown, at its place among those that exist:
/// its key and its data decode from their texts. Nothing else is shown.
pub proof fn law_found_entries_are_shown(
    found: LedgerEntriesReply,
    b: GetLedgerEntriesResponse,
    i: int,
)
    requires
        resumes(
            Pending::LedgerEntries,
            Reply::LedgerEntries(found),
            Progress::Done(Ok(Response::LedgerEntries(b))),
        ),
        0 <= i < found.entries@.len(),
    ensures
        b.latest_ledger == found.latest_ledger,
        b.entries@.len() == found.entries@.filter(|e: Option<LedgerRow>| e is Some).len(),
        found.entries@[i] matches Some(row) ==> {
            let n = found.entries@.take(i).filter(|e: Option<LedgerRow>| e is Some).len();
            &&& n < b.entries@.len()
            &&& base64_decoded(b.entries@[n as int].key@) == Ok::<Seq<u8>, Seq<char>>(row.key@)
            &&& data_xdr(row.entry@.data) matches Some(x) && base64_decoded(b.entries@[n as int].xdr@) == Ok::<
                Seq<u8>,
                Seq<char>,
            >(x)
            &&& b.entries@[n as int].last_modified_ledger_seq == row.entry.last_modified_ledger_seq
            &&& b.entries@[n as int].live_until_ledger_seq == row.live_until
        },
{
    let rows = present(found.entries@);
    assert(showable(rows));
    lemma_present_counts(found.entries@);
    lemma_present_counts(found.entries@.take(i));
    law_only_existing_entries_are_shown(found.entries@, i);
    if let Some(row) = found.entries@[i] {
        let n = present(found.entries@.take(i)).len() as int;
        assert(rows[n] == row@);
        assert(shows(b.entries@[n], rows[n]));
    }
}

proof fn lemma_present_counts(entries: Seq<Option<LedgerRow>>)
    ensures
        present(entries).len() == entries.filter(|e: Option<LedgerRow>| e is Some).len(),
    decreases entries.len(),
{
    reveal(Seq::filter);
    if entries.len() > 0 {
        lemma_present_counts(entries.drop_last());
    }
}

proof fn lemma_no_key_refused(keys: Seq<String>, wanted: Seq<Seq<u8>>, from: int)
    requires
        0 <= from,
        wanted.len() == keys.len(),
        forall|i: int| 0 <= i < wanted.len() ==> spells_key((#[trigger] keys[i])@, wanted[i]),
    ensures
        first_refused(keys, from) is None,
    decreases keys.len() - from,
{
    if from < keys.len() {
        assert(spells_key(keys[from]@, wanted[from]));
        lemma_no_key_refused(keys, wanted, from + 1);
    }
}

proof fn lemma_some_key_refused(keys: Seq<String>, from: int, i: int)
    requires
        0 <= from <= i < keys.len(),
        param_key(key_name(i), keys[i]@) is Err,
    ensures
        first_refused(keys, from) is Some,
    decreases i - from,
{
    if from < i {
        lemma_some_key_refused(keys, from + 1, i);
    }
}

proof fn lemma_first_unasked(known: Map<Seq<u8>, Option<Held>>, keys: Seq<LedgerKey>, from: int)
    requires
        0 <= from <= keys.len(),
    ensures
        (match first_unasked(known, keys, from) {
            None => forall|j: int| from <= j < keys.len() ==> known.dom().contains((#[trigger] keys[j])@),
            Some(i) => from <= i < keys.len() && !known.dom().contains(keys[i]@) && forall|j: int|
                from <= j < i ==> known.dom().contains((#[trigger] keys[j])@),
        }),
    decreases keys.len() - from,
{
    if from < keys.len() {
        lemma_first_unasked(known, keys, from + 1);
    }
}

// ---------------------------------------------------------------------------
// Sending and finding transactions
// ---------------------------------------------------------------------------

/// Whether an envelope holds one operation, which invokes this host function,
/// and whose source is this account: its own, or else the transaction's.
pub open spec fn invokes(envelope: EnvelopeView, function: Seq<u8>, account: Seq<u8>) -> bool {
    &&& envelope is V1 || envelope is FeeBump
    &&& transaction_of(inside(envelope)) matches Some(t) && t.operations.len() == 1 && (operation_of(
        t.operations[0],
    ) matches Some(op) && op.body == BodyView::InvokeHostFunction(function) && account == (match op.source {
        Some(own) => own,
        None => t.source,
    }))
}

/// The transaction inside an envelope; of a fee bump, the one that it pays for.
pub open spec fn inside(envelope: EnvelopeView) -> Seq<u8> {
    match envelope {
        EnvelopeView::V0 => Seq::empty(),
        EnvelopeView::V1(tx) => tx,
        EnvelopeView::FeeBump(tx) => tx,
    }
}

/// Sending and simulating run the host function that the envelope invokes, as
/// the account that it names, and pass the envelope on unchanged.
pub proof fn law_envelopes_are_run(
    params: SimulateTransactionParams,
    bytes: Seq<u8>,
    envelope: EnvelopeView,
    function: Seq<u8>,
    account: Seq<u8>,
    simulated: Progress,
    sent: Progress,
)
    requires
        base64_decoded(params.transaction@) == intact(bytes),
        envelope_of(bytes) == Ok::<EnvelopeView, Seq<char>>(envelope),
        invokes(envelope, function, account),
        bytes.len() <= u32::MAX,
        starts(Request::SimulateTransaction(params), simulated),
        starts(
            Request::SendTransaction(SendTransactionParams { transaction: params.transaction }),
            sent,
        ),
    ensures
        simulated matches Progress::Ask {
            command: Command::SimulateTransaction { host_function, source_account, transaction_size_bytes },
            then: Pending::Simulation,
        } && host_function@ == function && source_account@ == account && transaction_size_bytes == bytes.len(),
        sent matches Progress::Ask {
            command: Command::SendTransaction { envelope_bytes, host_function, source_account },
            then: Pending::Sending { envelope: text },
        } && envelope_bytes@ == bytes && host_function@ == function && source_account@ == account && text@
            == params.transaction@,
{
}

/// What is no envelope with one invocation of a host function is refused: bad
/// base64, bad XDR, an envelope of the oldest kind, none or several
/// operations, and any other operation.
pub proof fn law_other_envelopes_are_refused(
    params: SimulateTransactionParams,
    simulated: Progress,
    sent: Progress,
)
    requires
        match base64_decoded(params.transaction@) {
            Err(_) => true,
            Ok(bytes) => match envelope_of(bytes) {
                Err(_) => true,
                Ok(envelope) => envelope is V0 || transaction_of(inside(envelope))->0.operations.len() != 1
                    || operation_of(transaction_of(inside(envelope))->0.operations[0])->0.body is Other,
            },
        },
        starts(Request::SimulateTransaction(params), simulated),
        starts(
            Request::SendTransaction(SendTransactionParams { transaction: params.transaction }),
            sent,
        ),
    ensures
        simulated matches Progress::Done(Err(e)) && e.code == -32602,
        sent matches Progress::Done(Err(e)) && e.code == -32602,
{
}

/// The answer to `sendTransaction` tells the hash, by which the transaction is
/// found again, the envelope as it was sent, and whether the transaction
/// succeeded.
pub proof fn law_sent_transactions_are_answered(
    envelope: String,
    sent: SendReply,
    asked: Progress,
    ledger: LatestLedgerReply,
    timed: Progress,
    page: LedgersPageReply,
    p: Progress,
)
    requires
        resumes(Pending::Sending { envelope }, Reply::Sent(sent), asked),
        asked matches Progress::Ask { then, .. } && resumes(then, Reply::LatestLedger(ledger), timed),
        timed matches Progress::Ask { then, .. } && resumes(then, Reply::LedgersPage(page), p),
    ensures
        p matches Progress::Done(Ok(Response::Sent(b))) && {
            &&& hash_spelled(b.hash@) == Some(sent.hash@)
            &&& b.envelope_xdr@ == envelope@
            &&& b.latest_ledger == ledger.sequence
            &&& parsed_nat(b.latest_ledger_close_time@) == Some(page.close_time as nat)
            &&& b.applied_changes == sent.receipt.applied_changes
            &&& sent.receipt.result is Ok ==> b.status@ == "SUCCESS"@ && b.error_message is None
            &&& sent.receipt.result matches Err(m) ==> b.status@ == "ERROR"@ && (b.error_message matches Some(
                t,
            ) && t@ == m@)
        },
{
    law_hashes_read_back(sent.hash@);
    law_decimals_read_back(page.close_time as int);
}

/// A transaction that was sent is found by its hash: the answer tells what its
/// receipt says, and the envelope and the value decode from their texts.
/// Another hash is not found.
pub proof fn law_receipts_are_reported(
    params: GetTransactionParams,
    hash: Seq<u8>,
    command: Command,
    then: Pending,
    w: WorkerView,
    after: WorkerView,
    reply: Reply,
    asked: Progress,
    ledger: LatestLedgerReply,
    p: Progress,
)
    requires
        params.hash@ == hex(hash),
        hash.len() == 32,
        starts(Request::GetTransaction(params), Progress::Ask { command, then }),
        carried_out(w, command, after, WorkStep::Done(reply)),
        resumes(then, reply, asked),
        asked matches Progress::Ask { then: last, .. } && resumes(last, Reply::LatestLedger(ledger), p),
    ensures
        p matches Progress::Done(Ok(Response::Transaction(b))) && {
            &&& b.latest_ledger == ledger.sequence
            &&& !w.receipts.dom().contains(hash) ==> b.status@ == "NOT_FOUND"@ && b.ledger is None
                && b.created_at is None && b.envelope_xdr is None && b.return_value_xdr is None
                && b.error_message is None && b.applied_changes is None
            &&& w.receipts.dom().contains(hash) ==> {
                let receipt = w.receipts[hash];
                &&& b.ledger == Some(receipt.ledger)
                &&& b.applied_changes == Some(receipt.applied_changes)
                &&& b.created_at matches Some(t) && parsed_nat(t@) == Some(receipt.created_at as nat)
                &&& b.envelope_xdr matches Some(t) && base64_decoded(t@) == intact(receipt.envelope)
                &&& receipt.result matches Ok(v) ==> b.status@ == "SUCCESS"@ && b.error_message is None && (
                b.return_value_xdr matches Some(t) && base64_decoded(t@) == intact(v))
                &&& receipt.result matches Err(m) ==> b.status@ == "FAILED"@ && b.return_value_xdr is None && (
                b.error_message matches Some(t) && t@ == m)
            }
        },
{
    law_hashes_read_back(hash);
    if w.receipts.dom().contains(hash) {
        law_decimals_read_back(w.receipts[hash].created_at as int);
    }
}

/// What does not spell 32 bytes in hexadecimal is no hash.
pub proof fn law_other_hashes_are_refused(params: GetTransactionParams, p: Progress)
    requires
        params.hash@.len() != 64 || exists|i: int|
            0 <= i < 64 && !('0' <= #[trigger] params.hash@[i] <= '9') && !('a' <= params.hash@[i] <= 'f') && !(
            'A' <= params.hash@[i] <= 'F'),
        starts(Request::GetTransaction(params), p),
    ensures
        p matches Progress::Done(Err(e)) && e.code == -32602 && e.message@ == "hash: must be 64-char hex"@,
{
    if params.hash@.len() == 64 {
        let i = choose|i: int|
            0 <= i < 64 && !('0' <= #[trigger] params.hash@[i] <= '9') && !('a' <= params.hash@[i] <= 'f') && !(
            'A' <= params.hash@[i] <= 'F');
        assert(nibble(params.hash@[i]) is None);
    }
}

// ---------------------------------------------------------------------------
// Writing entries
// ---------------------------------------------------------------------------

/// `fork_setLedgerEntry` writes the entry that it is given under the key that
/// it is given, and a lookup then finds it.
pub proof fn law_given_entries_are_written(
    params: SetLedgerEntryParams,
    key: Seq<u8>,
    bytes: Seq<u8>,
    entry: EntryView,
    p: Progress,
    w: WorkerView,
    after: WorkerView,
    r: WorkStep,
)
    requires
        spells_key(params.key@, key),
        base64_decoded(params.entry@) == intact(bytes),
        decoded_entry(bytes) == Ok::<EntryView, Seq<char>>(entry),
        starts(Request::SetLedgerEntry(params), p),
        p matches Progress::Ask { command, .. } ==> carried_out(w, command, after, r),
    ensures
        p is Ask,
        r == WorkStep::Done(Reply::Written),
        found_under(after.env.source.known, key) == Some(
            (RowView { key, entry, live_until: params.live_until_ledger_seq }),
        ),
{
}

/// `fork_setStorage` writes the value under the key in the storage of the
/// contract: for good unless it is told otherwise.
pub proof fn law_values_are_stored(
    params: SetStorageParams,
    contract: Seq<u8>,
    key_bytes: Seq<u8>,
    key: Seq<u8>,
    val_bytes: Seq<u8>,
    val: Seq<u8>,
    p: Progress,
    w: WorkerView,
    after: WorkerView,
    r: WorkStep,
)
    requires
        contract_of_strkey(params.contract@) == Some(contract),
        base64_decoded(params.key@) == intact(key_bytes),
        canonical_scval_of(key_bytes) == intact(key),
        base64_decoded(params.value@) == intact(val_bytes),
        canonical_scval_of(val_bytes) == intact(val),
        starts(Request::SetStorage(params), p),
        p matches Progress::Ask { command, .. } ==> carried_out(w, command, after, r),
    ensures
        p is Ask,
        r == WorkStep::Done(Reply::Written),
        ({
            let durability = if params.durability == Some(StorageDurability::Temporary) {
                Durability::Temporary
            } else {
                Durability::Persistent
            };
            found_under(
                after.env.source.known,
                contract_data_key_xdr(contract, key, durability),
            ) matches Some(row) && row.live_until == params.live_until_ledger_seq
                && row.entry.last_modified_ledger_seq == 0 && row.entry.ext == be32(0) && row.entry.data
                == DataView::ContractData(
                ContractDataView { contract: contract_address_xdr(contract), key, durability, val },
            )
        }),
{
}

/// `fork_setCode` writes the code under its own hash and tells that hash.
pub proof fn law_code_is_written(
    params: SetCodeParams,
    code: Seq<u8>,
    p: Progress,
    w: WorkerView,
    after: WorkerView,
    r: WorkStep,
    asked: Progress,
    ledger: LatestLedgerReply,
    answer: Progress,
)
    requires
        base64_decoded(params.wasm@) == intact(code),
        code.len() <= u32::MAX,
        starts(Request::SetCode(params), p),
        p matches Progress::Ask { command, then } ==> carried_out(w, command, after, r) && resumes(
            then,
            Reply::Written,
            asked,
        ),
        asked matches Progress::Ask { then, .. } ==> resumes(then, Reply::LatestLedger(ledger), answer),
        sha256_of(code).len() == 32,
    ensures
        p is Ask,
        r == WorkStep::Done(Reply::Written),
        found_under(after.env.source.known, contract_code_key_xdr(sha256_of(code))) matches Some(row)
            && row.live_until == params.live_until_ledger_seq && row.entry.last_modified_ledger_seq == 0
            && row.entry.ext == be32(0) && row.entry.data == DataView::Other(
            contract_code_xdr(sha256_of(code), code),
        ),
        answer matches Progress::Done(Ok(Response::CodeSet(b))) && b.ok && b.latest_ledger == ledger.sequence
            && hash_spelled(b.hash@) == Some(sha256_of(code)),
{
    law_hashes_read_back(sha256_of(code));
}

/// `fork_etch` first writes the code under its own hash and then looks at what
/// the contract is now.
pub proof fn law_etching_writes_the_code(
    params: EtchParams,
    contract: Seq<u8>,
    code: Seq<u8>,
    p: Progress,
    w: WorkerView,
    after: WorkerView,
    r: WorkStep,
    looked: Progress,
)
    requires
        contract_of_strkey(params.contract@) == Some(contract),
        base64_decoded(params.wasm@) == intact(code),
        code.len() <= u32::MAX,
        starts(Request::Etch(params), p),
        p matches Progress::Ask { command, then } ==> carried_out(w, command, after, r) && resumes(
            then,
            Reply::Written,
            looked,
        ),
    ensures
        p is Ask,
        r == WorkStep::Done(Reply::Written),
        found_under(after.env.source.known, contract_code_key_xdr(sha256_of(code))) matches Some(row)
            && row.live_until == params.live_until_ledger_seq && row.entry.last_modified_ledger_seq == 0
            && row.entry.ext == be32(0) && row.entry.data == DataView::Other(
            contract_code_xdr(sha256_of(code), code),
        ),
        looked matches Progress::Ask {
            command: Command::GetLedgerEntries { keys },
            then: Pending::EtchInstance { contract: c, hash, live_until },
        } && keys@.len() == 1 && keys@[0]@ == contract_data_key_xdr(
            contract,
            instance_key_scval(),
            Durability::Persistent,
        ) && c@ == contract && hash@ == sha256_of(code) && live_until == params.live_until_ledger_seq,
{
}

/// `fork_etch` then points the contract at the code. A contract that is there
/// keeps its storage; one that is not is made, with none.
pub proof fn law_etching_points_at_the_code(
    contract: [u8; 32],
    hash: [u8; 32],
    live_until: Option<u32>,
    found: LedgerEntriesReply,
    storage: Seq<u8>,
    p: Progress,
    w: WorkerView,
    after: WorkerView,
    r: WorkStep,
)
    requires
        found.entries@.len() == 1,
        match found.entries@[0] {
            None => storage == be32(0),
            Some(row) => row.entry@.data matches DataView::ContractData(c) && instance_storage_of(c.val)
                == Some(storage),
        },
        resumes(
            Pending::EtchInstance { contract, hash, live_until },
            Reply::LedgerEntries(found),
            p,
        ),
        p matches Progress::Ask { command, .. } ==> carried_out(w, command, after, r),
    ensures
        p is Ask,
        r == WorkStep::Done(Reply::Written),
        found_under(
            after.env.source.known,
            contract_data_key_xdr(contract@, instance_key_scval(), Durability::Persistent),
        ) matches Some(row) && row.live_until == live_until && row.entry.last_modified_ledger_seq == 0
            && row.entry.ext == be32(0) && row.entry.data == DataView::ContractData(
            ContractDataView {
                contract: contract_address_xdr(contract@),
                key: instance_key_scval(),
                durability: Durability::Persistent,
                val: instance_xdr(hash@, storage),
            },
        ),
{
}

/// What is at the place of a contract and is no contract is not written over.
pub proof fn law_etching_spares_other_entries(
    contract: [u8; 32],
    hash: [u8; 32],
    live_until: Option<u32>,
    found: LedgerEntriesReply,
    p: Progress,
)
    requires
        found.entries@.len() == 1,
        found.entries@[0] matches Some(row) && match row.entry@.data {
            DataView::ContractData(c) => instance_storage_of(c.val) is None,
            _ => true,
        },
        resumes(
            Pending::EtchInstance { contract, hash, live_until },
            Reply::LedgerEntries(found),
            p,
        ),
    ensures
        p matches Progress::Done(Err(e)) && e.code == -32603,
{
}

/// A write is answered with the ledger that the fork is at.
pub proof fn law_writes_are_answered(asked: Progress, ledger: LatestLedgerReply, p: Progress)
    requires
        resumes(Pending::EntryWriting, Reply::Written, asked),
        asked matches Progress::Ask { then, .. } ==> resumes(then, Reply::LatestLedger(ledger), p),
    ensures
        asked matches Progress::Ask { command: Command::GetLatestLedger, .. },
        p matches Progress::Done(Ok(Response::EntrySet(b))) && b.ok && b.latest_ledger == ledger.sequence,
{
}

// ---------------------------------------------------------------------------
// Setting balances
// ---------------------------------------------------------------------------

/// Setting a balance of the native asset looks for the account and keeps the
/// amount in mind.
pub proof fn law_native_balances_are_asked_for(params: SetBalanceParams, account: Seq<u8>, n: int, p: Progress)
    requires
        account_of_strkey(params.account@) == Some(account),
        params.asset is None || params.asset == Some(AssetWire::Native),
        parsed_int(params.amount@) == Some(n),
        0 <= n <= i64::MAX,
        starts(Request::SetBalance(params), p),
    ensures
        p matches Progress::Ask {
            command: Command::GetLedgerEntries { keys },
            then: Pending::NativeBalance { account: a, amount },
        } && keys@.len() == 1 && keys@[0]@ == account_key_xdr(account) && a@ == account && amount == n,
{
}

/// Setting a balance of a credit asset looks for the trustline to just that
/// asset: the code, filled up with zeros to four bytes or to twelve, and the
/// issuer.
pub proof fn law_credit_balances_are_asked_for(
    params: SetBalanceParams,
    code: String,
    issuer: String,
    account: Seq<u8>,
    issuer_id: Seq<u8>,
    n: int,
    p: Progress,
)
    requires
        account_of_strkey(params.account@) == Some(account),
        params.asset == Some(AssetWire::Credit { code, issuer }),
        account_of_strkey(issuer@) == Some(issuer_id),
        1 <= encode_utf8(code@).len() <= 12,
        parsed_int(params.amount@) == Some(n),
        0 <= n <= i64::MAX,
        starts(Request::SetBalance(params), p),
    ensures
        p matches Progress::Ask {
            command: Command::GetLedgerEntries { keys },
            then: Pending::CreditBalance { account: a, asset, amount },
        } && a@ == account && amount == n && keys@.len() == 1 && keys@[0]@ == trustline_key_xdr(
            account,
            asset_xdr(asset),
        ) && names_asset(asset_xdr(asset), encode_utf8(code@), issuer_id),
{
    let b = encode_utf8(code@);
    if b.len() <= 4 {
        let x = be32(1) + padded(b, 4) + be32(0) + issuer_id;
        assert(x.take(4) =~= be32(1));
        assert(x.subrange(4, 4int + b.len()) =~= b);
        assert(x.subrange(8, 12) =~= be32(0));
        assert(x.skip(12) =~= issuer_id);
    } else {
        let x = be32(2) + padded(b, 12) + be32(0) + issuer_id;
        assert(x.take(4) =~= be32(2));
        assert(x.subrange(4, 4int + b.len()) =~= b);
        assert(x.subrange(16, 20) =~= be32(0));
        assert(x.skip(20) =~= issuer_id);
    }
}

/// Whether this is the XDR of the asset with a code, of one to twelve bytes,
/// and an issuer.
pub open spec fn names_asset(x: Seq<u8>, code: Seq<u8>, issuer: Seq<u8>) -> bool {
    let room: int = if code.len() <= 4 {
        4
    } else {
        12
    };
    &&& x.len() == 8 + room + issuer.len()
    &&& x.take(4) == be32(
        if code.len() <= 4 {
            1
        } else {
            2
        },
    )
    &&& x.subrange(4, 4int + code.len()) == code
    &&& forall|i: int| 4 + code.len() <= i < 4 + room ==> #[trigger] x[i] == 0
    &&& x.subrange(4 + room, 8 + room) == be32(0)
    &&& x.skip(8 + room) == issuer
}

/// Setting a balance of a token asks the token for the balance that the
/// account has.
pub proof fn law_token_balances_are_asked_for(
    params: SetBalanceParams,
    contract: String,
    account: Seq<u8>,
    token: Seq<u8>,
    n: int,
    p: Progress,
)
    requires
        account_of_strkey(params.account@) == Some(account),
        params.asset == Some(AssetWire::Contract { contract }),
        contract_of_strkey(contract@) == Some(token),
        parsed_int(params.amount@) == Some(n),
        0 <= n <= i128::MAX,
        starts(Request::SetBalance(params), p),
    ensures
        p matches Progress::Ask {
            command: Command::SimulateTransaction { host_function, source_account, transaction_size_bytes },
            then: Pending::TokenBalance { account: a, contract: c, amount },
        } && host_function@ == call_xdr(
            token,
            encode_utf8("balance"@),
            seq![account_scval_xdr(account)],
        ) && transaction_size_bytes == 0 && a@ == account && c@ == token && amount == n,
{
}

/// A token is told to make the difference up: to mint what is missing, or to
/// burn what is too much. Where nothing differs, nothing is sent.
pub proof fn law_tokens_make_the_difference_up(
    account: [u8; 32],
    contract: [u8; 32],
    amount: i128,
    told: SimulationReply,
    hi: i64,
    lo: u64,
    p: Progress,
)
    requires
        amount >= 0,
        told.result matches Ok(x) && x@ == i128_scval_xdr(hi, lo),
        i128_value(hi, lo) >= 0,
        resumes(
            Pending::TokenBalance { account, contract, amount },
            Reply::Simulation(told),
            p,
        ),
    ensures
        amount == i128_value(hi, lo) ==> (p matches Progress::Done(Ok(Response::BalanceSet(b))) && b.ok
            && b.latest_ledger == told.latest_ledger),
        amount != i128_value(hi, lo) ==> (p matches Progress::Ask {
            command: Command::SendTransaction { envelope_bytes, host_function, source_account },
            then: Pending::TokenChange { delta },
        } && delta == amount - i128_value(hi, lo) && envelope_bytes@ == call_envelope_xdr(
            source_account@,
            0,
            0,
            host_function@,
        ) && (amount > i128_value(hi, lo) ==> host_function@ == call_xdr(
            contract@,
            encode_utf8("mint"@),
            seq![account_scval_xdr(account@), number_xdr(amount - i128_value(hi, lo))],
        )) && (amount < i128_value(hi, lo) ==> host_function@ == call_xdr(
            contract@,
            encode_utf8("burn"@),
            seq![account_scval_xdr(account@), number_xdr(i128_value(hi, lo) - amount)],
        ))),
{
    let x = (told.result->Ok_0)@;
    assert(x == i128_scval_xdr(hi, lo));
    let (h, l) = choose|h: i64, l: u64| x == #[trigger] i128_scval_xdr(h, l);
    law_numbers_read_back(hi, lo, h, l);
}

/// A change that the token refused is an error, and one that it made is
/// answered with the ledger that the fork is at.
pub proof fn law_token_changes_are_answered(
    delta: i128,
    sent: SendReply,
    asked: Progress,
    ledger: LatestLedgerReply,
    p: Progress,
)
    requires
        resumes(Pending::TokenChange { delta }, Reply::Sent(sent), asked),
        asked matches Progress::Ask { then, .. } ==> resumes(then, Reply::LatestLedger(ledger), p),
    ensures
        sent.receipt.result is Err ==> (asked matches Progress::Done(Err(e)) && e.code == -32602),
        sent.receipt.result is Ok ==> (p matches Progress::Done(Ok(Response::BalanceSet(b))) && b.ok
            && b.latest_ledger == ledger.sequence),
{
}

/// A balance is a decimal number that is not negative and that fits: in 64
/// bits, or in 128 for a token. Anything else is refused, and so is what is no
/// account.
pub proof fn law_other_balances_are_refused(params: SetBalanceParams, p: Progress)
    requires
        account_of_strkey(params.account@) is None || match parsed_int(params.amount@) {
            None => true,
            Some(n) => n < 0 || n > i128::MAX || (n > i64::MAX && !(params.asset matches Some(
                AssetWire::Contract { .. },
            ))),
        },
        starts(Request::SetBalance(params), p),
    ensures
        p matches Progress::Done(Err(e)) && e.code == -32602,
{
}

/// A hash is spelled by 64 hexadecimal digits, in either case: two for each
/// byte, the sixteens first.
pub proof fn law_hashes_are_spelled_in_hexadecimal(s: Seq<char>, i: int)
    ensures
        hash_spelled(s) is Some <==> s.len() == 64 && forall|j: int|
            0 <= j < 64 ==> '0' <= #[trigger] s[j] <= '9' || 'a' <= s[j] <= 'f' || 'A' <= s[j] <= 'F',
        hash_spelled(s) matches Some(h) ==> h.len() == 32 && (0 <= i < 32 ==> h[i] == digit_worth(s[2 * i])
            * 16 + digit_worth(s[2 * i + 1])),
{
    if s.len() == 64 {
        assert forall|j: int| 0 <= j < 64 implies (nibble(#[trigger] s[j]) is Some <==> '0' <= s[j] <= '9' || 'a'
            <= s[j] <= 'f' || 'A' <= s[j] <= 'F') by {}
        if hash_spelled(s) is Some && 0 <= i < 32 {
            assert(nibble(s[2 * i]) is Some);
            assert(nibble(s[2 * i + 1]) is Some);
        }
    }
}

/// What a hexadecimal digit is worth, in either case.
pub open spec fn digit_worth(c: char) -> int {
    if '0' <= c <= '9' {
        c as int - 48
    } else if 'a' <= c <= 'f' {
        c as int - 87
    } else {
        c as int - 55
    }
}

/// A token that tells no balance, or tells something else than a number of
/// its kind, is refused.
pub proof fn law_tokens_must_tell_their_balance(
    account: [u8; 32],
    contract: [u8; 32],
    amount: i128,
    told: SimulationReply,
    p: Progress,
)
    requires
        match told.result {
            Err(_) => true,
            Ok(x) => forall|hi: i64, lo: u64| x@ != #[trigger] i128_scval_xdr(hi, lo),
        },
        resumes(
            Pending::TokenBalance { account, contract, amount },
            Reply::Simulation(told),
            p,
        ),
    ensures
        p matches Progress::Done(Err(e)) && e.code == -32602,
{
}

/// A planned change of a token makes the difference up.
pub proof fn law_plans_make_the_difference_up(
    contract: Seq<u8>,
    account: Seq<u8>,
    current: i128,
    target: i128,
    r: Result<TokenPlan, JsonRpcError>,
)
    requires
        plans(contract, account, current as int, target as int, r),
        current >= 0,
        target >= 0,
    ensures
        current == target <==> r == Ok::<TokenPlan, JsonRpcError>(TokenPlan::Nothing),
        current != target ==> (r matches Ok(TokenPlan::Change { delta, host_function, .. }) && current + delta
            == target && (current < target ==> host_function@ == call_xdr(
            contract,
            encode_utf8("mint"@),
            seq![account_scval_xdr(account), number_xdr(target - current)],
        )) && (current > target ==> host_function@ == call_xdr(
            contract,
            encode_utf8("burn"@),
            seq![account_scval_xdr(account), number_xdr(current - target)],
        ))),
{
}

/// The worker's reply to another command is an error inside, and so is a
/// command that it could not carry out.
pub proof fn law_unexpected_replies_are_errors(p: Progress, reply: Reply)
    requires
        resumes(Pending::Health, reply, p),
        !(reply is LatestLedger),
    ensures
        p matches Progress::Done(Err(e)) && e.code == -32603,
{
}

/// Setting the native balance of an account that does not exist makes it: the
/// account that was named, with that balance, as of the ledger that the fork
/// is at. One that exists keeps all but its balance.
pub proof fn law_native_balances_are_written(
    account: [u8; 32],
    amount: i64,
    found: LedgerEntriesReply,
    p: Progress,
)
    requires
        found.entries@.len() == 1,
        found.entries@[0] matches Some(row) ==> row.entry@.data is Account,
        resumes(Pending::NativeBalance { account, amount }, Reply::LedgerEntries(found), p),
    ensures
        p matches Progress::Ask {
            command: Command::SetLedgerEntry { key, entry, live_until },
            then: Pending::BalanceWriting { latest_ledger },
        } && {
            &&& key@ == account_key_xdr(account@)
            &&& live_until is None
            &&& latest_ledger == found.latest_ledger
            &&& entry@.last_modified_ledger_seq == found.latest_ledger
            &&& entry@.data matches DataView::Account(a) && a.balance == amount && (match found.entries@[0] {
                None => a.account_id == account@ && a.num_sub_entries == 0 && a.flags == 0 && entry@.ext
                    == be32(0),
                Some(row) => row.entry@.data matches DataView::Account(b) && a == (AccountView {
                    balance: amount,
                    ..b
                }) && entry@.ext == row.entry@.ext,
            })
        },
{
}

/// Setting the balance of a trustline that does not exist makes it: of the
/// account and to the asset that were named, with that balance, open. One that
/// exists keeps all but its balance.
pub proof fn law_credit_balances_are_written(
    account: [u8; 32],
    asset: TrustLineAsset,
    amount: i64,
    found: LedgerEntriesReply,
    p: Progress,
)
    requires
        found.entries@.len() == 1,
        found.entries@[0] matches Some(row) ==> row.entry@.data is Trustline,
        resumes(Pending::CreditBalance { account, asset, amount }, Reply::LedgerEntries(found), p),
    ensures
        p matches Progress::Ask {
            command: Command::SetLedgerEntry { key, entry, live_until },
            then: Pending::BalanceWriting { latest_ledger },
        } && {
            &&& key@ == trustline_key_xdr(account@, asset_xdr(asset))
            &&& live_until is None
            &&& latest_ledger == found.latest_ledger
            &&& entry@.last_modified_ledger_seq == found.latest_ledger
            &&& entry@.data matches DataView::Trustline(t) && t.balance == amount && (match found.entries@[0] {
                None => t.account_id == account@ && t.asset == asset_xdr(asset) && t.limit == i64::MAX
                    && t.flags == 1 && entry@.ext == be32(0),
                Some(row) => row.entry@.data matches DataView::Trustline(u) && t == (TrustLineView {
                    balance: amount,
                    ..u
                }) && entry@.ext == row.entry@.ext,
            })
        },
{
}

/// What is at the place of an account or a trustline and is none is not
/// written over.
pub proof fn law_balances_spare_other_entries(
    account: [u8; 32],
    asset: TrustLineAsset,
    amount: i64,
    found: LedgerEntriesReply,
    native: Progress,
    credit: Progress,
)
    requires
        found.entries@.len() == 1,
        found.entries@[0] matches Some(row) && !(row.entry@.data is Account) && !(row.entry@.data is Trustline),
        resumes(Pending::NativeBalance { account, amount }, Reply::LedgerEntries(found), native),
        resumes(Pending::CreditBalance { account, asset, amount }, Reply::LedgerEntries(found), credit),
    ensures
        native matches Progress::Done(Err(e)) && e.code == -32603,
        credit matches Progress::Done(Err(e)) && e.code == -32603,
{
}

/// A balance that was written is answered with the ledger that it was written
/// in.
pub proof fn law_balances_are_answered(latest_ledger: u32, p: Progress)
    requires
        resumes(Pending::BalanceWriting { latest_ledger }, Reply::Written, p),
    ensures
        p matches Progress::Done(Ok(Response::BalanceSet(b))) && b.ok && b.latest_ledger == latest_ledger,
{
}

/// A refusal begins with the name of the parameter that is at fault.
pub proof fn law_refusals_name_the_parameter(name: Seq<char>, text: Seq<char>)
    ensures
        param_bytes(name, text) matches Err(m) ==> m.take(name.len() as int) == name,
        param_key(name, text) matches Err(m) ==> m.take(name.len() as int) == name,
        param_scval(name, text) matches Err(m) ==> m.take(name.len() as int) == name,
        param_entry(name, text) matches Err(m) ==> m.take(name.len() as int) == name,
        param_contract(name, text) matches Err(m) ==> m.take(name.len() as int) == name,
        param_account(name, text) matches Err(m) ==> m.take(name.len() as int) == name,
{
    assert forall|tail: Seq<char>| #[trigger] (name + tail).take(name.len() as int) == name by {
        assert((name + tail).take(name.len() as int) =~= name);
    }
    if let Err(e) = base64_decoded(text) {
        assert(name + ": base64 decode: "@ + e =~= name + (": base64 decode: "@ + e));
    }
    if let Ok(b) = base64_decoded(text) {
        if let Err(e) = canonical_key_of(b) {
            assert(name + ": XDR decode: "@ + e =~= name + (": XDR decode: "@ + e));
        }
        if let Err(e) = canonical_scval_of(b) {
            assert(name + ": ScVal XDR decode: "@ + e =~= name + (": ScVal XDR decode: "@ + e));
        }
        if let Err(e) = decoded_entry(b) {
            assert(name + ": XDR decode: "@ + e =~= name + (": XDR decode: "@ + e));
        }
    }
    let c = ": not a valid C... strkey: "@;
    let g = ": not a valid G... strkey: "@;
    let t = "the strkey is invalid"@;
    assert(name + c + t =~= name + (c + t));
    assert(name + g + t =~= name + (g + t));
}

/// Of several bad keys the first one is refused, by its place.
pub proof fn law_the_first_bad_key_is_named(params: GetLedgerEntriesParams, i: int, p: Progress)
    requires
        0 <= i < params.keys@.len(),
        forall|j: int| 0 <= j < i ==> is_key((#[trigger] params.keys@[j])@),
        !is_key(params.keys@[i]@),
        starts(Request::GetLedgerEntries(params), p),
    ensures
        p matches Progress::Done(Err(e)) && e.code == -32602 && e.message@.take(
            ("keys["@ + decimal(i) + "]"@).len() as int,
        ) == "keys["@ + decimal(i) + "]"@,
{
    match param_key(key_name(i), params.keys@[i]@) {
        Ok(k) => assert(spells_key(params.keys@[i]@, k)),
        Err(_) => {
            lemma_first_refused(params.keys@, 0, i);
            law_refusals_name_the_parameter(key_name(i), params.keys@[i]@);
        },
    }
}

proof fn lemma_first_refused(keys: Seq<String>, from: int, i: int)
    requires
        0 <= from <= i < keys.len(),
        forall|j: int| 0 <= j < i ==> is_key((#[trigger] keys[j])@),
        param_key(key_name(i), keys[i]@) is Err,
    ensures
        first_refused(keys, from) == Some(i),
    decreases i - from,
{
    if from < i {
        assert(is_key(keys[from]@));
        lemma_first_refused(keys, from + 1, i);
    }
}

/// An asset is named by a code of one to twelve bytes and an issuer that is an
/// account, or by a contract. Anything else is refused.
pub proof fn law_other_assets_are_refused(params: SetBalanceParams, p: Progress)
    requires
        match params.asset {
            Some(AssetWire::Credit { code, issuer }) => account_of_strkey(issuer@) is None || encode_utf8(
                code@,
            ).len() == 0 || encode_utf8(code@).len() > 12,
            Some(AssetWire::Contract { contract }) => contract_of_strkey(contract@) is None,
            _ => false,
        },
        starts(Request::SetBalance(params), p),
    ensures
        p matches Progress::Done(Err(e)) && e.code == -32602,
{
}

/// What cannot be read is not written: a parameter that is no base64, or whose
/// bytes are not what they should be, is refused, and so is what is no
/// contract.
pub proof fn law_unreadable_writes_are_refused(
    entry: SetLedgerEntryParams,
    entry_p: Progress,
    storage: SetStorageParams,
    storage_p: Progress,
    code: SetCodeParams,
    code_p: Progress,
    etch: EtchParams,
    etch_p: Progress,
)
    requires
        starts(Request::SetLedgerEntry(entry), entry_p),
        !is_key(entry.key@) || (match base64_decoded(entry.entry@) {
            Err(_) => true,
            Ok(b) => decoded_entry(b) is Err,
        }),
        starts(Request::SetStorage(storage), storage_p),
        contract_of_strkey(storage.contract@) is None || (match base64_decoded(storage.key@) {
            Err(_) => true,
            Ok(b) => canonical_scval_of(b) is Err,
        }) || (match base64_decoded(storage.value@) {
            Err(_) => true,
            Ok(b) => canonical_scval_of(b) is Err,
        }),
        starts(Request::SetCode(code), code_p),
        base64_decoded(code.wasm@) is Err,
        starts(Request::Etch(etch), etch_p),
        contract_of_strkey(etch.contract@) is None || base64_decoded(etch.wasm@) is Err,
    ensures
        entry_p matches Progress::Done(Err(e)) && e.code == -32602,
        storage_p matches Progress::Done(Err(e)) && e.code == -32602,
        code_p matches Progress::Done(Err(e)) && e.code == -32602,
        etch_p matches Progress::Done(Err(e)) && e.code == -32602,
{
    if let Ok(k) = param_key("key"@, entry.key@) {
        assert(spells_key(entry.key@, k));
    }
}

} // verus!

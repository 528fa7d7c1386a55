//! Talking to a Soroban RPC endpoint: what to send, what to make of an
//! answer, and when to try again. Sending is left to the caller.

use vstd::arithmetic::power2::{lemma_pow2_unfold, pow2};
use vstd::prelude::*;

use crate::codec::{
    base64_decode, base64_decoded, base64_encode, base64_encoded, be32, carries, sha256, sha256_of,
};
use crate::duration::{least, Duration, MAX_NANOS};
use crate::error::{ErrorView, ForkError};
use crate::ledger::{bare, decode_data, decoded_data, DataView, EntryView, LedgerEntry, LedgerKey};
use crate::text::{
    decimal, join2, join4, law_decimals_read_back, parse_u64, parsed_nat, trimmed, trimmed_of,
    u32_text, u64_parse_error_of,
};

verus! {

/// How much of a response body an error message shows.
pub const ERROR_BODY_TRUNCATE_BYTES: usize = 256;

/// How the transport behaves.
#[derive(Debug, Clone)]
pub struct RpcConfig {
    /// How often a transient failure is retried; one attempt more is made in
    /// all.
    pub retries: u32,
    /// The delay before the first retry; it doubles with each further one.
    pub base_retry_delay: Duration,
    /// How long a request may take; none leaves it to the HTTP client.
    pub request_timeout: Option<Duration>,
    /// How many keys one `getLedgerEntries` request may ask for.
    pub max_keys_per_request: usize,
}

impl Default for RpcConfig {
    fn default() -> (r: RpcConfig)
        ensures
            r.retries == 3,
            r.base_retry_delay@ == 300_000_000,
            r.request_timeout matches Some(t) && t@ == 30_000_000_000,
            r.max_keys_per_request == 200,
    {
        RpcConfig {
            retries: 3,
            base_retry_delay: Duration::from_millis(300),
            request_timeout: Some(Duration::from_secs(30)),
            max_keys_per_request: 200,
        }
    }
}

/// A fetched entry with its time to live.
#[derive(Debug, PartialEq, Eq)]
pub struct FetchedEntry {
    pub entry: LedgerEntry,
    /// The ledger up to which the entry lives, where it has such a limit.
    pub live_until: Option<u32>,
}

/// The latest closed ledger.
#[derive(Debug, Clone, Copy, PartialEq, Eq)]
pub struct LatestLedger {
    pub sequence: u32,
    pub protocol_version: u32,
    /// When the ledger closed, in Unix seconds.
    pub close_time: u64,
}

/// The network that an endpoint serves.
#[derive(Debug, Clone, PartialEq, Eq)]
pub struct NetworkMetadata {
    /// Such as `Test SDF Network ; September 2015`.
    pub passphrase: String,
    /// The SHA-256 digest of the passphrase.
    pub network_id: [u8; 32],
}

// ---------------------------------------------------------------------------
// Retrying
// ---------------------------------------------------------------------------

/// What a failed attempt calls for.
#[derive(Debug)]
pub enum RetryDecision {
    /// The failure may pass: try again while the budget lasts.
    Retry(ForkError),
    /// The failure is permanent.
    Fatal(ForkError),
}

/// What to do after a failed attempt.
#[derive(Debug)]
pub enum RetryStep {
    /// Wait that long and try again.
    Wait(Duration),
    /// Give up with this error.
    GiveUp(ForkError),
}

/// How many times the base delay is waited before the retry that follows
/// attempt number `attempt`, counted from zero.
pub open spec fn backoff_factor(attempt: nat) -> nat {
    if attempt < 32 {
        pow2(attempt)
    } else {
        0xFFFF_FFFF
    }
}

/// A delay below `max` drawn with a random number. Of a span so long that its
/// nanoseconds do not fit in 64 bits, the low 64 bits count.
pub open spec fn jitter(max: nat, random: nat) -> nat {
    let m = max % 0x1_0000_0000_0000_0000;
    if m == 0 {
        0
    } else {
        random % m
    }
}

/// The delay before the retry that follows attempt number `attempt`.
pub open spec fn backoff(base: nat, attempt: nat, random: nat) -> nat {
    least(
        least(base * backoff_factor(attempt), MAX_NANOS as nat) + jitter(base, random),
        MAX_NANOS as nat,
    )
}

fn factor_of(attempt: u32) -> (r: u32)
    ensures
        r == backoff_factor(attempt as nat),
{
    if attempt >= 32 {
        return 0xFFFF_FFFF;
    }
    let mut factor: u32 = 1;
    let mut i: u32 = 0;
    proof {
        vstd::arithmetic::power2::lemma2_to64();
    }
    while i < attempt
        invariant
            i <= attempt < 32,
            factor == pow2(i as nat),
        decreases attempt - i,
    {
        proof {
            vstd::arithmetic::power2::lemma_pow2_unfold((i + 1) as nat);
            vstd::arithmetic::power2::lemma2_to64();
            if i + 1 < 31 {
                vstd::arithmetic::power2::lemma_pow2_strictly_increases((i + 1) as nat, 31);
            }
        }
        factor = factor * 2;
        i = i + 1;
    }
    factor
}

/// A delay below `max`, drawn with a random number; none at all where `max`
/// is no time.
pub fn jitter_under(max: Duration, random: u64) -> (r: Duration)
    ensures
        r@ == jitter(max@, random as nat),
{
    let max_nanos: u64 = (max.as_nanos() % 0x1_0000_0000_0000_0000) as u64;
    if max_nanos == 0 {
        Duration::zero()
    } else {
        Duration::from_nanos(random % max_nanos)
    }
}

/// The delay before the retry that follows attempt number `attempt`:
/// exponential, with a jitter of less than the base delay, so that parallel
/// callers do not retry in step.
pub fn backoff_delay(base: Duration, attempt: u32, random: u64) -> (r: Duration)
    ensures
        r@ == backoff(base@, attempt as nat, random as nat),
{
    base.saturating_mul(factor_of(attempt)).saturating_add(jitter_under(base, random))
}

/// Whether and when to try again after attempt number `attempt`, counted from
/// zero, has failed.
pub fn after_failure(config: &RpcConfig, attempt: u32, failure: RetryDecision, random: u64) -> (r:
    RetryStep)
    ensures
        (match failure {
            RetryDecision::Retry(e) => if attempt < config.retries {
                r matches RetryStep::Wait(d) && d@ == backoff(
                    config.base_retry_delay@,
                    attempt as nat,
                    random as nat,
                )
            } else {
                r == RetryStep::GiveUp(e)
            },
            RetryDecision::Fatal(e) => r == RetryStep::GiveUp(e),
        }),
{
    match failure {
        RetryDecision::Retry(e) => if attempt < config.retries {
            RetryStep::Wait(backoff_delay(config.base_retry_delay, attempt, random))
        } else {
            RetryStep::GiveUp(e)
        },
        RetryDecision::Fatal(e) => RetryStep::GiveUp(e),
    }
}

// ---------------------------------------------------------------------------
// Random numbers for the jitter
// ---------------------------------------------------------------------------

/// One step of Marsaglia's 64-bit xorshift generator.
pub open spec fn xorshift(x: u64) -> u64 {
    let a = x ^ (x << 13);
    let b = a ^ (a >> 7);
    b ^ (b << 17)
}

/// The first state of the generator, from the nanoseconds that a clock shows;
/// a fixed number where it shows none. It is odd, and so never zero.
pub fn seed_rng(clock_nanos: Option<u64>) -> (r: u64)
    ensures
        r == (match clock_nanos {
            Some(n) => vstd::wrapping::u64_specs::wrapping_mul(n, 0x9E37_79B9_7F4A_7C15),
            None => 0xDEAD_BEEF_CAFE_BABE,
        }) | 1,
        r != 0,
{
    let x: u64 = match clock_nanos {
        Some(n) => n.wrapping_mul(0x9E37_79B9_7F4A_7C15),
        None => 0xDEAD_BEEF_CAFE_BABE,
    };
    assert(x | 1 != 0) by (bit_vector);
    x | 1
}

/// The state after `state`, which is also the number drawn. The generator
/// never reaches zero, where it would stay.
pub fn next_rng_u64(state: u64) -> (r: u64)
    ensures
        r == xorshift(state),
        state != 0 ==> r != 0,
{
    proof {
        law_xorshift_avoids_zero(state);
    }
    let a: u64 = state ^ (state << 13);
    let b: u64 = a ^ (a >> 7);
    b ^ (b << 17)
}

/// A step of the generator leads to zero from zero only.
pub proof fn law_xorshift_avoids_zero(x: u64)
    ensures
        x != 0 ==> xorshift(x) != 0,
{
    assert(x != 0 ==> x ^ (x << 13) != 0) by (bit_vector);
    let a = x ^ (x << 13);
    assert(a != 0 ==> a ^ (a >> 7) != 0) by (bit_vector);
    let b = a ^ (a >> 7);
    assert(b != 0 ==> b ^ (b << 17) != 0) by (bit_vector);
}

/// The delay of a retry lies between the exponential delay and that plus one
/// base delay, as long as nothing of it is capped.
pub proof fn law_backoff_window(base: nat, attempt: nat, random: nat)
    requires
        base > 0,
        attempt < 32,
        base * pow2(attempt) + base <= MAX_NANOS,
    ensures
        base * pow2(attempt) <= backoff(base, attempt, random) < base * pow2(attempt) + base,
{
    let m = base % 0x1_0000_0000_0000_0000;
    if m != 0 {
        assert(random % m < m);
        assert(m <= base) by {
            vstd::arithmetic::div_mod::lemma_mod_decreases(base, 0x1_0000_0000_0000_0000nat);
        }
    }
}

// ---------------------------------------------------------------------------
// Answers
// ---------------------------------------------------------------------------

/// A text of at most `max` characters as it is; a longer one cut to that many
/// characters, with an ellipsis.
pub open spec fn cut(s: Seq<char>, max: nat) -> Seq<char> {
    if s.len() <= max {
        s
    } else {
        s.take(max as int).push('…')
    }
}

/// Cut a text to at most `max_chars` characters, never inside a character.
pub fn truncate_chars(s: &str, max_chars: usize) -> (r: String)
    ensures
        r@ == cut(s@, max_chars as nat),
{
    if s.unicode_len() <= max_chars {
        return s.to_owned();
    }
    let mut out = s.substring_char(0, max_chars).to_owned();
    out.push('…');
    assert(out@ =~= cut(s@, max_chars as nat));
    out
}

/// What an error message shows of a response body.
pub open spec fn snippet(body: Option<Seq<char>>) -> Seq<char> {
    match body {
        None => "<no body>"@,
        Some(b) => if trimmed_of(b).len() == 0 {
            "<empty body>"@
        } else {
            cut(trimmed_of(b), ERROR_BODY_TRUNCATE_BYTES as nat)
        },
    }
}

/// The view of an optional text.
pub open spec fn text_option(s: Option<&str>) -> Option<Seq<char>> {
    match s {
        Some(t) => Some(t@),
        None => None,
    }
}

/// What an error message shows of a response body, which may not have been
/// readable.
pub fn response_body_snippet(body: Option<&str>) -> (r: String)
    ensures
        r@ == snippet(text_option(body)),
{
    match body {
        None => "<no body>".to_owned(),
        Some(b) => {
            let t = trimmed(b);
            if t.as_str().unicode_len() == 0 {
                "<empty body>".to_owned()
            } else {
                truncate_chars(t.as_str(), ERROR_BODY_TRUNCATE_BYTES)
            }
        },
    }
}

/// Whether an HTTP status asks the caller to try again: 408, 425, 429 and
/// all server errors.
pub open spec fn retryable(code: u16) -> bool {
    code == 408 || code == 425 || code == 429 || 500 <= code < 600
}

/// Whether an HTTP status means success.
pub open spec fn successful(code: u16) -> bool {
    200 <= code < 300
}

/// The message of a refused request.
pub open spec fn refusal(status: Seq<char>, body: Option<Seq<char>>) -> ErrorView {
    ErrorView::Transport("HTTP "@ + status + ": "@ + snippet(body))
}

/// What an HTTP status calls for: nothing on success, a retry where the
/// failure may pass, an end otherwise. `status` is the status as text.
pub fn judge_status(code: u16, status: &str, body: Option<&str>) -> (r: Option<RetryDecision>)
    ensures
        (match r {
            None => successful(code),
            Some(RetryDecision::Retry(e)) => retryable(code) && e@ == refusal(status@, text_option(body)),
            Some(RetryDecision::Fatal(e)) => !retryable(code) && !successful(code) && e@ == refusal(
                status@,
                text_option(body),
            ),
        }),
{
    if 200 <= code && code < 300 {
        return None;
    }
    let shown = response_body_snippet(body);
    let error = ForkError::Transport(join4("HTTP ", status, ": ", shown.as_str()));
    if code == 408 || code == 425 || code == 429 || (500 <= code && code < 600) {
        Some(RetryDecision::Retry(error))
    } else {
        Some(RetryDecision::Fatal(error))
    }
}

/// A JSON-RPC answer: a result, or the text of an error object.
#[derive(Debug)]
pub struct JsonRpcResponse<T> {
    pub result: Option<T>,
    pub error: Option<String>,
}

impl<T> JsonRpcResponse<T> {
    /// The result, unless the answer holds an error or nothing at all.
    pub fn into_result(self) -> (r: Result<T, ForkError>)
        ensures
            (match (self.error, self.result) {
                (Some(e), _) => r matches Err(f) && f@ == ErrorView::RpcError(e@),
                (None, Some(t)) => r == Ok::<T, ForkError>(t),
                (None, None) => r matches Err(f) && f@ == ErrorView::RpcNoResult,
            }),
    {
        match self.error {
            Some(e) => Err(ForkError::RpcError(e)),
            None => match self.result {
                Some(t) => Ok(t),
                None => Err(ForkError::RpcNoResult),
            },
        }
    }
}

/// The close time of a ledger from the answer to `getLedgers`: the first
/// ledger's, a numeral of Unix seconds.
pub fn ledger_close_time(sequence: u32, ledgers: &Vec<String>) -> (r: Result<u64, ForkError>)
    ensures
        (match r {
            Ok(t) => ledgers@.len() > 0 && parsed_nat(ledgers@[0]@) == Some(t as nat),
            Err(e) => if ledgers@.len() == 0 {
                e@ == ErrorView::RpcError("getLedgers returned no entry for "@ + decimal(sequence as int))
            } else {
                &&& !(parsed_nat(ledgers@[0]@) matches Some(n) && n <= u64::MAX)
                &&& e@ == ErrorView::RpcError(
                    "getLedgers returned non-numeric ledgerCloseTime '"@ + ledgers@[0]@ + "': "@
                        + u64_parse_error_of(ledgers@[0]@),
                )
            },
        }),
{
    if ledgers.len() == 0 {
        return Err(
            ForkError::RpcError(
                join2("getLedgers returned no entry for ", u32_text(sequence).as_str()),
            ),
        );
    }
    match parse_u64(ledgers[0].as_str()) {
        Ok(t) => Ok(t),
        Err(e) => Err(
            ForkError::RpcError(
                join4(
                    "getLedgers returned non-numeric ledgerCloseTime '",
                    ledgers[0].as_str(),
                    "': ",
                    e.as_str(),
                ),
            ),
        ),
    }
}

impl LatestLedger {
    /// The latest ledger from the two answers that describe it.
    pub fn from_answers(sequence: u32, protocol_version: u32, close_time: u64) -> (r: LatestLedger)
        ensures
            r == (LatestLedger { sequence, protocol_version, close_time }),
    {
        LatestLedger { sequence, protocol_version, close_time }
    }
}

impl NetworkMetadata {
    /// The network of a passphrase.
    pub fn from_passphrase(passphrase: String) -> (r: NetworkMetadata)
        ensures
            r.passphrase == passphrase,
            r.network_id@ == sha256_of(vstd::utf8::encode_utf8(passphrase@)),
    {
        let network_id = sha256(passphrase.as_str().as_bytes());
        NetworkMetadata { passphrase, network_id }
    }
}

// ---------------------------------------------------------------------------
// Entries
// ---------------------------------------------------------------------------

/// A key as it is sent: the base64 text of its XDR.
pub fn encode_key(key: &LedgerKey) -> (r: String)
    ensures
        carries(r@, key@),
{
    base64_encode(key.as_xdr())
}

/// The keys that batch number `i` asks for.
pub open spec fn batch(keys: Seq<LedgerKey>, max: nat, i: int) -> Seq<Seq<char>> {
    let end = if (i + 1) * max <= keys.len() {
        (i + 1) * max
    } else {
        keys.len() as int
    };
    Seq::new((end - i * max) as nat, |j: int| base64_encoded(keys[i * max + j]@))
}

/// The texts of a batch.
pub open spec fn texts(batch: Seq<String>) -> Seq<Seq<char>> {
    batch.map_values(|s: String| s@)
}

/// How many batches some keys take.
pub open spec fn batch_count(n: nat, max: nat) -> nat {
    ((n + max - 1) as nat) / max
}

/// Split keys into the batches that are asked for one request at a time:
/// `max` keys each, the last one what is left.
pub fn key_batches(keys: &[LedgerKey], max: usize) -> (r: Vec<Vec<String>>)
    requires
        max > 0,
    ensures
        r@.len() == batch_count(keys@.len(), max as nat),
        forall|i: int| 0 <= i < r@.len() ==> texts((#[trigger] r@[i])@) == batch(keys@, max as nat, i),
{
    let mut out: Vec<Vec<String>> = Vec::new();
    let mut at: usize = 0;
    proof {
        assert(0 * max == 0);
    }
    while at < keys.len()
        invariant
            max > 0,
            at <= keys@.len(),
            at == out@.len() * max || at == keys@.len(),
            (out@.len() - 1) * max < at <= out@.len() * max,
            forall|i: int| 0 <= i < out@.len() ==> texts((#[trigger] out@[i])@) == batch(keys@, max as nat, i),
        decreases keys@.len() - at,
    {
        let mut one: Vec<String> = Vec::new();
        let start: usize = at;
        let ghost n = out@.len() as int;
        while at < keys.len() && at - start < max
            invariant
                max > 0,
                start == n * max,
                start <= at <= keys@.len(),
                at - start <= max,
                one@.len() == at - start,
                forall|j: int| 0 <= j < one@.len() ==> (#[trigger] one@[j])@ == base64_encoded(
                    keys@[start + j]@,
                ),
            decreases keys@.len() - at,
        {
            one.push(encode_key(&keys[at]));
            at = at + 1;
        }
        proof {
            assert((n + 1) * max == n * max + max) by (nonlinear_arith);
            assert(texts(one@) =~= batch(keys@, max as nat, n));
        }
        out.push(one);
    }
    proof {
        let n = keys@.len();
        let c = out@.len();
        assert(batch_count(n, max as nat) == c) by {
            assert(c as int == (n + max - 1) / (max as int)) by (nonlinear_arith)
                requires
                    max > 0,
                    (c - 1) * max < n <= c * max,
            ;
        }
    }
    out
}

/// An entry as the endpoint sends it.
#[derive(Debug)]
pub struct EntryResult {
    /// The base64 text of the XDR of what the entry holds.
    pub xdr: String,
    pub last_modified_ledger_seq: u32,
    pub live_until_ledger_seq: Option<u32>,
}

/// What an entry on the wire holds, or what is wrong with it.
pub open spec fn wire_data(xdr: Seq<char>) -> Result<DataView, ErrorView> {
    match base64_decoded(xdr) {
        Err(e) => Err(ErrorView::Base64(e)),
        Ok(bytes) => match decoded_data(bytes) {
            Err(e) => Err(ErrorView::Xdr("decode LedgerEntryData: "@ + e)),
            Ok(d) => Ok(d),
        },
    }
}

/// Whether `f` is the entry on the wire. The endpoint sends what an entry
/// holds and, beside it, the ledger that last changed it; the extension is
/// empty. Such an entry can be encoded, and reads back.
pub open spec fn reads_as(wire: EntryResult, f: FetchedEntry) -> bool {
    match wire_data(wire.xdr@) {
        Ok(data) => f.live_until == wire.live_until_ledger_seq && f.entry@ == (EntryView {
            last_modified_ledger_seq: wire.last_modified_ledger_seq,
            data,
            ext: be32(0),
        }) && bare(f.entry@),
        Err(_) => false,
    }
}

/// Read an entry from the wire.
pub fn decode_entry(wire: &EntryResult) -> (r: Result<FetchedEntry, ForkError>)
    ensures
        (match wire_data(wire.xdr@) {
            Ok(_) => r matches Ok(f) && reads_as(*wire, f),
            Err(e) => r matches Err(f) && f@ == e,
        }),
{
    match base64_decode(wire.xdr.as_str()) {
        Err(e) => Err(ForkError::Base64(e)),
        Ok(bytes) => match decode_data(bytes.as_slice()) {
            Err(e) => Err(ForkError::Xdr(join2("decode LedgerEntryData: ", e.as_str()))),
            Ok(data) => {
                let ext: Vec<u8> = vec![0u8, 0u8, 0u8, 0u8];
                assert(ext@ =~= be32(0));
                Ok(
                    FetchedEntry {
                        entry: LedgerEntry {
                            last_modified_ledger_seq: wire.last_modified_ledger_seq,
                            data,
                            ext,
                        },
                        live_until: wire.live_until_ledger_seq,
                    },
                )
            },
        },
    }
}

/// How many entries at the front of an answer can be read.
pub open spec fn readable(wires: Seq<EntryResult>) -> nat
    decreases wires.len(),
{
    if wires.len() == 0 {
        0
    } else if readable(wires.drop_last()) < wires.len() - 1 {
        readable(wires.drop_last())
    } else if wire_data(wires.last().xdr@) is Ok {
        wires.len()
    } else {
        (wires.len() - 1) as nat
    }
}

/// Read the entries of an answer, in order. The first one that cannot be read
/// is the error.
pub fn decode_entries(wires: &Vec<EntryResult>) -> (r: Result<Vec<FetchedEntry>, ForkError>)
    ensures
        readable(wires@) <= wires@.len(),
        (match r {
            Ok(found) => readable(wires@) == wires@.len() && found@.len() == wires@.len() && (
            forall|i: int|
                0 <= i < wires@.len() ==> reads_as(wires@[i], #[trigger] found@[i])),
            Err(e) => readable(wires@) < wires@.len() && wire_data(
                wires@[readable(wires@) as int].xdr@,
            ) == Err::<DataView, ErrorView>(e@),
        }),
{
    let mut found: Vec<FetchedEntry> = Vec::new();
    let mut i: usize = 0;
    while i < wires.len()
        invariant
            i <= wires@.len(),
            found@.len() == i,
            readable(wires@.take(i as int)) == i,
            forall|k: int| 0 <= k < i ==> reads_as(wires@[k], #[trigger] found@[k]),
        decreases wires@.len() - i,
    {
        assert(wires@.take(i + 1).drop_last() =~= wires@.take(i as int));
        match decode_entry(&wires[i]) {
            Err(e) => {
                proof {
                    lemma_readable_stops(wires@, i as nat);
                }
                return Err(e);
            },
            Ok(entry) => {
                found.push(entry);
            },
        }
        i = i + 1;
    }
    assert(wires@.take(i as int) =~= wires@);
    Ok(found)
}

/// An entry that cannot be read ends what can be read.
proof fn lemma_readable_stops(wires: Seq<EntryResult>, stop: nat)
    requires
        stop < wires.len(),
        readable(wires.take(stop as int)) == stop,
        wire_data(wires[stop as int].xdr@) is Err,
    ensures
        readable(wires) == stop,
    decreases wires.len(),
{
    if stop == wires.len() - 1 {
        assert(wires.drop_last() =~= wires.take(stop as int));
    } else {
        assert(wires.drop_last().take(stop as int) =~= wires.take(stop as int));
        lemma_readable_stops(wires.drop_last(), stop);
    }
}

/// Every key is asked for exactly once and in order: the batches, one after
/// another, are the keys.
pub proof fn law_batches_cover_the_keys(keys: Seq<LedgerKey>, max: nat, k: int)
    requires
        max > 0,
        0 <= k < keys.len(),
    ensures
        0 <= k / (max as int) < batch_count(keys.len(), max),
        0 <= k % (max as int) < batch(keys, max, k / (max as int)).len(),
        batch(keys, max, k / (max as int))[k % (max as int)] == base64_encoded(keys[k]@),
{
    let i = k / (max as int);
    let j = k % (max as int);
    assert(k == i * max + j && 0 <= j < max && 0 <= i) by (nonlinear_arith)
        requires
            max > 0,
            k >= 0,
            i == k / (max as int),
            j == k % (max as int),
    ;
    assert((i + 1) * max == i * max + max) by (nonlinear_arith);
    assert(i < (keys.len() + max - 1) / (max as int)) by (nonlinear_arith)
        requires
            max > 0,
            i * max <= k < keys.len(),
    ;
}

/// No request asks for more keys than allowed, and every batch but the last
/// asks for as many as allowed.
pub proof fn law_batches_keep_the_limit(keys: Seq<LedgerKey>, max: nat, i: int)
    requires
        max > 0,
        0 <= i < batch_count(keys.len(), max),
    ensures
        0 < batch(keys, max, i).len() <= max,
        i + 1 < batch_count(keys.len(), max) ==> batch(keys, max, i).len() == max,
{
    let c = batch_count(keys.len(), max) as int;
    let n = keys.len() as int;
    assert((c - 1) * max < n) by (nonlinear_arith)
        requires
            max > 0,
            c == (n + max - 1) / (max as int),
    ;
    assert(i * max < n && (i + 1 < c ==> (i + 1) * max <= n)) by (nonlinear_arith)
        requires
            max > 0,
            0 <= i < c,
            (c - 1) * max < n,
    ;
    assert((i + 1) * max == i * max + max) by (nonlinear_arith);
}

/// A request is tried again after a time-out, too early, too many requests,
/// or a fault of the server; after any other refusal it is not. An answer that
/// succeeded is no refusal.
pub proof fn law_faults_of_the_server_are_retried(code: u16)
    ensures
        500 <= code <= 599 ==> retryable(code),
        retryable(code) && !(500 <= code <= 599) ==> code == 408 || code == 425 || code == 429,
        code == 408 || code == 425 || code == 429 ==> retryable(code),
        successful(code) <==> code / 100 == 2,
        successful(code) ==> !retryable(code),
{
}

/// A refusal tells the status and what the body says, without the white space
/// around it, and of a long body how it begins.
pub proof fn law_refusals_tell_status_and_body(status: Seq<char>, body: Seq<char>)
    ensures
        0 < trimmed_of(body).len() <= 256 ==> refusal(status, Some(body)) == ErrorView::Transport(
            "HTTP "@ + status + ": "@ + trimmed_of(body),
        ),
        trimmed_of(body).len() > 256 ==> refusal(status, Some(body)) == ErrorView::Transport(
            "HTTP "@ + status + ": "@ + trimmed_of(body).take(256).push('…'),
        ),
        trimmed_of(body).len() == 0 ==> refusal(status, Some(body)) == ErrorView::Transport(
            "HTTP "@ + status + ": "@ + "<empty body>"@,
        ),
        refusal(status, None) == ErrorView::Transport("HTTP "@ + status + ": "@ + "<no body>"@),
{
}

/// Cutting keeps a text that fits, and of a longer one just its beginning,
/// marked as cut.
pub proof fn law_cutting_keeps_the_beginning(s: Seq<char>, max: nat)
    ensures
        s.len() <= max ==> cut(s, max) == s,
        s.len() > max ==> cut(s, max).len() == max + 1 && cut(s, max).last() == '…' && cut(s, max).drop_last()
            == s.take(max as int),
{
    if s.len() > max {
        assert(cut(s, max).drop_last() =~= s.take(max as int));
    }
}

/// Each attempt waits twice as long as the one before, and no wait exceeds
/// the longest duration.
pub proof fn law_waits_double(base: nat, attempt: nat, random: nat)
    requires
        attempt + 1 < 32,
        base * pow2(attempt + 1) + base <= MAX_NANOS,
    ensures
        backoff(base, attempt + 1, random) - jitter(base, random) == 2 * (backoff(base, attempt, random)
            - jitter(base, random)),
        base == 0 ==> backoff(base, attempt, random) == 0,
{
    lemma_pow2_unfold(attempt + 1);
    let p = pow2(attempt);
    assert(base * (2 * p) == 2 * (base * p)) by (nonlinear_arith);
    lemma_jitter_small(base, random);
    assert(base * p <= 2 * (base * p)) by (nonlinear_arith)
        requires
            base >= 0,
            p >= 0,
    {
        assert(base * p >= 0) by (nonlinear_arith)
            requires
                base >= 0,
                p >= 0,
        ;
    }
    assert(base == 0 ==> base * p == 0) by (nonlinear_arith);
}

proof fn lemma_jitter_small(base: nat, random: nat)
    ensures
        jitter(base, random) <= base,
{
    let m = base % 0x1_0000_0000_0000_0000;
    assert(m <= base) by (nonlinear_arith)
        requires
            m == base % 0x1_0000_0000_0000_0000,
    ;
    if m > 0 {
        assert(random % m < m) by (nonlinear_arith)
            requires
                m > 0,
        ;
    }
}

/// No wait exceeds the longest duration.
pub proof fn law_waits_are_capped(base: nat, attempt: nat, random: nat)
    ensures
        backoff(base, attempt, random) <= MAX_NANOS,
{
}

/// A fetched entry holds what the network sent: its data, the ledger that it
/// was last modified in and the ledger up to which it lives.
pub proof fn law_fetched_entries_hold_what_was_sent(
    wire: EntryResult,
    bytes: Seq<u8>,
    data: DataView,
    f: FetchedEntry,
)
    requires
        base64_decoded(wire.xdr@) == Ok::<Seq<u8>, Seq<char>>(bytes),
        decoded_data(bytes) == Ok::<DataView, Seq<char>>(data),
    ensures
        wire_data(wire.xdr@) == Ok::<DataView, ErrorView>(data),
        reads_as(wire, f) ==> f.live_until == wire.live_until_ledger_seq && f.entry@.data == data
            && f.entry@.last_modified_ledger_seq == wire.last_modified_ledger_seq,
{
}

/// Entries are read up to the first one that cannot be.
pub proof fn law_entries_are_read_in_order(wires: Seq<EntryResult>, i: int)
    requires
        0 <= i < wires.len(),
    ensures
        readable(wires) <= wires.len(),
        i < readable(wires) ==> wire_data(wires[i].xdr@) is Ok,
        i == readable(wires) ==> wire_data(wires[i].xdr@) is Err,
    decreases wires.len(),
{
    let rest = wires.drop_last();
    lemma_readable_bound(rest);
    if i < rest.len() {
        law_entries_are_read_in_order(rest, i);
        assert(rest[i] == wires[i]);
    } else {
        assert(wires[i] == wires.last());
    }
}

proof fn lemma_readable_bound(wires: Seq<EntryResult>)
    ensures
        readable(wires) <= wires.len(),
    decreases wires.len(),
{
    if wires.len() > 0 {
        lemma_readable_bound(wires.drop_last());
    }
}

/// A wait that would exceed the longest duration is that long.
pub proof fn law_long_waits_are_the_longest(base: nat, attempt: nat, random: nat)
    requires
        attempt < 32,
        base * pow2(attempt) >= MAX_NANOS,
    ensures
        backoff(base, attempt, random) == MAX_NANOS,
{
}

/// The random part of a wait is the random number itself where it is below
/// the base, and below the base in any case.
pub proof fn law_jitter_stays_below_the_base(base: nat, random: nat)
    requires
        0 < base < 0x1_0000_0000_0000_0000,
    ensures
        jitter(base, random) < base,
        random < base ==> jitter(base, random) == random,
{
    assert(base % 0x1_0000_0000_0000_0000 == base) by (nonlinear_arith)
        requires
            0 < base < 0x1_0000_0000_0000_0000,
    ;
    assert(random % base < base) by (nonlinear_arith)
        requires
            base > 0,
    ;
    if random < base {
        assert(random % base == random) by (nonlinear_arith)
            requires
                random < base,
        ;
    }
}

/// A failure that may pass is tried again as long as the budget lasts, after a
/// wait that grows with the attempts; when it is used up, or at once where the
/// failure is permanent, the error itself ends the request.
pub proof fn law_retries_last_as_long_as_the_budget(
    config: RpcConfig,
    attempt: u32,
    e: ForkError,
    random: u64,
    passing: RetryStep,
    permanent: RetryStep,
)
    requires
        call_ensures(after_failure, (&config, attempt, RetryDecision::Retry(e), random), passing),
        call_ensures(after_failure, (&config, attempt, RetryDecision::Fatal(e), random), permanent),
    ensures
        attempt < config.retries ==> passing is Wait,
        attempt >= config.retries ==> passing == RetryStep::GiveUp(e),
        permanent == RetryStep::GiveUp(e),
        passing matches RetryStep::Wait(d) ==> (attempt < 32 && config.base_retry_delay@ > 0
            && config.base_retry_delay@ * pow2(attempt as nat) + config.base_retry_delay@ <= MAX_NANOS
            ==> config.base_retry_delay@ * pow2(attempt as nat) <= d@ < config.base_retry_delay@ * pow2(
            attempt as nat,
        ) + config.base_retry_delay@),
{
    let base = config.base_retry_delay@;
    if attempt < 32 && base > 0 && base * pow2(attempt as nat) + base <= MAX_NANOS {
        law_backoff_window(base, attempt as nat, random as nat);
    }
}

/// An answer with a status that tells of success is taken; one that tells of a
/// passing fault is tried again; any other ends the request. Either error
/// tells the status.
pub proof fn law_statuses_decide(code: u16, status: &str, body: Option<&str>, r: Option<RetryDecision>)
    requires
        call_ensures(judge_status, (code, status, body), r),
    ensures
        r is None <==> 200 <= code <= 299,
        r matches Some(RetryDecision::Retry(e)) ==> code == 408 || code == 425 || code == 429 || 500 <= code
            <= 599,
        code == 408 || code == 425 || code == 429 || 500 <= code <= 599 ==> (r matches Some(
            RetryDecision::Retry(_),
        )),
        r matches Some(RetryDecision::Retry(e)) ==> (e@ matches ErrorView::Transport(t) && t.take(
            5int + status@.len(),
        ) == "HTTP "@ + status@),
        r matches Some(RetryDecision::Fatal(e)) ==> (e@ matches ErrorView::Transport(t) && t.take(
            5int + status@.len(),
        ) == "HTTP "@ + status@),
{
    reveal_strlit("HTTP ");
    let t = refusal(status@, text_option(body))->Transport_0;
    assert(t.take(5int + status@.len()) =~= "HTTP "@ + status@);
}

/// An answer gives its result, unless it holds an error.
pub proof fn law_answers_give_their_result(answer: JsonRpcResponse<u64>, r: Result<u64, ForkError>)
    requires
        call_ensures(JsonRpcResponse::<u64>::into_result, (answer,), r),
    ensures
        r is Ok <==> answer.error is None && answer.result is Some,
        r matches Ok(v) ==> answer.result == Some(v),
        answer.error matches Some(e) ==> (r matches Err(f) && f@ == ErrorView::RpcError(e@)),
{
}

/// The close time of a ledger is the number that the network told of it.
pub proof fn law_close_times_are_read(sequence: u32, ledgers: Vec<String>, t: u64, r: Result<u64, ForkError>)
    requires
        call_ensures(ledger_close_time, (sequence, &ledgers), r),
        ledgers@.len() > 0,
        ledgers@[0]@ == decimal(t as int),
    ensures
        r == Ok::<u64, ForkError>(t),
{
    law_decimals_read_back(t as int);
}

/// Entries are handed back one for each that the network sent, in order, each
/// with what was sent of it; one that cannot be read fails them all.
pub proof fn law_entries_are_decoded_in_order(
    wires: Vec<EntryResult>,
    r: Result<Vec<FetchedEntry>, ForkError>,
    i: int,
)
    requires
        call_ensures(decode_entries, (&wires,), r),
        0 <= i < wires@.len(),
    ensures
        wire_data(wires@[i].xdr@) is Err ==> r is Err,
        r matches Ok(found) ==> found@.len() == wires@.len() && found@[i].live_until
            == wires@[i].live_until_ledger_seq && found@[i].entry@.last_modified_ledger_seq
            == wires@[i].last_modified_ledger_seq && wire_data(wires@[i].xdr@) == Ok::<DataView, ErrorView>(
            found@[i].entry@.data,
        ),
        r is Err ==> exists|j: int| 0 <= j < wires@.len() && wire_data((#[trigger] wires@[j]).xdr@) is Err,
{
    law_entries_are_read_in_order(wires@, i);
    if let Ok(found) = r {
        assert(reads_as(wires@[i], found@[i]));
    } else {
        let n = readable(wires@) as int;
        assert(wire_data(wires@[n].xdr@) is Err);
    }
}

/// What the network sent and cannot be read is an error that tells which step
/// failed.
pub proof fn law_unreadable_entries_tell_why(xdr: Seq<char>)
    ensures
        base64_decoded(xdr) matches Err(e) ==> wire_data(xdr) == Err::<DataView, ErrorView>(
            ErrorView::Base64(e),
        ),
        base64_decoded(xdr) matches Ok(b) ==> (decoded_data(b) matches Err(e) ==> wire_data(xdr) == Err::<
            DataView,
            ErrorView,
        >(ErrorView::Xdr("decode LedgerEntryData: "@ + e))),
{
}

/// After very many attempts the wait no longer grows.
pub proof fn law_waits_stop_growing(base: nat, attempt: nat, random: nat)
    requires
        attempt >= 32,
        base * 0xFFFF_FFFF + base <= MAX_NANOS,
    ensures
        backoff(base, attempt, random) == base * 0xFFFF_FFFF + jitter(base, random),
{
    lemma_jitter_small(base, random);
}

/// Each batch that is asked for holds the texts of its keys, in order, and
/// together the batches hold every key.
pub proof fn law_batches_are_asked_for(keys: &[LedgerKey], max: usize, r: Vec<Vec<String>>, k: int)
    requires
        max > 0,
        call_ensures(key_batches, (keys, max), r),
        0 <= k < keys@.len(),
    ensures
        ({
            let i = k / (max as int);
            let j = k % (max as int);
            &&& 0 <= i < r@.len()
            &&& 0 <= j < r@[i]@.len() <= max
            &&& r@[i]@[j]@ == base64_encoded(keys@[k]@)
        }),
{
    let i = k / (max as int);
    let j = k % (max as int);
    law_batches_cover_the_keys(keys@, max as nat, k);
    law_batches_keep_the_limit(keys@, max as nat, i);
    assert(texts(r@[i]@) == batch(keys@, max as nat, i));
    assert(texts(r@[i]@)[j] == r@[i]@[j]@);
}

/// A network's id is the hash of its passphrase.
pub proof fn law_networks_are_known_by_their_passphrase(passphrase: String, r: NetworkMetadata)
    requires
        call_ensures(NetworkMetadata::from_passphrase, (passphrase,), r),
    ensures
        r.passphrase@ == passphrase@,
        r.network_id@ == sha256_of(vstd::utf8::encode_utf8(passphrase@)),
{
}

} // verus!

//! A fork of a network: how it is configured, what it starts from, and how
//! its clock moves.

use vstd::prelude::*;

use crate::cache::{usual_ledger, usual_ledger_info, Snapshot};
use crate::codec::{account_key_xdr, asset_xdr, is_asset, trustline_key_xdr, TrustLineAsset};
use crate::error::{ErrorView, ForkError};
use crate::fees::{
    fetch_fee_configuration, free_schedule, schedule_from, FeeConfiguration, FeeOutcome,
    FeeProgress,
};
use crate::ledger::{
    entry_xdr, fresh_account, fresh_trustline, law_account_keys_differ, plain, reads_back, DataView,
};
use crate::rpc::{LatestLedger, NetworkMetadata, RpcConfig};
use crate::source::{
    can_be_loaded, exports, first_unencodable, has_key, law_loaded_rows_are_known,
    law_loading_touches_loaded_keys, loaded, looked_up, rows_view, FetchMode, Held, LedgerRow,
    LookupView, RowView, RpcSnapshotSource, SourceView,
};
use crate::strkey::account_of_strkey;
use crate::test_accounts::{
    generate, is_test_account, usdc_mainnet_trustline_asset, DEFAULT_BALANCE_STROOPS, TestAccount,
    USDC_MAINNET_ISSUER,
};

verus! {

/// How long a ledger takes to close, in seconds.
pub const LEDGER_INTERVAL_SECONDS: u64 = 5;

/// What contracts are told of the ledger.
#[derive(Debug, Clone, Copy, PartialEq, Eq)]
pub struct LedgerInfo {
    pub protocol_version: u32,
    pub sequence_number: u32,
    /// In Unix seconds.
    pub timestamp: u64,
    pub network_id: [u8; 32],
    pub base_reserve: u32,
    pub min_persistent_entry_ttl: u32,
    pub min_temp_entry_ttl: u32,
    pub max_entry_ttl: u32,
}

/// What to fork and how.
#[derive(Debug, Clone)]
pub struct ForkConfig {
    pub rpc_url: String,
    pub cache_path: Option<String>,
    pub network_id: Option<[u8; 32]>,
    pub fetch_mode: Option<FetchMode>,
    pub pinned_ledger: Option<u32>,
    pub pinned_timestamp: Option<u64>,
    pub max_protocol_version: Option<u32>,
    pub rpc_config: RpcConfig,
    pub tracing: bool,
    /// How many test accounts the fork starts with.
    pub test_account_count: usize,
    /// The assets that each test account has a trustline for.
    pub test_trustlines: Vec<TrustLineAsset>,
}

impl ForkConfig {
    /// Fork the network behind an endpoint: at its latest ledger, with ten
    /// test accounts that can hold USDC, and without tracing.
    pub fn new(rpc_url: &str) -> (r: ForkConfig)
        ensures
            r.rpc_url@ == rpc_url@,
            r.cache_path is None,
            r.network_id is None,
            r.fetch_mode is None,
            r.pinned_ledger is None,
            r.pinned_timestamp is None,
            r.max_protocol_version is None,
            r.rpc_config.retries == 3,
            r.rpc_config.base_retry_delay@ == 300_000_000,
            r.rpc_config.request_timeout matches Some(t) && t@ == 30_000_000_000,
            r.rpc_config.max_keys_per_request == 200,
            !r.tracing,
            r.test_account_count == 10,
            (match account_of_strkey(USDC_MAINNET_ISSUER@) {
                Some(k) => r.test_trustlines@.len() == 1 && (r.test_trustlines@[0]
                    matches TrustLineAsset::CreditAlphanum4 { code, issuer } && issuer@ == k && code@
                    == seq![85u8, 83u8, 68u8, 67u8]),
                None => r.test_trustlines@.len() == 0,
            }),
    {
        let mut test_trustlines: Vec<TrustLineAsset> = Vec::new();
        match usdc_mainnet_trustline_asset() {
            Some(asset) => test_trustlines.push(asset),
            None => {},
        }
        ForkConfig {
            rpc_url: rpc_url.to_owned(),
            cache_path: None,
            network_id: None,
            fetch_mode: None,
            pinned_ledger: None,
            pinned_timestamp: None,
            max_protocol_version: None,
            rpc_config: RpcConfig::default(),
            tracing: false,
            test_account_count: 10,
            test_trustlines,
        }
    }

    /// Keep what was fetched in a file.
    pub fn cache_file(self, path: &str) -> (r: ForkConfig)
        ensures
            r.cache_path matches Some(p) && p@ == path@,
            r == (ForkConfig { cache_path: r.cache_path, ..self }),
    {
        let mut r = self;
        r.cache_path = Some(path.to_owned());
        r
    }

    /// Report this network id instead of the endpoint's.
    pub fn network_id(self, id: [u8; 32]) -> (r: ForkConfig)
        ensures
            r == (ForkConfig { network_id: Some(id), ..self }),
    {
        let mut r = self;
        r.network_id = Some(id);
        r
    }

    /// Choose what happens when the network cannot be asked.
    pub fn fetch_mode(self, mode: FetchMode) -> (r: ForkConfig)
        ensures
            r == (ForkConfig { fetch_mode: Some(mode), ..self }),
    {
        let mut r = self;
        r.fetch_mode = Some(mode);
        r
    }

    /// Report this ledger instead of the latest one.
    pub fn at_ledger(self, sequence: u32) -> (r: ForkConfig)
        ensures
            r == (ForkConfig { pinned_ledger: Some(sequence), ..self }),
    {
        let mut r = self;
        r.pinned_ledger = Some(sequence);
        r
    }

    /// Report this time instead of the latest ledger's close time.
    pub fn pinned_timestamp(self, unix_seconds: u64) -> (r: ForkConfig)
        ensures
            r == (ForkConfig { pinned_timestamp: Some(unix_seconds), ..self }),
    {
        let mut r = self;
        r.pinned_timestamp = Some(unix_seconds);
        r
    }

    /// Report at most this protocol version.
    pub fn max_protocol_version(self, version: u32) -> (r: ForkConfig)
        ensures
            r == (ForkConfig { max_protocol_version: Some(version), ..self }),
    {
        let mut r = self;
        r.max_protocol_version = Some(version);
        r
    }

    /// Choose how the transport behaves.
    pub fn rpc_config(self, config: RpcConfig) -> (r: ForkConfig)
        ensures
            r == (ForkConfig { rpc_config: config, ..self }),
    {
        let mut r = self;
        r.rpc_config = config;
        r
    }

    /// Choose whether calls are traced.
    pub fn tracing(self, enabled: bool) -> (r: ForkConfig)
        ensures
            r == (ForkConfig { tracing: enabled, ..self }),
    {
        let mut r = self;
        r.tracing = enabled;
        r
    }

    /// Choose how many test accounts the fork starts with.
    pub fn test_account_count(self, count: usize) -> (r: ForkConfig)
        ensures
            r == (ForkConfig { test_account_count: count, ..self }),
    {
        let mut r = self;
        r.test_account_count = count;
        r
    }

    /// Choose the assets that each test account has a trustline for.
    pub fn test_account_trustlines(self, assets: Vec<TrustLineAsset>) -> (r: ForkConfig)
        ensures
            r == (ForkConfig { test_trustlines: assets, ..self }),
    {
        let mut r = self;
        r.test_trustlines = assets;
        r
    }

    /// Whether the endpoint has to be asked which network it serves.
    pub fn needs_network(&self) -> (r: bool)
        ensures
            r == (self.network_id is None),
    {
        match self.network_id {
            Some(_) => false,
            None => true,
        }
    }
}

// ---------------------------------------------------------------------------
// The fork
// ---------------------------------------------------------------------------

/// A fork.
#[derive(Debug)]
pub struct ForkedEnv {
    source: RpcSnapshotSource,
    cache_path: Option<String>,
    ledger_sequence: u32,
    timestamp: u64,
    passphrase: Option<String>,
    fee_configuration: Option<FeeConfiguration>,
    test_accounts: Vec<TestAccount>,
    tracing: bool,
    ledger: LedgerInfo,
}

/// The content of a fork.
#[verifier::ext_equal]
pub struct ForkView {
    /// What is known of the ledger.
    pub source: SourceView,
    pub cache_path: Option<Seq<char>>,
    /// The ledger that was forked.
    pub fork_sequence: u32,
    /// The time of the fork.
    pub fork_timestamp: u64,
    pub passphrase: Option<Seq<char>>,
    /// The fee schedule, once it has been read.
    pub fees: Option<FeeConfiguration>,
    pub accounts: Seq<TestAccount>,
    pub tracing: bool,
    /// What contracts are told of the ledger now.
    pub ledger: LedgerInfo,
}

/// The view of an optional text.
pub open spec fn opt_text(s: Option<String>) -> Option<Seq<char>> {
    match s {
        Some(t) => Some(t@),
        None => None,
    }
}

impl View for ForkedEnv {
    type V = ForkView;

    closed spec fn view(&self) -> ForkView {
        ForkView {
            source: self.source@,
            cache_path: opt_text(self.cache_path),
            fork_sequence: self.ledger_sequence,
            fork_timestamp: self.timestamp,
            passphrase: opt_text(self.passphrase),
            fees: self.fee_configuration,
            accounts: self.test_accounts@,
            tracing: self.tracing,
            ledger: self.ledger,
        }
    }
}

/// The row of a test account.
pub open spec fn account_row(a: TestAccount, ledger: u32) -> RowView {
    RowView {
        key: account_key_xdr(a.public_key@),
        entry: fresh_account(a.public_key@, a.balance_stroops, ledger),
        live_until: None,
    }
}

/// The row of a test account's trustline.
pub open spec fn trustline_row(a: TestAccount, asset: TrustLineAsset, ledger: u32) -> RowView {
    RowView {
        key: trustline_key_xdr(a.public_key@, asset_xdr(asset)),
        entry: fresh_trustline(a.public_key@, asset_xdr(asset), 0, ledger),
        live_until: None,
    }
}

/// The rows of a test account: its own, then one for each trustline.
pub open spec fn rows_of_account(a: TestAccount, assets: Seq<TrustLineAsset>, ledger: u32) -> Seq<
    RowView,
> {
    seq![account_row(a, ledger)] + assets.map_values(|x: TrustLineAsset| trustline_row(a, x, ledger))
}

/// The rows of some test accounts, one account after another.
pub open spec fn rows_of_accounts(accounts: Seq<TestAccount>, assets: Seq<TrustLineAsset>, ledger: u32) -> Seq<
    RowView,
>
    decreases accounts.len(),
{
    if accounts.len() == 0 {
        Seq::empty()
    } else {
        rows_of_accounts(accounts.drop_last(), assets, ledger) + rows_of_account(
            accounts.last(),
            assets,
            ledger,
        )
    }
}

/// The rows that put test accounts on a fork.
pub fn test_account_rows(accounts: &Vec<TestAccount>, assets: &Vec<TrustLineAsset>, ledger: u32) -> (r:
    Vec<LedgerRow>)
    ensures
        rows_view(r@) == rows_of_accounts(accounts@, assets@, ledger),
{
    let mut out: Vec<LedgerRow> = Vec::new();
    let mut i: usize = 0;
    assert(accounts@.take(0) =~= Seq::<TestAccount>::empty());
    assert(rows_view(out@) =~= Seq::<RowView>::empty());
    while i < accounts.len()
        invariant
            i <= accounts@.len(),
            rows_view(out@) == rows_of_accounts(accounts@.take(i as int), assets@, ledger),
        decreases accounts@.len() - i,
    {
        let ghost start = rows_view(out@);
        let a = &accounts[i];
        assert(accounts@.take(i + 1).drop_last() =~= accounts@.take(i as int));
        assert(accounts@.take(i + 1).last() == *a);
        let (key, entry) = a.ledger_entry(ledger);
        out.push(LedgerRow { key, entry, live_until: None });
        assert(rows_view(out@) =~= start.push(account_row(*a, ledger)));
        let mut j: usize = 0;
        let ghost lines = assets@.map_values(|x: TrustLineAsset| trustline_row(*a, x, ledger));
        assert(rows_view(out@) =~= start + seq![account_row(*a, ledger)] + lines.take(0));
        while j < assets.len()
            invariant
                j <= assets@.len(),
                lines == assets@.map_values(|x: TrustLineAsset| trustline_row(*a, x, ledger)),
                rows_view(out@) == start + seq![account_row(*a, ledger)] + lines.take(j as int),
            decreases assets@.len() - j,
        {
            let ghost now = rows_view(out@);
            let (key, entry) = a.trustline_entry(&assets[j], ledger);
            out.push(LedgerRow { key, entry, live_until: None });
            assert(rows_view(out@) =~= now.push(trustline_row(*a, assets@[j as int], ledger)));
            j = j + 1;
            assert(rows_view(out@) =~= start + seq![account_row(*a, ledger)] + lines.take(j as int));
        }
        assert(lines.take(j as int) =~= lines);
        assert(rows_view(out@) =~= start + rows_of_account(*a, assets@, ledger));
        i = i + 1;
    }
    assert(accounts@.take(i as int) =~= accounts@);
    out
}

/// The protocol version to report: the network's, unless it is above the
/// limit.
pub open spec fn capped_protocol(version: u32, max: Option<u32>) -> u32 {
    match max {
        Some(m) => if version > m {
            m
        } else {
            version
        },
        None => version,
    }
}

/// A value that was pinned, or else the network's.
pub open spec fn pinned_or<T>(pinned: Option<T>, network: T) -> T {
    match pinned {
        Some(p) => p,
        None => network,
    }
}

/// What contracts are told of the ledger when a fork starts.
pub open spec fn first_ledger(c: ForkConfig, latest: LatestLedger, info: LedgerInfo) -> bool {
    &&& info.protocol_version == capped_protocol(latest.protocol_version, c.max_protocol_version)
    &&& info.sequence_number == pinned_or(c.pinned_ledger, latest.sequence)
    &&& info.timestamp == pinned_or(c.pinned_timestamp, latest.close_time)
    &&& usual_ledger(info)
}

/// Whether every row can be encoded.
pub open spec fn encodable(rows: Seq<RowView>) -> bool {
    forall|i: int| 0 <= i < rows.len() ==> entry_xdr((#[trigger] rows[i]).entry) is Ok
}

/// The network id and passphrase of a fork: the override, of which no
/// passphrase is known, or what the endpoint told.
pub open spec fn fork_network(c: ForkConfig, network: Option<NetworkMetadata>) -> (Seq<u8>, Option<Seq<char>>) {
    match c.network_id {
        Some(id) => (id@, None),
        None => (network->0.network_id@, Some(network->0.passphrase@)),
    }
}

impl ForkConfig {
    /// Start a fork. `cached` is what the cache file holds, `latest` the
    /// endpoint's latest ledger, and `network` the network that it serves,
    /// which is needed unless the network id is overridden. It fails only
    /// where a cached entry cannot be encoded.
    pub fn build(
        self,
        cached: &Vec<LedgerRow>,
        latest: LatestLedger,
        network: Option<NetworkMetadata>,
    ) -> (r: Result<ForkedEnv, ForkError>)
        requires
            self.network_id is Some || network is Some,
        ensures
            r is Ok <==> encodable(rows_view(cached@)),
            can_be_loaded(cached@) ==> r is Ok,
            r matches Err(e) ==> exists|n: int| first_unencodable(cached@, n, e@),
            r matches Ok(f) ==> {
                &&& f@.source == (SourceView {
                    known: loaded(
                        loaded(Map::empty(), rows_view(cached@)),
                        rows_of_accounts(
                            f@.accounts,
                            self.test_trustlines@,
                            pinned_or(self.pinned_ledger, latest.sequence),
                        ),
                    ),
                    fetch_count: 0,
                    fetch_mode: pinned_or(self.fetch_mode, FetchMode::Strict),
                })
                &&& f@.cache_path == opt_text(self.cache_path)
                &&& f@.fork_sequence == pinned_or(self.pinned_ledger, latest.sequence)
                &&& f@.fork_timestamp == pinned_or(self.pinned_timestamp, latest.close_time)
                &&& f@.passphrase == fork_network(self, network).1
                &&& f@.fees is None
                &&& f@.accounts.len() == self.test_account_count
                &&& forall|i: int|
                    0 <= i < f@.accounts.len() ==> is_test_account(#[trigger] f@.accounts[i], i)
                &&& f@.tracing == self.tracing
                &&& first_ledger(self, latest, f@.ledger)
                &&& f@.ledger.network_id@ == fork_network(self, network).0
            },
    {
        let source = RpcSnapshotSource::new();
        let mut source = match self.fetch_mode {
            Some(mode) => source.with_fetch_mode(mode),
            None => source,
        };
        match source.preload(cached) {
            Ok(_) => {
                proof {
                    lemma_encodable(cached@);
                }
            },
            Err(e) => {
                proof {
                    lemma_encodable(cached@);
                }
                return Err(e);
            },
        }
        let (network_id, passphrase) = match self.network_id {
            Some(id) => (id, None),
            None => {
                let meta = network.unwrap();
                (meta.network_id, Some(meta.passphrase))
            },
        };
        let sequence: u32 = match self.pinned_ledger {
            Some(s) => s,
            None => latest.sequence,
        };
        let protocol_version: u32 = match self.max_protocol_version {
            Some(max) => if latest.protocol_version > max {
                max
            } else {
                latest.protocol_version
            },
            None => latest.protocol_version,
        };
        let timestamp: u64 = match self.pinned_timestamp {
            Some(t) => t,
            None => latest.close_time,
        };
        let ledger = usual_ledger_info(sequence, timestamp, network_id, protocol_version);
        let test_accounts = generate(self.test_account_count);
        let rows = test_account_rows(&test_accounts, &self.test_trustlines, sequence);
        let minted = source.preload(&rows);
        proof {
            assert forall|i: int| 0 <= i < rows@.len() implies plain((#[trigger] rows@[i]).entry@) by {
                lemma_rows_are_plain(test_accounts@, self.test_trustlines@, sequence, i);
                assert(rows_view(rows@)[i].entry == rows@[i].entry@);
            }
        }
        match minted {
            Ok(_) => Ok(
                ForkedEnv {
                    source,
                    cache_path: self.cache_path,
                    ledger_sequence: sequence,
                    timestamp,
                    passphrase,
                    fee_configuration: None,
                    test_accounts,
                    tracing: self.tracing,
                    ledger,
                },
            ),
            Err(e) => Err(e),
        }
    }
}

proof fn lemma_encodable(rows: Seq<LedgerRow>)
    ensures
        encodable(rows_view(rows)) <==> (forall|i: int|
            0 <= i < rows.len() ==> entry_xdr((#[trigger] rows[i]).entry@) is Ok),
{
    if encodable(rows_view(rows)) {
        assert forall|i: int| 0 <= i < rows.len() implies entry_xdr((#[trigger] rows[i]).entry@) is Ok by {
            assert(entry_xdr(rows_view(rows)[i].entry) is Ok);
        }
    }
    if forall|i: int| 0 <= i < rows.len() ==> entry_xdr((#[trigger] rows[i]).entry@) is Ok {
        assert forall|i: int| 0 <= i < rows_view(rows).len() implies entry_xdr(
            (#[trigger] rows_view(rows)[i]).entry,
        ) is Ok by {
            assert(entry_xdr(rows[i].entry@) is Ok);
        }
    }
}

/// The rows of test accounts can be encoded.
proof fn lemma_rows_are_plain(accounts: Seq<TestAccount>, assets: Seq<TrustLineAsset>, ledger: u32, i: int)
    requires
        0 <= i < rows_of_accounts(accounts, assets, ledger).len(),
    ensures
        plain(rows_of_accounts(accounts, assets, ledger)[i].entry),
    decreases accounts.len(),
{
    let front = rows_of_accounts(accounts.drop_last(), assets, ledger);
    if i < front.len() {
        lemma_rows_are_plain(accounts.drop_last(), assets, ledger, i);
    } else if i > front.len() {
        assert(is_asset(asset_xdr(assets[i - front.len() - 1])));
    }
}

// ---------------------------------------------------------------------------
// Reading and moving the fork
// ---------------------------------------------------------------------------

/// A number of 32 bits after adding to it, at most the greatest one.
pub open spec fn capped_sum32(a: u32, b: int) -> u32 {
    if a + b > u32::MAX {
        u32::MAX
    } else {
        (a + b) as u32
    }
}

/// A number of 64 bits after adding to it, at most the greatest one.
pub open spec fn capped_sum64(a: u64, b: int) -> u64 {
    if a + b > u64::MAX {
        u64::MAX
    } else {
        (a + b) as u64
    }
}

/// A ledger after some ledgers and seconds have passed.
pub open spec fn warped(l: LedgerInfo, ledgers: u32, seconds: u64) -> LedgerInfo {
    LedgerInfo {
        sequence_number: capped_sum32(l.sequence_number, ledgers as int),
        timestamp: capped_sum64(l.timestamp, seconds as int),
        ..l
    }
}

/// The ledgers that close in some seconds, at most as many as 32 bits hold.
pub open spec fn ledgers_in(seconds: u64) -> u32 {
    if seconds / LEDGER_INTERVAL_SECONDS > u32::MAX {
        u32::MAX
    } else {
        (seconds / LEDGER_INTERVAL_SECONDS) as u32
    }
}

/// The seconds that some ledgers take to close.
pub open spec fn seconds_of(ledgers: u32) -> u64 {
    (ledgers * LEDGER_INTERVAL_SECONDS) as u64
}

/// A ledger with another number and another time.
pub open spec fn clock_set(l: LedgerInfo, sequence_number: u32, timestamp: u64) -> LedgerInfo {
    LedgerInfo { sequence_number, timestamp, ..l }
}

/// A ledger after some time has passed, and the ledgers in it have closed.
pub open spec fn time_passed(l: LedgerInfo, seconds: u64) -> LedgerInfo {
    warped(l, ledgers_in(seconds), seconds)
}

/// A ledger after some more have closed, and the time that they take passed.
pub open spec fn ledgers_closed(l: LedgerInfo, ledgers: u32) -> LedgerInfo {
    warped(l, ledgers, seconds_of(ledgers))
}

/// A call that brings a balance to its target.
#[derive(Debug, Clone, Copy, PartialEq, Eq)]
pub enum TokenCall {
    /// The balance is too low by this much.
    Mint(i128),
    /// The balance is too high by this much.
    Burn(i128),
}

impl ForkedEnv {
    /// How many fetches have been begun.
    pub fn fetch_count(&self) -> (r: u32)
        ensures
            r == self@.source.fetch_count,
    {
        self.source.fetch_count()
    }

    /// Let ledgers close and time pass, as far as contracts are told.
    pub fn warp(&mut self, ledgers: u32, seconds: u64)
        ensures
            final(self)@ == (ForkView { ledger: warped(old(self)@.ledger, ledgers, seconds), ..old(self)@ }),
    {
        self.ledger.sequence_number = self.ledger.sequence_number.saturating_add(ledgers);
        self.ledger.timestamp = self.ledger.timestamp.saturating_add(seconds);
    }

    /// Go on from the ledger and the time that contracts are told.
    pub fn set_clock(&mut self, sequence_number: u32, timestamp: u64)
        ensures
            final(self)@ == (ForkView {
                ledger: clock_set(old(self)@.ledger, sequence_number, timestamp),
                ..old(self)@
            }),
    {
        self.ledger.sequence_number = sequence_number;
        self.ledger.timestamp = timestamp;
    }

    /// Let time pass; one ledger closes every five seconds.
    pub fn warp_time(&mut self, seconds: u64)
        ensures
            final(self)@ == (ForkView { ledger: time_passed(old(self)@.ledger, seconds), ..old(self)@ }),
    {
        let whole: u64 = seconds / LEDGER_INTERVAL_SECONDS;
        let ledgers: u32 = if whole > u32::MAX as u64 {
            u32::MAX
        } else {
            whole as u32
        };
        self.warp(ledgers, seconds);
    }

    /// Let ledgers close; each takes five seconds.
    pub fn warp_ledger(&mut self, ledgers: u32)
        ensures
            final(self)@ == (ForkView { ledger: ledgers_closed(old(self)@.ledger, ledgers), ..old(self)@ }),
    {
        let seconds: u64 = ledgers as u64 * LEDGER_INTERVAL_SECONDS;
        self.warp(ledgers, seconds);
    }

    /// The call that brings a token balance from `current` to exactly
    /// `amount`, if one is needed. A token burns a signed amount, so the one
    /// difference whose negation does not fit in 128 bits is refused.
    pub fn deal_token(&self, current: i128, amount: i128) -> (r: Result<Option<TokenCall>, ForkError>)
        requires
            i128::MIN <= amount - current <= i128::MAX,
        ensures
            (match r {
                Ok(None) => amount == current,
                Ok(Some(TokenCall::Mint(delta))) => delta > 0 && current + delta == amount,
                Ok(Some(TokenCall::Burn(delta))) => delta > 0 && current - delta == amount,
                Err(e) => amount - current == i128::MIN && e@ == ErrorView::Host(
                    "amount: i128::MIN delta unreachable"@,
                ),
            }),
    {
        let delta: i128 = amount - current;
        if delta == 0 {
            Ok(None)
        } else if delta > 0 {
            Ok(Some(TokenCall::Mint(delta)))
        } else if delta == i128::MIN {
            Err(ForkError::Host("amount: i128::MIN delta unreachable".to_owned()))
        } else {
            Ok(Some(TokenCall::Burn(-delta)))
        }
    }

    /// The passphrase of the network, where it is known.
    pub fn passphrase(&self) -> (r: Option<&str>)
        ensures
            (match self@.passphrase {
                Some(p) => r matches Some(s) && s@ == p,
                None => r is None,
            }),
    {
        match &self.passphrase {
            Some(p) => Some(p.as_str()),
            None => None,
        }
    }

    /// The network id.
    pub fn network_id(&self) -> (r: [u8; 32])
        ensures
            r == self@.ledger.network_id,
    {
        self.ledger.network_id
    }

    /// The protocol version.
    pub fn protocol_version(&self) -> (r: u32)
        ensures
            r == self@.ledger.protocol_version,
    {
        self.ledger.protocol_version
    }

    /// The number of the ledger that contracts are told now.
    pub fn ledger_sequence(&self) -> (r: u32)
        ensures
            r == self@.ledger.sequence_number,
    {
        self.ledger.sequence_number
    }

    /// The time that contracts are told now.
    pub fn ledger_close_time(&self) -> (r: u64)
        ensures
            r == self@.ledger.timestamp,
    {
        self.ledger.timestamp
    }

    /// What contracts are told of the ledger now.
    pub fn ledger_info(&self) -> (r: LedgerInfo)
        ensures
            r == self@.ledger,
    {
        self.ledger
    }

    /// Whether calls are traced.
    pub fn tracing(&self) -> (r: bool)
        ensures
            r == self@.tracing,
    {
        self.tracing
    }

    /// What is known of the ledger.
    pub fn snapshot_source(&self) -> (r: &RpcSnapshotSource)
        ensures
            r@ == self@.source,
    {
        &self.source
    }

    /// What is known of the ledger, to be added to.
    pub fn snapshot_source_mut(&mut self) -> (r: &mut RpcSnapshotSource)
        ensures
            r@ == old(self)@.source,
            final(self)@ == (ForkView { source: final(r)@, ..old(self)@ }),
    {
        &mut self.source
    }

    /// The accounts that the fork started with.
    pub fn test_accounts(&self) -> (r: &Vec<TestAccount>)
        ensures
            r@ == self@.accounts,
    {
        &self.test_accounts
    }

    /// The network's fee schedule. It is read once, and then kept. Where a
    /// setting has not been asked for yet, its key is handed back: once it
    /// has been fetched, reading can be tried again.
    pub fn fee_configuration(&mut self) -> (r: Result<FeeProgress, ForkError>)
        ensures
            (match old(self)@.fees {
                Some(c) => (r matches Ok(FeeProgress::Ready(d)) && d == c) && final(self)@ == old(self)@,
                None => match schedule_from(old(self)@.source.known, 0, free_schedule()) {
                    FeeOutcome::Ready(c) => {
                        &&& r matches Ok(FeeProgress::Ready(d)) && d == c
                        &&& final(self)@ == (ForkView { fees: Some(c), ..old(self)@ })
                    },
                    FeeOutcome::Missing(k) => {
                        &&& r matches Ok(FeeProgress::Missing(key)) && key@ == k
                        &&& final(self)@ == old(self)@
                    },
                    FeeOutcome::Failed(e) => {
                        &&& r matches Err(f) && f@ == e
                        &&& final(self)@ == old(self)@
                    },
                },
            }),
    {
        match self.fee_configuration {
            Some(c) => {
                return Ok(FeeProgress::Ready(c));
            },
            None => {},
        }
        match fetch_fee_configuration(&self.source) {
            Ok(FeeProgress::Ready(c)) => {
                self.fee_configuration = Some(c);
                Ok(FeeProgress::Ready(c))
            },
            other => other,
        }
    }

    /// The snapshot that keeps what the fork knows, and the file it belongs
    /// into; nothing where there is no file, or nothing to keep. The snapshot
    /// tells of the ledger that was forked, however far the fork has moved
    /// since.
    pub fn save_cache(&self) -> (r: Result<Option<(String, Snapshot)>, ForkError>)
        ensures
            (match r {
                Ok(None) => self@.cache_path is None || (forall|k: Seq<u8>| #[trigger]
                    self@.source.known.dom().contains(k) ==> self@.source.known[k] is None),
                Ok(Some((path, snapshot))) => {
                    &&& self@.cache_path == Some(path@)
                    &&& snapshot.rows@.len() > 0
                    &&& exports(self@.source.known, snapshot.rows@)
                    &&& can_be_loaded(snapshot.rows@)
                    &&& usual_ledger(snapshot.ledger)
                    &&& snapshot.ledger.sequence_number == self@.fork_sequence
                    &&& snapshot.ledger.timestamp == self@.fork_timestamp
                    &&& snapshot.ledger.network_id == self@.ledger.network_id
                    &&& snapshot.ledger.protocol_version == self@.ledger.protocol_version
                },
                Err(e) => self@.cache_path is Some && exists|k: Seq<u8>| #[trigger]
                    self@.source.known.dom().contains(k) && (looked_up(self@.source.known, k) matches Err(
                        m,
                    ) && e@ == ErrorView::Xdr(m)),
            }),
    {
        let path = match &self.cache_path {
            Some(p) => p.as_str(),
            None => {
                return Ok(None);
            },
        };
        match self.source.entries() {
            Err(e) => Err(e),
            Ok(rows) => {
                if rows.len() == 0 {
                    proof {
                        assert forall|k: Seq<u8>| #[trigger]
                            self@.source.known.dom().contains(k) implies self@.source.known[k] is None by {
                            if self@.source.known[k] is Some {
                                assert(has_key(rows@, k));
                            }
                        }
                    }
                    return Ok(None);
                }
                let ledger = usual_ledger_info(
                    self.ledger_sequence,
                    self.timestamp,
                    self.ledger.network_id,
                    self.ledger.protocol_version,
                );
                Ok(Some((path.to_owned(), Snapshot { ledger, rows })))
            },
        }
    }
}

// ---------------------------------------------------------------------------
// Laws
// ---------------------------------------------------------------------------

/// Time never goes back.
pub proof fn law_warps_go_forward(l: LedgerInfo, ledgers: u32, seconds: u64)
    ensures
        warped(l, ledgers, seconds).sequence_number >= l.sequence_number,
        warped(l, ledgers, seconds).timestamp >= l.timestamp,
{
}

/// Two warps are one over both distances.
pub proof fn law_warps_add_up(l: LedgerInfo, ledgers1: u32, seconds1: u64, ledgers2: u32, seconds2: u64)
    requires
        ledgers1 + ledgers2 <= u32::MAX,
        seconds1 + seconds2 <= u64::MAX,
    ensures
        warped(warped(l, ledgers1, seconds1), ledgers2, seconds2) == warped(
            l,
            (ledgers1 + ledgers2) as u32,
            (seconds1 + seconds2) as u64,
        ),
{
}

/// Closing ledgers and letting their time pass come to the same.
pub proof fn law_ledgers_and_seconds_agree(l: LedgerInfo, ledgers: u32)
    ensures
        warped(l, ledgers_in(seconds_of(ledgers)), seconds_of(ledgers)) == warped(
            l,
            ledgers,
            seconds_of(ledgers),
        ),
{
}

/// A ledger closes for every five seconds that pass, until the sequence number
/// is the greatest one.
pub proof fn law_time_moves_the_ledger(l: LedgerInfo, seconds: u64)
    ensures
        warped(l, ledgers_in(seconds), seconds).sequence_number == capped_sum32(
            l.sequence_number,
            seconds as int / LEDGER_INTERVAL_SECONDS as int,
        ),
{
}

/// The protocol version of a fork is never above the limit, and is the
/// network's where that is within it.
pub proof fn law_protocol_is_capped(version: u32, max: u32)
    ensures
        capped_protocol(version, Some(max)) <= max,
        version <= max ==> capped_protocol(version, Some(max)) == version,
        capped_protocol(version, None) == version,
{
}

/// Loading rows in two goes is loading them in one.
proof fn lemma_loaded_in_turn(known: Map<Seq<u8>, Option<Held>>, a: Seq<RowView>, b: Seq<RowView>)
    ensures
        loaded(known, a + b) == loaded(loaded(known, a), b),
    decreases b.len(),
{
    if b.len() == 0 {
        assert(a + b =~= a);
    } else {
        assert((a + b).drop_last() =~= a + b.drop_last());
        assert((a + b).last() == b.last());
        lemma_loaded_in_turn(known, a, b.drop_last());
    }
}

/// Every test account is on the fork from the start, with its balance and
/// however many other accounts and trustlines there are.
pub proof fn law_test_accounts_are_funded(
    known: Map<Seq<u8>, Option<Held>>,
    accounts: Seq<TestAccount>,
    assets: Seq<TrustLineAsset>,
    ledger: u32,
    i: int,
)
    requires
        0 <= i < accounts.len(),
        forall|j: int| 0 <= j < accounts.len() ==> is_test_account(#[trigger] accounts[j], j),
    ensures
        ({
            let key = account_key_xdr(accounts[i].public_key@);
            let now = loaded(known, rows_of_accounts(accounts, assets, ledger));
            let entry = fresh_account(accounts[i].public_key@, DEFAULT_BALANCE_STROOPS, ledger);
            now.dom().contains(key) && now[key] == Some((entry_xdr(entry)->Ok_0, None::<u32>))
        }),
    decreases accounts.len(),
{
    let key = account_key_xdr(accounts[i].public_key@);
    let front = accounts.drop_last();
    let last = accounts.last();
    assert(last == accounts[accounts.len() - 1]);
    assert(is_test_account(accounts[accounts.len() - 1], accounts.len() - 1));
    assert(is_test_account(accounts[i], i));
    let before_last = rows_of_accounts(front, assets, ledger);
    let own = seq![account_row(last, ledger)];
    let lines = assets.map_values(|x: TrustLineAsset| trustline_row(last, x, ledger));
    lemma_loaded_in_turn(known, before_last, rows_of_account(last, assets, ledger));
    lemma_loaded_in_turn(loaded(known, before_last), own, lines);
    let m = loaded(known, before_last);
    let n = loaded(m, own);
    assert(own.drop_last() =~= Seq::<RowView>::empty());
    assert(loaded(m, own.drop_last()) == m);
    assert forall|j: int| 0 <= j < lines.len() implies (#[trigger] lines[j]).key != key by {
        assert(key[3] == 0);
        assert(lines[j].key[3] == 1);
    }
    law_loading_touches_loaded_keys(n, lines, key);
    if account_key_xdr(last.public_key@) == key {
        law_account_keys_differ(last.public_key@, accounts[i].public_key@);
    } else {
        assert(i < front.len());
        assert(front[i] == accounts[i]);
        assert forall|j: int| 0 <= j < front.len() implies is_test_account(#[trigger] front[j], j) by {
            assert(front[j] == accounts[j]);
        }
        law_test_accounts_are_funded(known, front, assets, ledger, i);
    }
}

/// Warping moves both clocks by just what it is told, as far as they go, and
/// nothing else of the ledger.
pub proof fn law_warps_move_the_clocks(l: LedgerInfo, ledgers: u32, seconds: u64)
    ensures
        ({
            let after = warped(l, ledgers, seconds);
            &&& l.sequence_number + ledgers <= u32::MAX ==> after.sequence_number == l.sequence_number + ledgers
            &&& l.sequence_number + ledgers > u32::MAX ==> after.sequence_number == u32::MAX
            &&& l.timestamp + seconds <= u64::MAX ==> after.timestamp == l.timestamp + seconds
            &&& l.timestamp + seconds > u64::MAX ==> after.timestamp == u64::MAX
            &&& after.protocol_version == l.protocol_version
            &&& after.network_id == l.network_id
            &&& after.base_reserve == l.base_reserve
            &&& after.min_persistent_entry_ttl == l.min_persistent_entry_ttl
            &&& after.min_temp_entry_ttl == l.min_temp_entry_ttl
            &&& after.max_entry_ttl == l.max_entry_ttl
        }),
{
}

/// A ledger closes every five seconds: letting ledgers close takes five
/// seconds for each, and letting time pass closes one for every five seconds.
pub proof fn law_ledgers_take_five_seconds(l: LedgerInfo, ledgers: u32, seconds: u64)
    ensures
        l.sequence_number + ledgers <= u32::MAX ==> ledgers_closed(l, ledgers).sequence_number
            == l.sequence_number + ledgers,
        l.timestamp + 5 * ledgers <= u64::MAX ==> ledgers_closed(l, ledgers).timestamp == l.timestamp + 5
            * ledgers,
        l.timestamp + seconds <= u64::MAX ==> time_passed(l, seconds).timestamp == l.timestamp + seconds,
        l.sequence_number + seconds / 5 <= u32::MAX ==> time_passed(l, seconds).sequence_number
            == l.sequence_number + seconds / 5,
        ledgers_closed(l, ledgers) == (LedgerInfo {
            sequence_number: ledgers_closed(l, ledgers).sequence_number,
            timestamp: ledgers_closed(l, ledgers).timestamp,
            ..l
        }),
        time_passed(l, seconds) == (LedgerInfo {
            sequence_number: time_passed(l, seconds).sequence_number,
            timestamp: time_passed(l, seconds).timestamp,
            ..l
        }),
{
}

/// A fork starts at the ledger and the time that it is pinned to, and where it
/// is not, at those of the network. It speaks the protocol of the network, but
/// none later than it is told.
pub proof fn law_forks_start_where_they_are_pinned(c: ForkConfig, latest: LatestLedger, info: LedgerInfo)
    requires
        first_ledger(c, latest, info),
    ensures
        c.pinned_ledger matches Some(n) ==> info.sequence_number == n,
        c.pinned_ledger is None ==> info.sequence_number == latest.sequence,
        c.pinned_timestamp matches Some(n) ==> info.timestamp == n,
        c.pinned_timestamp is None ==> info.timestamp == latest.close_time,
        c.max_protocol_version is None ==> info.protocol_version == latest.protocol_version,
        c.max_protocol_version matches Some(m) ==> info.protocol_version <= m && info.protocol_version
            <= latest.protocol_version && (info.protocol_version == m || info.protocol_version
            == latest.protocol_version),
        info.base_reserve == 100,
        info.min_persistent_entry_ttl == 4096,
        info.min_temp_entry_ttl == 16,
        info.max_entry_ttl == 6312000,
{
}

/// A fork is of the network that it is told, of which no passphrase is known,
/// and where it is told none, of the one that was asked.
pub proof fn law_forks_name_their_network(c: ForkConfig, network: NetworkMetadata)
    ensures
        c.network_id matches Some(id) ==> fork_network(c, Some(network)) == (id@, None::<Seq<char>>)
            && fork_network(c, None) == (id@, None::<Seq<char>>),
        c.network_id is None ==> fork_network(c, Some(network)) == (
            network.network_id@,
            Some(network.passphrase@),
        ),
{
}

/// Every test account has an entry of its own and a trustline to each of the
/// assets, and there is nothing else.
pub proof fn law_test_accounts_hold_the_assets(
    accounts: Seq<TestAccount>,
    assets: Seq<TrustLineAsset>,
    ledger: u32,
    i: int,
    j: int,
)
    requires
        0 <= i < accounts.len(),
        0 <= j < assets.len(),
    ensures
        rows_of_accounts(accounts, assets, ledger).len() == accounts.len() * (1 + assets.len()),
        ({
            let row = rows_of_accounts(accounts, assets, ledger)[i * (1 + assets.len())];
            &&& row.key == account_key_xdr(accounts[i].public_key@)
            &&& row.live_until is None
            &&& row.entry.data matches DataView::Account(a) && a.account_id == accounts[i].public_key@
                && a.balance == accounts[i].balance_stroops
        }),
        ({
            let row = rows_of_accounts(accounts, assets, ledger)[i * (1 + assets.len()) + 1 + j];
            &&& row.key == trustline_key_xdr(accounts[i].public_key@, asset_xdr(assets[j]))
            &&& row.live_until is None
            &&& row.entry.data matches DataView::Trustline(t) && t.account_id == accounts[i].public_key@
                && t.asset == asset_xdr(assets[j]) && t.balance == 0 && t.limit == i64::MAX && t.flags == 1
        }),
    decreases accounts.len(),
{
    let n = 1 + assets.len();
    let rest = accounts.drop_last();
    lemma_rows_count(rest, assets, ledger);
    lemma_rows_count(accounts, assets, ledger);
    let m = rest.len();
    assert(accounts.len() * n == m * n + n) by (nonlinear_arith)
        requires
            accounts.len() == m + 1,
    ;
    if i < m {
        law_test_accounts_hold_the_assets(rest, assets, ledger, i, j);
        assert(rest[i] == accounts[i]);
        assert(i * n + n <= m * n) by (nonlinear_arith)
            requires
                0 <= i < m,
                n >= 1,
        ;
    } else {
        assert(i == m);
        assert(accounts.last() == accounts[i]);
    }
    assert(i * n >= 0) by (nonlinear_arith)
        requires
            i >= 0,
            n >= 1,
    ;
}

proof fn lemma_rows_count(accounts: Seq<TestAccount>, assets: Seq<TrustLineAsset>, ledger: u32)
    ensures
        rows_of_accounts(accounts, assets, ledger).len() == accounts.len() * (1 + assets.len()),
    decreases accounts.len(),
{
    if accounts.len() > 0 {
        let rest = accounts.drop_last();
        lemma_rows_count(rest, assets, ledger);
        assert(accounts.len() * (1 + assets.len()) == rest.len() * (1 + assets.len()) + (1 + assets.len()))
            by (nonlinear_arith)
            requires
                accounts.len() == rest.len() + 1,
        ;
    } else {
        assert(0 * (1 + assets.len()) == 0);
    }
}

/// Dealing a token makes the difference up: it mints what is missing and burns
/// what is too much, and where nothing differs, nothing is called.
pub proof fn law_dealing_makes_the_difference_up(
    f: ForkedEnv,
    current: i128,
    amount: i128,
    r: Result<Option<TokenCall>, ForkError>,
)
    requires
        i128::MIN < amount - current <= i128::MAX,
        call_ensures(ForkedEnv::deal_token, (&f, current, amount), r),
    ensures
        current == amount <==> r == Ok::<Option<TokenCall>, ForkError>(None),
        current < amount ==> (r matches Ok(Some(TokenCall::Mint(n))) && n == amount - current),
        current > amount ==> (r matches Ok(Some(TokenCall::Burn(n))) && n == current - amount),
{
}

/// A fork that is built knows what the cache held and the test accounts, and
/// nothing else; it has fetched nothing, and it is where it was told to be.
pub proof fn law_built_forks_hold_the_cache(
    c: ForkConfig,
    cached: Vec<LedgerRow>,
    latest: LatestLedger,
    network: Option<NetworkMetadata>,
    r: Result<ForkedEnv, ForkError>,
    i: int,
)
    requires
        c.network_id is Some || network is Some,
        call_ensures(ForkConfig::build, (c, &cached, latest, network), r),
        can_be_loaded(cached@),
        0 <= i < cached@.len(),
        forall|j: int| i < j < cached@.len() ==> (#[trigger] cached@[j]).key@ != cached@[i].key@,
        c.test_account_count == 0,
    ensures
        r is Ok,
        looked_up(r->Ok_0@.source.known, cached@[i].key@) == Ok::<LookupView, Seq<char>>(
            LookupView::Hit(Some((cached@[i].entry@, cached@[i].live_until))),
        ),
        r->Ok_0@.source.fetch_count == 0,
        c.fetch_mode is None ==> r->Ok_0@.source.fetch_mode == FetchMode::Strict,
        c.fetch_mode matches Some(m) ==> r->Ok_0@.source.fetch_mode == m,
        c.pinned_ledger matches Some(n) ==> r->Ok_0@.ledger.sequence_number == n && r->Ok_0@.fork_sequence == n,
        c.pinned_ledger is None ==> r->Ok_0@.ledger.sequence_number == latest.sequence,
        c.network_id matches Some(id) ==> r->Ok_0@.ledger.network_id@ == id@,
        c.network_id is None ==> r->Ok_0@.ledger.network_id@ == network->0.network_id@,
        r->Ok_0@.fees is None,
        c.cache_path matches Some(p) ==> r->Ok_0@.cache_path == Some(p@),
        c.cache_path is None ==> r->Ok_0@.cache_path is None,
        c.network_id is Some ==> r->Ok_0@.passphrase is None,
        c.network_id is None ==> r->Ok_0@.passphrase == Some(network->0.passphrase@),
{
    let f = r->Ok_0;
    assert(rows_of_accounts(
        f@.accounts,
        c.test_trustlines@,
        pinned_or(c.pinned_ledger, latest.sequence),
    ) =~= Seq::empty());
    let rows = rows_view(cached@);
    assert forall|j: int| i < j < rows.len() implies (#[trigger] rows[j]).key != rows[i].key by {
        assert(cached@[j].key@ != cached@[i].key@);
    }
    law_loaded_rows_are_known(Map::empty(), rows, i);
    assert(reads_back(cached@[i].entry@));
}

/// What a fork knows of entries is saved whole, as of the ledger that it was
/// forked at, and nothing is saved where there is no file or no entry.
pub proof fn law_saved_entries_are_those_known(
    f: ForkedEnv,
    r: Result<Option<(String, Snapshot)>, ForkError>,
    key: Seq<u8>,
)
    requires
        call_ensures(ForkedEnv::save_cache, (&f,), r),
        f@.source.known.dom().contains(key),
        f@.source.known[key] is Some,
        f@.cache_path is Some,
    ensures
        r != Ok::<Option<(String, Snapshot)>, ForkError>(None),
        r matches Ok(Some((path, snapshot))) ==> Some(path@) == f@.cache_path && (exists|i: int|
            0 <= i < snapshot.rows@.len() && (#[trigger] snapshot.rows@[i]).key@ == key && looked_up(
                f@.source.known,
                key,
            ) == Ok::<LookupView, Seq<char>>(
                LookupView::Hit(Some((snapshot.rows@[i].entry@, snapshot.rows@[i].live_until))),
            )) && snapshot.ledger.sequence_number == f@.fork_sequence && snapshot.ledger.timestamp
            == f@.fork_timestamp && snapshot.ledger.network_id == f@.ledger.network_id,
{
    if let Ok(Some((path, snapshot))) = r {
        assert(has_key(snapshot.rows@, key));
        let i = choose|i: int|
            0 <= i < snapshot.rows@.len() && (#[trigger] snapshot.rows@[i]).key@ == key;
        assert(snapshot.rows@[i].key@ == key);
    }
}

/// What a configuration is told last counts, and nothing else of it changes.
pub proof fn law_settings_are_kept(
    url: &str,
    c0: ForkConfig,
    sequence: u32,
    c1: ForkConfig,
    time: u64,
    c2: ForkConfig,
    version: u32,
    c3: ForkConfig,
    mode: FetchMode,
    c4: ForkConfig,
    count: usize,
    c5: ForkConfig,
    traced: bool,
    c6: ForkConfig,
)
    requires
        call_ensures(ForkConfig::new, (url,), c0),
        call_ensures(ForkConfig::at_ledger, (c0, sequence), c1),
        call_ensures(ForkConfig::pinned_timestamp, (c1, time), c2),
        call_ensures(ForkConfig::max_protocol_version, (c2, version), c3),
        call_ensures(ForkConfig::fetch_mode, (c3, mode), c4),
        call_ensures(ForkConfig::test_account_count, (c4, count), c5),
        call_ensures(ForkConfig::tracing, (c5, traced), c6),
    ensures
        c6.rpc_url@ == url@,
        c6.pinned_ledger == Some(sequence),
        c6.pinned_timestamp == Some(time),
        c6.max_protocol_version == Some(version),
        c6.fetch_mode == Some(mode),
        c6.test_account_count == count,
        c6.tracing == traced,
        c0.test_account_count == 10,
        c0.rpc_config.retries == 3,
        c0.rpc_config.base_retry_delay@ == 300 * 1_000_000,
        c0.rpc_config.max_keys_per_request == 200,
        c6.rpc_config == c0.rpc_config,
        c6.test_trustlines == c0.test_trustlines,
        c6.cache_path == c0.cache_path,
        c6.network_id == c0.network_id,
{
}

/// The other settings of a configuration are kept in the same way.
pub proof fn law_other_settings_are_kept(
    c0: ForkConfig,
    path: &str,
    c1: ForkConfig,
    id: [u8; 32],
    c2: ForkConfig,
    assets: Vec<TrustLineAsset>,
    c3: ForkConfig,
    rpc: RpcConfig,
    c4: ForkConfig,
)
    requires
        call_ensures(ForkConfig::cache_file, (c0, path), c1),
        call_ensures(ForkConfig::network_id, (c1, id), c2),
        call_ensures(ForkConfig::test_account_trustlines, (c2, assets), c3),
        call_ensures(ForkConfig::rpc_config, (c3, rpc), c4),
    ensures
        c4.cache_path matches Some(p) && p@ == path@,
        c4.network_id == Some(id),
        c4.test_trustlines == assets,
        c4.rpc_config == rpc,
        c4.rpc_url == c0.rpc_url,
        c4.pinned_ledger == c0.pinned_ledger,
        c4.pinned_timestamp == c0.pinned_timestamp,
        c4.max_protocol_version == c0.max_protocol_version,
        c4.fetch_mode == c0.fetch_mode,
        c4.test_account_count == c0.test_account_count,
        c4.tracing == c0.tracing,
{
}

/// Setting the clock sets both of its hands and nothing else.
pub proof fn law_clocks_are_set(l: LedgerInfo, sequence_number: u32, timestamp: u64)
    ensures
        clock_set(l, sequence_number, timestamp).sequence_number == sequence_number,
        clock_set(l, sequence_number, timestamp).timestamp == timestamp,
        clock_set(l, sequence_number, timestamp).protocol_version == l.protocol_version,
        clock_set(l, sequence_number, timestamp).network_id == l.network_id,
        clock_set(l, sequence_number, timestamp).max_entry_ttl == l.max_entry_ttl,
{
}

/// A fork that is built knows every test account that was asked for, funded as
/// of the ledger that the fork starts at, whatever the cache held.
pub proof fn law_built_forks_fund_their_accounts(
    c: ForkConfig,
    cached: Vec<LedgerRow>,
    latest: LatestLedger,
    network: Option<NetworkMetadata>,
    r: Result<ForkedEnv, ForkError>,
    i: int,
)
    requires
        c.network_id is Some || network is Some,
        call_ensures(ForkConfig::build, (c, &cached, latest, network), r),
        r is Ok,
        0 <= i < c.test_account_count,
    ensures
        r->Ok_0@.accounts.len() == c.test_account_count,
        is_test_account(r->Ok_0@.accounts[i], i),
        ({
            let f = r->Ok_0@;
            let key = account_key_xdr(f.accounts[i].public_key@);
            let ledger = match c.pinned_ledger {
                Some(n) => n,
                None => latest.sequence,
            };
            f.source.known.dom().contains(key) && f.source.known[key] == Some(
                (
                    entry_xdr(
                        fresh_account(f.accounts[i].public_key@, 1_000_000_000_000, ledger),
                    )->Ok_0,
                    None::<u32>,
                ),
            )
        }),
{
    let f = r->Ok_0@;
    law_test_accounts_are_funded(
        loaded(Map::empty(), rows_view(cached@)),
        f.accounts,
        c.test_trustlines@,
        pinned_or(c.pinned_ledger, latest.sequence),
        i,
    );
}

} // verus!

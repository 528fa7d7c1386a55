//! Resource fees at the network's own schedule.
//!
//! The schedule is stored on the ledger, in six network settings. The fee of
//! a transaction is what the host computes from that schedule and the
//! transaction's resources.

use vstd::prelude::*;

use crate::codec::{
    config_setting_debug, config_setting_debug_of, config_setting_key_xdr, config_setting_of,
    decode_config_setting, diagnostic_event_of, encode_diagnostic_event, ConfigSetting,
    ConfigSettingId,
};
use crate::error::{error_text, ErrorView, ForkError};
use crate::ledger::{data_text, DataView, EntryView, LedgerEntry, LedgerEntryData, LedgerKey};
use crate::source::{looked_up, Held, Lookup, LookupView, RpcSnapshotSource};
use crate::text::{join2, join4};

verus! {

/// The fee schedule.
#[derive(Debug, Clone, Copy, PartialEq, Eq, Structural)]
pub struct FeeConfiguration {
    /// For an increment of instructions.
    pub fee_per_instruction_increment: i64,
    /// For an entry read.
    pub fee_per_disk_read_entry: i64,
    /// For an entry written.
    pub fee_per_write_entry: i64,
    /// For 1 KB read.
    pub fee_per_disk_read_1kb: i64,
    /// For 1 KB written.
    pub fee_per_write_1kb: i64,
    /// For 1 KB of history.
    pub fee_per_historical_1kb: i64,
    /// For 1 KB of events.
    pub fee_per_contract_event_1kb: i64,
    /// For 1 KB of transaction.
    pub fee_per_transaction_size_1kb: i64,
}

/// What a transaction uses.
#[derive(Debug, Clone, Copy, PartialEq, Eq, Structural)]
pub struct TransactionResources {
    pub instructions: u32,
    pub disk_read_entries: u32,
    pub write_entries: u32,
    pub disk_read_bytes: u32,
    pub write_bytes: u32,
    pub contract_events_size_bytes: u32,
    pub transaction_size_bytes: u32,
}

/// The fee that the host computes, as its non-refundable and its refundable
/// part.
pub uninterp spec fn resource_fee_of(r: TransactionResources, c: FeeConfiguration) -> (i64, i64);

/// Calls `compute_transaction_resource_fee` of soroban-env-host.
#[verifier::external_body]
fn compute_transaction_resource_fee(r: &TransactionResources, c: &FeeConfiguration) -> (f: (i64, i64))
    ensures
        f == resource_fee_of(*r, *c),
{
    let resources = soroban_env_host::fees::TransactionResources {
        instructions: r.instructions, disk_read_entries: r.disk_read_entries,
        write_entries: r.write_entries, disk_read_bytes: r.disk_read_bytes, write_bytes: r.write_bytes,
        contract_events_size_bytes: r.contract_events_size_bytes,
        transaction_size_bytes: r.transaction_size_bytes };
    let config = soroban_env_host::fees::FeeConfiguration {
        fee_per_instruction_increment: c.fee_per_instruction_increment,
        fee_per_disk_read_entry: c.fee_per_disk_read_entry, fee_per_write_entry: c.fee_per_write_entry,
        fee_per_disk_read_1kb: c.fee_per_disk_read_1kb, fee_per_write_1kb: c.fee_per_write_1kb,
        fee_per_historical_1kb: c.fee_per_historical_1kb,
        fee_per_contract_event_1kb: c.fee_per_contract_event_1kb,
        fee_per_transaction_size_1kb: c.fee_per_transaction_size_1kb };
    soroban_env_host::fees::compute_transaction_resource_fee(&resources, &config)
}

// ---------------------------------------------------------------------------
// The schedule
// ---------------------------------------------------------------------------

/// A schedule in which everything is free.
pub open spec fn free_schedule() -> FeeConfiguration {
    FeeConfiguration {
        fee_per_instruction_increment: 0,
        fee_per_disk_read_entry: 0,
        fee_per_write_entry: 0,
        fee_per_disk_read_1kb: 0,
        fee_per_write_1kb: 0,
        fee_per_historical_1kb: 0,
        fee_per_contract_event_1kb: 0,
        fee_per_transaction_size_1kb: 0,
    }
}

impl Default for FeeConfiguration {
    fn default() -> (r: FeeConfiguration)
        ensures
            r == free_schedule(),
    {
        FeeConfiguration {
            fee_per_instruction_increment: 0,
            fee_per_disk_read_entry: 0,
            fee_per_write_entry: 0,
            fee_per_disk_read_1kb: 0,
            fee_per_write_1kb: 0,
            fee_per_historical_1kb: 0,
            fee_per_contract_event_1kb: 0,
            fee_per_transaction_size_1kb: 0,
        }
    }
}

/// The name of a setting.
pub open spec fn setting_name(id: ConfigSettingId) -> Seq<char> {
    match id {
        ConfigSettingId::ContractComputeV0 => "ContractComputeV0"@,
        ConfigSettingId::ContractLedgerCostV0 => "ContractLedgerCostV0"@,
        ConfigSettingId::ContractLedgerCostExtV0 => "ContractLedgerCostExtV0"@,
        ConfigSettingId::ContractHistoricalDataV0 => "ContractHistoricalDataV0"@,
        ConfigSettingId::ContractEventsV0 => "ContractEventsV0"@,
        ConfigSettingId::ContractBandwidthV0 => "ContractBandwidthV0"@,
    }
}

fn setting_name_text(id: ConfigSettingId) -> (r: &'static str)
    ensures
        r@ == setting_name(id),
{
    match id {
        ConfigSettingId::ContractComputeV0 => "ContractComputeV0",
        ConfigSettingId::ContractLedgerCostV0 => "ContractLedgerCostV0",
        ConfigSettingId::ContractLedgerCostExtV0 => "ContractLedgerCostExtV0",
        ConfigSettingId::ContractHistoricalDataV0 => "ContractHistoricalDataV0",
        ConfigSettingId::ContractEventsV0 => "ContractEventsV0",
        ConfigSettingId::ContractBandwidthV0 => "ContractBandwidthV0",
    }
}

/// The schedule with one setting taken over; nothing where the setting has no
/// part in it.
pub open spec fn with_setting(c: FeeConfiguration, s: ConfigSetting) -> Option<FeeConfiguration> {
    match s {
        ConfigSetting::ContractComputeV0 { fee_rate_per_instructions_increment } => Some(
            FeeConfiguration {
                fee_per_instruction_increment: fee_rate_per_instructions_increment,
                ..c
            },
        ),
        ConfigSetting::ContractLedgerCostV0 {
            fee_disk_read_ledger_entry,
            fee_write_ledger_entry,
            fee_disk_read1_kb,
        } => Some(
            FeeConfiguration {
                fee_per_disk_read_entry: fee_disk_read_ledger_entry,
                fee_per_write_entry: fee_write_ledger_entry,
                fee_per_disk_read_1kb: fee_disk_read1_kb,
                ..c
            },
        ),
        ConfigSetting::ContractLedgerCostExtV0 { fee_write1_kb } => Some(
            FeeConfiguration { fee_per_write_1kb: fee_write1_kb, ..c },
        ),
        ConfigSetting::ContractHistoricalDataV0 { fee_historical1_kb } => Some(
            FeeConfiguration { fee_per_historical_1kb: fee_historical1_kb, ..c },
        ),
        ConfigSetting::ContractEventsV0 { fee_contract_events1_kb } => Some(
            FeeConfiguration { fee_per_contract_event_1kb: fee_contract_events1_kb, ..c },
        ),
        ConfigSetting::ContractBandwidthV0 { fee_tx_size1_kb } => Some(
            FeeConfiguration { fee_per_transaction_size_1kb: fee_tx_size1_kb, ..c },
        ),
        ConfigSetting::Other => None,
    }
}

/// What goes wrong while a setting is read.
pub open spec fn setting_error(id: ConfigSettingId, what: Seq<char>) -> ErrorView {
    ErrorView::Host("fee config fetch ("@ + setting_name(id) + "): "@ + what)
}

/// The schedule with the setting that was found on the ledger taken over, or
/// why it cannot be.
pub open spec fn applied_setting(
    id: ConfigSettingId,
    found: Option<EntryView>,
    c: FeeConfiguration,
) -> Result<FeeConfiguration, ErrorView> {
    match found {
        None => Err(setting_error(id, "config setting absent on the ledger"@)),
        Some(e) => match e.data {
            DataView::Other(x) => match config_setting_of(x) {
                Some(s) => match with_setting(c, s) {
                    Some(c) => Ok(c),
                    None => Err(
                        setting_error(id, "unexpected variant "@ + config_setting_debug_of(x)),
                    ),
                },
                None => Err(
                    setting_error(id, "expected ConfigSetting entry, got "@ + data_text(e.data)),
                ),
            },
            _ => Err(
                setting_error(id, "expected ConfigSetting entry, got "@ + data_text(e.data)),
            ),
        },
    }
}

fn setting_failure(id: ConfigSettingId, what: &str) -> (r: ForkError)
    ensures
        r@ == setting_error(id, what@),
{
    ForkError::Host(join4("fee config fetch (", setting_name_text(id), "): ", what))
}

/// Take over the setting that was found on the ledger. The schedule changes
/// only where this succeeds.
pub fn apply_setting(id: ConfigSettingId, found: Option<&LedgerEntry>, cfg: &mut FeeConfiguration) -> (r:
    Result<(), ForkError>)
    ensures
        (match applied_setting(
            id,
            match found {
                Some(e) => Some(e@),
                None => None,
            },
            *old(cfg),
        ) {
            Ok(c) => r is Ok && *final(cfg) == c,
            Err(e) => (r matches Err(f) && f@ == e) && *final(cfg) == *old(cfg),
        }),
{
    let entry = match found {
        Some(e) => e,
        None => {
            return Err(setting_failure(id, "config setting absent on the ledger"));
        },
    };
    let setting = match &entry.data {
        LedgerEntryData::Other(x) => decode_config_setting(x.as_slice()),
        _ => None,
    };
    match setting {
        None => Err(
            setting_failure(
                id,
                join2("expected ConfigSetting entry, got ", entry.data.to_text().as_str()).as_str(),
            ),
        ),
        Some(s) => {
            match s {
                ConfigSetting::ContractComputeV0 { fee_rate_per_instructions_increment } => {
                    cfg.fee_per_instruction_increment = fee_rate_per_instructions_increment;
                },
                ConfigSetting::ContractLedgerCostV0 {
                    fee_disk_read_ledger_entry,
                    fee_write_ledger_entry,
                    fee_disk_read1_kb,
                } => {
                    cfg.fee_per_disk_read_entry = fee_disk_read_ledger_entry;
                    cfg.fee_per_write_entry = fee_write_ledger_entry;
                    cfg.fee_per_disk_read_1kb = fee_disk_read1_kb;
                },
                ConfigSetting::ContractLedgerCostExtV0 { fee_write1_kb } => {
                    cfg.fee_per_write_1kb = fee_write1_kb;
                },
                ConfigSetting::ContractHistoricalDataV0 { fee_historical1_kb } => {
                    cfg.fee_per_historical_1kb = fee_historical1_kb;
                },
                ConfigSetting::ContractEventsV0 { fee_contract_events1_kb } => {
                    cfg.fee_per_contract_event_1kb = fee_contract_events1_kb;
                },
                ConfigSetting::ContractBandwidthV0 { fee_tx_size1_kb } => {
                    cfg.fee_per_transaction_size_1kb = fee_tx_size1_kb;
                },
                ConfigSetting::Other => {
                    let shown = match &entry.data {
                        LedgerEntryData::Other(x) => config_setting_debug(x.as_slice()),
                        _ => String::new(),
                    };
                    return Err(
                        setting_failure(id, join2("unexpected variant ", shown.as_str()).as_str()),
                    );
                },
            }
            Ok(())
        },
    }
}

/// The settings of the schedule, in the order in which they are read.
pub open spec fn setting_at(i: int) -> ConfigSettingId {
    if i <= 0 {
        ConfigSettingId::ContractComputeV0
    } else if i == 1 {
        ConfigSettingId::ContractLedgerCostV0
    } else if i == 2 {
        ConfigSettingId::ContractLedgerCostExtV0
    } else if i == 3 {
        ConfigSettingId::ContractHistoricalDataV0
    } else if i == 4 {
        ConfigSettingId::ContractEventsV0
    } else {
        ConfigSettingId::ContractBandwidthV0
    }
}

fn setting_id(i: usize) -> (r: ConfigSettingId)
    ensures
        r == setting_at(i as int),
{
    if i == 0 {
        ConfigSettingId::ContractComputeV0
    } else if i == 1 {
        ConfigSettingId::ContractLedgerCostV0
    } else if i == 2 {
        ConfigSettingId::ContractLedgerCostExtV0
    } else if i == 3 {
        ConfigSettingId::ContractHistoricalDataV0
    } else if i == 4 {
        ConfigSettingId::ContractEventsV0
    } else {
        ConfigSettingId::ContractBandwidthV0
    }
}

/// How far reading the schedule came.
#[derive(Debug)]
pub enum FeeProgress {
    /// The schedule is complete.
    Ready(FeeConfiguration),
    /// This key has to be fetched before reading can go on.
    Missing(LedgerKey),
}

/// How far reading the schedule came, or why it failed.
pub enum FeeOutcome {
    Ready(FeeConfiguration),
    Missing(Seq<u8>),
    Failed(ErrorView),
}

/// Reading the schedule from setting number `i` on, with what has been taken
/// over so far.
pub open spec fn schedule_from(known: Map<Seq<u8>, Option<Held>>, i: int, c: FeeConfiguration) -> FeeOutcome
    decreases 6 - i,
{
    if i >= 6 {
        FeeOutcome::Ready(c)
    } else {
        let id = setting_at(i);
        let key = config_setting_key_xdr(id);
        match looked_up(known, key) {
            Err(m) => FeeOutcome::Failed(
                setting_error(id, "snapshot source error: "@ + error_text(ErrorView::Xdr(m))),
            ),
            Ok(LookupView::Miss) => FeeOutcome::Missing(key),
            Ok(LookupView::Hit(found)) => match applied_setting(
                id,
                match found {
                    Some((e, _)) => Some(e),
                    None => None,
                },
                c,
            ) {
                Ok(c) => schedule_from(known, i + 1, c),
                Err(e) => FeeOutcome::Failed(e),
            },
        }
    }
}

/// Read the fee schedule from what is known of the ledger. Where a setting
/// has not been asked for yet, its key is handed back: once it has been
/// fetched, reading goes on from the start.
pub fn fetch_fee_configuration(source: &RpcSnapshotSource) -> (r: Result<FeeProgress, ForkError>)
    ensures
        (match schedule_from(source@.known, 0, free_schedule()) {
            FeeOutcome::Ready(c) => r matches Ok(FeeProgress::Ready(d)) && d == c,
            FeeOutcome::Missing(k) => r matches Ok(FeeProgress::Missing(key)) && key@ == k,
            FeeOutcome::Failed(e) => r matches Err(f) && f@ == e,
        }),
{
    let mut cfg = FeeConfiguration::default();
    let mut i: usize = 0;
    while i < 6
        invariant
            i <= 6,
            schedule_from(source@.known, 0, free_schedule()) == schedule_from(
                source@.known,
                i as int,
                cfg,
            ),
        decreases 6 - i,
    {
        let id = setting_id(i);
        let key = LedgerKey::config_setting(id);
        match source.get(&key) {
            Err(e) => {
                return Err(
                    setting_failure(
                        id,
                        join2("snapshot source error: ", e.to_text().as_str()).as_str(),
                    ),
                );
            },
            Ok(Lookup::Miss) => {
                return Ok(FeeProgress::Missing(key));
            },
            Ok(Lookup::Hit(None)) => {
                match apply_setting(id, None, &mut cfg) {
                    Ok(_) => {},
                    Err(e) => {
                        return Err(e);
                    },
                }
            },
            Ok(Lookup::Hit(Some(f))) => {
                match apply_setting(id, Some(&f.entry), &mut cfg) {
                    Ok(_) => {},
                    Err(e) => {
                        return Err(e);
                    },
                }
            },
        }
        i = i + 1;
    }
    Ok(FeeProgress::Ready(cfg))
}

// ---------------------------------------------------------------------------
// The fee
// ---------------------------------------------------------------------------

/// What a simulated call used.
#[derive(Debug, PartialEq, Eq)]
pub struct SorobanResources {
    /// The keys that are only read, as XDR.
    pub read_only: Vec<Vec<u8>>,
    /// The keys that are written, as XDR.
    pub read_write: Vec<Vec<u8>>,
    pub instructions: u32,
    pub disk_read_bytes: u32,
    pub write_bytes: u32,
}

/// What a call that never ran used.
pub fn empty_soroban_resources() -> (r: SorobanResources)
    ensures
        r.read_only@.len() == 0,
        r.read_write@.len() == 0,
        r.instructions == 0,
        r.disk_read_bytes == 0,
        r.write_bytes == 0,
{
    SorobanResources {
        read_only: Vec::new(),
        read_write: Vec::new(),
        instructions: 0,
        disk_read_bytes: 0,
        write_bytes: 0,
    }
}

/// The low 32 bits of a length.
pub open spec fn low32(n: nat) -> nat {
    n % 0x1_0000_0000
}

fn low32_of(n: usize) -> (r: u32)
    ensures
        r == low32(n as nat),
{
    ((n as u64) % 0x1_0000_0000) as u32
}

/// A sum that stops at the largest 32-bit number.
pub open spec fn capped32(n: nat) -> nat {
    if n <= 0xFFFF_FFFF {
        n
    } else {
        0xFFFF_FFFF
    }
}

/// The size of some contract events on the wire: each wrapped as the event of
/// a successful call. Nothing where one of them cannot be encoded.
pub open spec fn events_size(events: Seq<Vec<u8>>) -> Option<nat>
    decreases events.len(),
{
    if events.len() == 0 {
        Some(0)
    } else {
        match (events_size(events.drop_last()), diagnostic_event_of(true, events.last()@)) {
            (Some(n), Ok(x)) => Some(capped32(n + low32(x.len()))),
            _ => None,
        }
    }
}

/// The resources that a call is charged for. Every entry that it touches is
/// read, and those that it writes are written besides.
pub open spec fn charged(r: SorobanResources, events_size: nat, transaction_size_bytes: u32) -> TransactionResources {
    TransactionResources {
        instructions: r.instructions,
        disk_read_entries: capped32(low32(r.read_only@.len()) + low32(r.read_write@.len())) as u32,
        write_entries: low32(r.read_write@.len()) as u32,
        disk_read_bytes: r.disk_read_bytes,
        write_bytes: r.write_bytes,
        contract_events_size_bytes: events_size as u32,
        transaction_size_bytes,
    }
}

/// The two parts of a fee together, within the range of the type.
pub open spec fn whole_fee(parts: (i64, i64)) -> int {
    let sum = parts.0 + parts.1;
    if sum > i64::MAX {
        i64::MAX as int
    } else if sum < i64::MIN {
        i64::MIN as int
    } else {
        sum
    }
}

fn saturating_sum(a: i64, b: i64) -> (r: i64)
    ensures
        r == whole_fee((a, b)),
{
    let sum: i128 = a as i128 + b as i128;
    if sum > 0x7FFF_FFFF_FFFF_FFFF {
        0x7FFF_FFFF_FFFF_FFFF
    } else if sum < -0x8000_0000_0000_0000 {
        -0x8000_0000_0000_0000
    } else {
        sum as i64
    }
}

/// The size of some contract events on the wire.
fn measure_events(events: &Vec<Vec<u8>>) -> (r: Option<u32>)
    ensures
        (match r {
            Some(n) => events_size(events@) == Some(n as nat),
            None => events_size(events@) is None,
        }),
{
    let mut size: u32 = 0;
    let mut i: usize = 0;
    assert(events@.take(0) =~= Seq::<Vec<u8>>::empty());
    while i < events.len()
        invariant
            i <= events@.len(),
            events_size(events@.take(i as int)) == Some(size as nat),
        decreases events@.len() - i,
    {
        assert(events@.take(i + 1).drop_last() =~= events@.take(i as int));
        assert(events@.take(i + 1).last() == events@[i as int]);
        match encode_diagnostic_event(true, events[i].as_slice()) {
            Ok(x) => {
                size = size.saturating_add(low32_of(x.len()));
            },
            Err(_) => {
                proof {
                    lemma_unmeasurable(events@, i + 1);
                }
                return None;
            },
        }
        i = i + 1;
    }
    assert(events@.take(i as int) =~= events@);
    Some(size)
}

proof fn lemma_unmeasurable(events: Seq<Vec<u8>>, n: int)
    requires
        0 <= n <= events.len(),
        events_size(events.take(n)) is None,
    ensures
        events_size(events) is None,
    decreases events.len() - n,
{
    if n < events.len() {
        assert(events.take(n + 1).drop_last() =~= events.take(n));
        lemma_unmeasurable(events, n + 1);
    } else {
        assert(events.take(n) =~= events);
    }
}

/// The least fee that a real transaction would pay for what a simulation
/// used, at the given schedule; nothing where there is no schedule, or an
/// event cannot be measured.
pub fn compute_min_resource_fee(
    fee_config: Option<&FeeConfiguration>,
    resources: &SorobanResources,
    contract_events: &Vec<Vec<u8>>,
    transaction_size_bytes: u32,
) -> (r: Option<i64>)
    ensures
        (match (fee_config, events_size(contract_events@)) {
            (Some(c), Some(n)) => r is Some && r->0 == whole_fee(
                resource_fee_of(charged(*resources, n, transaction_size_bytes), *c),
            ),
            _ => r is None,
        }),
{
    let config = match fee_config {
        Some(c) => c,
        None => {
            return None;
        },
    };
    let size: u32 = match measure_events(contract_events) {
        Some(n) => n,
        None => {
            return None;
        },
    };
    let read_only_count: u32 = low32_of(resources.read_only.len());
    let read_write_count: u32 = low32_of(resources.read_write.len());
    let tx_resources = TransactionResources {
        instructions: resources.instructions,
        disk_read_entries: read_only_count.saturating_add(read_write_count),
        write_entries: read_write_count,
        disk_read_bytes: resources.disk_read_bytes,
        write_bytes: resources.write_bytes,
        contract_events_size_bytes: size,
        transaction_size_bytes,
    };
    assert(tx_resources == charged(*resources, size as nat, transaction_size_bytes));
    let (non_refundable, refundable) = compute_transaction_resource_fee(&tx_resources, config);
    Some(saturating_sum(non_refundable, refundable))
}

/// A schedule that was read completely has every setting from the ledger:
/// reading it never asks for anything else, and stays the same when other
/// keys change.
pub proof fn law_schedule_depends_on_its_settings(
    a: Map<Seq<u8>, Option<Held>>,
    b: Map<Seq<u8>, Option<Held>>,
    i: int,
    c: FeeConfiguration,
)
    requires
        forall|j: int|
            0 <= j < 6 ==> #[trigger] looked_up(a, config_setting_key_xdr(setting_at(j))) == looked_up(
                b,
                config_setting_key_xdr(setting_at(j)),
            ),
        0 <= i,
    ensures
        schedule_from(a, i, c) == schedule_from(b, i, c),
    decreases 6 - i,
{
    if i < 6 {
        let id = setting_at(i);
        assert(looked_up(a, config_setting_key_xdr(id)) == looked_up(b, config_setting_key_xdr(id)));
        match looked_up(a, config_setting_key_xdr(id)) {
            Ok(LookupView::Hit(found)) => {
                let e = match found {
                    Some((e, _)) => Some(e),
                    None => None,
                };
                match applied_setting(id, e, c) {
                    Ok(d) => {
                        law_schedule_depends_on_its_settings(a, b, i + 1, d);
                    },
                    Err(_) => {},
                }
            },
            _ => {},
        }
    }
}

/// Whether the ledger, as far as it is known, holds this network setting.
pub open spec fn told(known: Map<Seq<u8>, Option<Held>>, id: ConfigSettingId, s: ConfigSetting) -> bool {
    looked_up(known, config_setting_key_xdr(id)) matches Ok(LookupView::Hit(Some((e, _)))) && (e.data matches DataView::Other(
        x,
    ) && config_setting_of(x) == Some(s))
}

/// The schedule charges each rate that the network's settings name: none is
/// left at nothing, and none stands in for another.
pub proof fn law_schedule_holds_the_rates(
    known: Map<Seq<u8>, Option<Held>>,
    instructions: i64,
    read_entry: i64,
    write_entry: i64,
    read_1kb: i64,
    write_1kb: i64,
    historical_1kb: i64,
    events_1kb: i64,
    size_1kb: i64,
)
    requires
        told(
            known,
            ConfigSettingId::ContractComputeV0,
            ConfigSetting::ContractComputeV0 { fee_rate_per_instructions_increment: instructions },
        ),
        told(
            known,
            ConfigSettingId::ContractLedgerCostV0,
            ConfigSetting::ContractLedgerCostV0 {
                fee_disk_read_ledger_entry: read_entry,
                fee_write_ledger_entry: write_entry,
                fee_disk_read1_kb: read_1kb,
            },
        ),
        told(
            known,
            ConfigSettingId::ContractLedgerCostExtV0,
            ConfigSetting::ContractLedgerCostExtV0 { fee_write1_kb: write_1kb },
        ),
        told(
            known,
            ConfigSettingId::ContractHistoricalDataV0,
            ConfigSetting::ContractHistoricalDataV0 { fee_historical1_kb: historical_1kb },
        ),
        told(
            known,
            ConfigSettingId::ContractEventsV0,
            ConfigSetting::ContractEventsV0 { fee_contract_events1_kb: events_1kb },
        ),
        told(
            known,
            ConfigSettingId::ContractBandwidthV0,
            ConfigSetting::ContractBandwidthV0 { fee_tx_size1_kb: size_1kb },
        ),
    ensures
        schedule_from(known, 0, free_schedule()) == FeeOutcome::Ready(
            FeeConfiguration {
                fee_per_instruction_increment: instructions,
                fee_per_disk_read_entry: read_entry,
                fee_per_write_entry: write_entry,
                fee_per_disk_read_1kb: read_1kb,
                fee_per_write_1kb: write_1kb,
                fee_per_historical_1kb: historical_1kb,
                fee_per_contract_event_1kb: events_1kb,
                fee_per_transaction_size_1kb: size_1kb,
            },
        ),
{
    reveal_with_fuel(schedule_from, 7);
}

/// The schedule waits for a setting that has not been asked for yet, and is
/// ready only where every setting is there.
pub proof fn law_schedule_waits_for_its_settings(known: Map<Seq<u8>, Option<Held>>, i: int, c: FeeConfiguration)
    requires
        0 <= i <= 6,
    ensures
        schedule_from(known, i, c) matches FeeOutcome::Missing(k) ==> exists|j: int|
            i <= j < 6 && k == config_setting_key_xdr(#[trigger] setting_at(j)) && looked_up(known, k) == Ok::<
                LookupView,
                Seq<char>,
            >(LookupView::Miss),
        schedule_from(known, i, c) is Ready ==> forall|j: int|
            i <= j < 6 ==> (looked_up(known, config_setting_key_xdr(#[trigger] setting_at(j))) matches Ok(
                LookupView::Hit(Some(_)),
            )),
    decreases 6 - i,
{
    if i < 6 {
        let id = setting_at(i);
        let key = config_setting_key_xdr(id);
        if let Ok(LookupView::Hit(found)) = looked_up(known, key) {
            let e = match found {
                Some((e, _)) => Some(e),
                None => None,
            };
            if let Ok(d) = applied_setting(id, e, c) {
                law_schedule_waits_for_its_settings(known, i + 1, d);
            }
        }
    }
}

/// A call is charged for each entry that it touches as read, for each that it
/// may write as written besides, and for what the host counted.
pub proof fn law_every_entry_is_charged(r: SorobanResources, events_size: u32, transaction_size_bytes: u32)
    requires
        r.read_only@.len() + r.read_write@.len() <= u32::MAX,
    ensures
        charged(r, events_size as nat, transaction_size_bytes) == (TransactionResources {
            instructions: r.instructions,
            disk_read_entries: (r.read_only@.len() + r.read_write@.len()) as u32,
            write_entries: r.read_write@.len() as u32,
            disk_read_bytes: r.disk_read_bytes,
            write_bytes: r.write_bytes,
            contract_events_size_bytes: events_size,
            transaction_size_bytes,
        }),
{
}

/// Every event adds the length of its XDR to the size of the events, which
/// does not run over. Without events there is nothing to pay for.
pub proof fn law_every_event_is_counted(events: Seq<Vec<u8>>, e: Vec<u8>, x: Seq<u8>)
    requires
        diagnostic_event_of(true, e@) == Ok::<Seq<u8>, Seq<char>>(x),
        x.len() <= u32::MAX,
        events_size(events) is Some,
    ensures
        events_size(Seq::empty()) == Some(0nat),
        events_size(events)->0 + x.len() <= u32::MAX ==> events_size(events.push(e)) == Some(
            events_size(events)->0 + x.len(),
        ),
        events_size(events)->0 + x.len() > u32::MAX ==> events_size(events.push(e)) == Some(u32::MAX as nat),
{
    assert(events.push(e).drop_last() =~= events);
}

/// The fee is the sum of its two parts, as far as it fits.
pub proof fn law_fees_are_sums(refundable: i64, other: i64)
    ensures
        i64::MIN <= refundable + other <= i64::MAX ==> whole_fee((refundable, other)) == refundable + other,
        refundable + other > i64::MAX ==> whole_fee((refundable, other)) == i64::MAX,
        refundable + other < i64::MIN ==> whole_fee((refundable, other)) == i64::MIN,
{
}

} // verus!

use soroban_env_host::xdr;
use soroban_env_host::xdr::{Limits, WriteXdr};

use soroban_fork::codec::ConfigSettingId;
use soroban_fork::error::ForkError;
use soroban_fork::fees::{
    apply_setting, compute_min_resource_fee, empty_soroban_resources, fetch_fee_configuration,
    FeeConfiguration, FeeProgress, SorobanResources,
};
use soroban_fork::ledger::{decode_entry, new_account, LedgerEntry, LedgerKey};
use soroban_fork::source::RpcSnapshotSource;

fn entry(setting: xdr::ConfigSettingEntry) -> LedgerEntry {
    let e = xdr::LedgerEntry {
        last_modified_ledger_seq: 1,
        data: xdr::LedgerEntryData::ConfigSetting(setting),
        ext: xdr::LedgerEntryExt::V0,
    };
    decode_entry(&e.to_xdr(Limits::none()).unwrap()).unwrap()
}

fn settings() -> Vec<(ConfigSettingId, LedgerEntry)> {
    vec![
        (
            ConfigSettingId::ContractComputeV0,
            entry(xdr::ConfigSettingEntry::ContractComputeV0(xdr::ConfigSettingContractComputeV0 {
                ledger_max_instructions: 0,
                tx_max_instructions: 0,
                fee_rate_per_instructions_increment: 25,
                tx_memory_limit: 0,
            })),
        ),
        (
            ConfigSettingId::ContractLedgerCostV0,
            entry(xdr::ConfigSettingEntry::ContractLedgerCostV0(
                xdr::ConfigSettingContractLedgerCostV0 {
                    ledger_max_disk_read_entries: 0,
                    ledger_max_disk_read_bytes: 0,
                    ledger_max_write_ledger_entries: 0,
                    ledger_max_write_bytes: 0,
                    tx_max_disk_read_entries: 0,
                    tx_max_disk_read_bytes: 0,
                    tx_max_write_ledger_entries: 0,
                    tx_max_write_bytes: 0,
                    fee_disk_read_ledger_entry: 6_250,
                    fee_write_ledger_entry: 10_000,
                    fee_disk_read1_kb: 1_786,
                    soroban_state_target_size_bytes: 0,
                    rent_fee1_kb_soroban_state_size_low: 0,
                    rent_fee1_kb_soroban_state_size_high: 0,
                    soroban_state_rent_fee_growth_factor: 0,
                },
            )),
        ),
        (
            ConfigSettingId::ContractLedgerCostExtV0,
            entry(xdr::ConfigSettingEntry::ContractLedgerCostExtV0(
                xdr::ConfigSettingContractLedgerCostExtV0 {
                    tx_max_footprint_entries: 0,
                    fee_write1_kb: 3_500,
                },
            )),
        ),
        (
            ConfigSettingId::ContractHistoricalDataV0,
            entry(xdr::ConfigSettingEntry::ContractHistoricalDataV0(
                xdr::ConfigSettingContractHistoricalDataV0 { fee_historical1_kb: 16_235 },
            )),
        ),
        (
            ConfigSettingId::ContractEventsV0,
            entry(xdr::ConfigSettingEntry::ContractEventsV0(xdr::ConfigSettingContractEventsV0 {
                tx_max_contract_events_size_bytes: 0,
                fee_contract_events1_kb: 10_000,
            })),
        ),
        (
            ConfigSettingId::ContractBandwidthV0,
            entry(xdr::ConfigSettingEntry::ContractBandwidthV0(
                xdr::ConfigSettingContractBandwidthV0 {
                    ledger_max_txs_size_bytes: 0,
                    tx_max_size_bytes: 0,
                    fee_tx_size1_kb: 1_624,
                },
            )),
        ),
    ]
}

fn schedule() -> FeeConfiguration {
    FeeConfiguration {
        fee_per_instruction_increment: 25,
        fee_per_disk_read_entry: 6_250,
        fee_per_write_entry: 10_000,
        fee_per_disk_read_1kb: 1_786,
        fee_per_write_1kb: 3_500,
        fee_per_historical_1kb: 16_235,
        fee_per_contract_event_1kb: 10_000,
        fee_per_transaction_size_1kb: 1_624,
    }
}

#[test]
fn the_schedule_is_put_together_from_six_settings() {
    let mut source = RpcSnapshotSource::new();
    for (id, e) in settings() {
        match fetch_fee_configuration(&source).unwrap() {
            FeeProgress::Missing(key) => {
                assert_eq!(key, LedgerKey::config_setting(id));
                source.set_entry(&key, &e, None).unwrap();
            }
            FeeProgress::Ready(_) => panic!("a setting is still missing"),
        }
    }
    match fetch_fee_configuration(&source).unwrap() {
        FeeProgress::Ready(c) => assert_eq!(c, schedule()),
        FeeProgress::Missing(_) => panic!("every setting is there"),
    }
}

#[test]
fn settings_that_are_absent_or_of_another_kind_are_refused() {
    let id = ConfigSettingId::ContractEventsV0;
    let mut cfg = FeeConfiguration::default();
    assert_eq!(
        apply_setting(id, None, &mut cfg),
        Err(ForkError::Host(
            "fee config fetch (ContractEventsV0): config setting absent on the ledger".to_string()
        ))
    );
    let other = entry(xdr::ConfigSettingEntry::ContractMaxSizeBytes(65_536));
    assert_eq!(
        apply_setting(id, Some(&other), &mut cfg),
        Err(ForkError::Host(
            "fee config fetch (ContractEventsV0): unexpected variant ContractMaxSizeBytes(65536)".to_string()
        ))
    );
    let account = new_account(&[1u8; 32], 1, 1);
    assert_eq!(
        apply_setting(id, Some(&account), &mut cfg),
        Err(ForkError::Host(format!(
            "fee config fetch (ContractEventsV0): expected ConfigSetting entry, got {}",
            account.data.to_text()
        )))
    );
    assert_eq!(cfg, FeeConfiguration::default());
}

fn event() -> xdr::ContractEvent {
    xdr::ContractEvent {
        ext: xdr::ExtensionPoint::V0,
        contract_id: None,
        type_: xdr::ContractEventType::Contract,
        body: xdr::ContractEventBody::V0(xdr::ContractEventV0 {
            topics: vec![xdr::ScVal::U32(1)].try_into().unwrap(),
            data: xdr::ScVal::Void,
        }),
    }
}

#[test]
fn the_fee_is_the_host_s_for_what_was_used() {
    let key = LedgerKey::account(&[1u8; 32]).as_xdr().to_vec();
    let used = SorobanResources {
        read_only: vec![key.clone(), key.clone()],
        read_write: vec![key],
        instructions: 1_234_567,
        disk_read_bytes: 2_000,
        write_bytes: 500,
    };
    let wrapped = xdr::DiagnosticEvent { in_successful_contract_call: true, event: event() };
    let events_size = wrapped.to_xdr(Limits::none()).unwrap().len() as u32;
    let (a, b) = soroban_env_host::fees::compute_transaction_resource_fee(
        &soroban_env_host::fees::TransactionResources {
            instructions: 1_234_567,
            disk_read_entries: 3,
            write_entries: 1,
            disk_read_bytes: 2_000,
            write_bytes: 500,
            contract_events_size_bytes: events_size,
            transaction_size_bytes: 300,
        },
        &soroban_env_host::fees::FeeConfiguration {
            fee_per_instruction_increment: 25,
            fee_per_disk_read_entry: 6_250,
            fee_per_write_entry: 10_000,
            fee_per_disk_read_1kb: 1_786,
            fee_per_write_1kb: 3_500,
            fee_per_historical_1kb: 16_235,
            fee_per_contract_event_1kb: 10_000,
            fee_per_transaction_size_1kb: 1_624,
        },
    );
    let events = vec![event().to_xdr(Limits::none()).unwrap()];
    assert_eq!(compute_min_resource_fee(Some(&schedule()), &used, &events, 300), Some(a + b));
    assert!(a + b > 0);
}

#[test]
fn there_is_no_fee_without_a_schedule_or_with_a_broken_event() {
    let used = empty_soroban_resources();
    assert_eq!(compute_min_resource_fee(None, &used, &vec![], 300), None);
    assert_eq!(compute_min_resource_fee(Some(&schedule()), &used, &vec![vec![1, 2]], 300), None);
    assert_eq!(
        compute_min_resource_fee(Some(&FeeConfiguration::default()), &used, &vec![], 300),
        Some(0)
    );
}

#[test]
fn a_fee_stops_at_the_greatest_number() {
    let dear = FeeConfiguration {
        fee_per_instruction_increment: i64::MAX,
        fee_per_contract_event_1kb: i64::MAX,
        fee_per_write_entry: i64::MAX,
        ..FeeConfiguration::default()
    };
    let used = SorobanResources {
        read_write: vec![LedgerKey::account(&[1u8; 32]).as_xdr().to_vec()],
        instructions: u32::MAX,
        ..empty_soroban_resources()
    };
    let events = vec![event().to_xdr(Limits::none()).unwrap()];
    assert_eq!(compute_min_resource_fee(Some(&dear), &used, &events, 0), Some(i64::MAX));
}

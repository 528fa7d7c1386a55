use soroban_fork::cache::tmp_name;
use soroban_fork::codec::TrustLineAsset;
use soroban_fork::error::ForkError;
use soroban_fork::fees::FeeProgress;
use soroban_fork::fork::{ForkConfig, ForkedEnv, TokenCall};
use soroban_fork::ledger::{new_account, new_trustline, LedgerEntryData, LedgerKey};
use soroban_fork::rpc::{LatestLedger, NetworkMetadata};
use soroban_fork::server::{ServeError, Server};
use soroban_fork::source::{FetchMode, LedgerRow, Lookup};
use soroban_fork::test_accounts::{
    account_banner, generate, usdc_mainnet_trustline_asset, xlm_text, DEFAULT_BALANCE_STROOPS,
};

use sha2::Digest;

fn latest() -> LatestLedger {
    LatestLedger { sequence: 1_000, protocol_version: 27, close_time: 5_000 }
}

fn built(config: ForkConfig) -> ForkedEnv {
    let network = NetworkMetadata::from_passphrase("Test Network".to_string());
    config.build(&vec![], latest(), Some(network)).expect("build")
}

#[test]
fn fork_config_builder_records_overrides() {
    let cfg = ForkConfig::new("https://example.test")
        .cache_file("/tmp/ignored.json")
        .network_id([7u8; 32])
        .fetch_mode(FetchMode::Lenient)
        .at_ledger(12345)
        .pinned_timestamp(999)
        .max_protocol_version(25)
        .tracing(true);

    assert_eq!(cfg.rpc_url, "https://example.test");
    assert_eq!(cfg.cache_path.as_deref(), Some("/tmp/ignored.json"));
    assert_eq!(cfg.network_id, Some([7u8; 32]));
    assert_eq!(cfg.fetch_mode, Some(FetchMode::Lenient));
    assert_eq!(cfg.pinned_ledger, Some(12345));
    assert_eq!(cfg.pinned_timestamp, Some(999));
    assert_eq!(cfg.max_protocol_version, Some(25));
    assert!(cfg.tracing);
    assert!(!cfg.needs_network());
}

#[test]
fn fork_config_tracing_default_is_off() {
    let cfg = ForkConfig::new("https://example.test");
    assert!(!cfg.tracing);
    assert!(cfg.needs_network());
    assert_eq!(cfg.test_account_count, 10);
    assert_eq!(cfg.test_trustlines, vec![usdc_mainnet_trustline_asset().unwrap()]);
}

#[test]
fn fork_config_debug_redacts_nothing_sensitive() {
    let cfg = ForkConfig::new("https://example.test");
    let s = format!("{cfg:?}");
    assert!(s.contains("example.test"));
}

#[test]
fn explicit_network_id_override_is_stored() {
    let cfg = ForkConfig::new("https://example.test").network_id([0xAB; 32]);
    assert_eq!(cfg.network_id, Some([0xAB; 32]));
}

#[test]
fn a_fork_starts_at_the_latest_ledger() {
    let env = built(ForkConfig::new("https://example.test"));
    assert_eq!(env.ledger_sequence(), 1_000);
    assert_eq!(env.ledger_close_time(), 5_000);
    assert_eq!(env.protocol_version(), 27);
    assert_eq!(env.passphrase(), Some("Test Network"));
    let id: [u8; 32] = sha2::Sha256::digest(b"Test Network").into();
    assert_eq!(env.network_id(), id);
    assert_eq!(env.fetch_count(), 0);
    assert!(!env.tracing());
    assert_eq!(env.test_accounts().len(), 10);
    let info = env.ledger_info();
    assert_eq!(info.base_reserve, 100);
    assert_eq!(info.min_persistent_entry_ttl, 4_096);
    assert_eq!(info.min_temp_entry_ttl, 16);
    assert_eq!(info.max_entry_ttl, 6_312_000);
    assert_eq!(env.snapshot_source().fetch_mode(), FetchMode::Strict);
}

#[test]
fn pinned_values_win_over_the_network_s() {
    let config = ForkConfig::new("https://example.test")
        .network_id([9u8; 32])
        .fetch_mode(FetchMode::Lenient)
        .at_ledger(77)
        .pinned_timestamp(88)
        .max_protocol_version(25)
        .test_account_count(0)
        .tracing(true);
    let env = config.build(&vec![], latest(), None).expect("build");
    assert_eq!(env.ledger_sequence(), 77);
    assert_eq!(env.ledger_close_time(), 88);
    assert_eq!(env.protocol_version(), 25);
    assert_eq!(env.network_id(), [9u8; 32]);
    assert_eq!(env.passphrase(), None);
    assert!(env.tracing());
    assert!(env.test_accounts().is_empty());
    assert_eq!(env.snapshot_source().fetch_mode(), FetchMode::Lenient);
}

#[test]
fn a_protocol_below_the_limit_is_kept() {
    let env = built(ForkConfig::new("https://example.test").max_protocol_version(30));
    assert_eq!(env.protocol_version(), 27);
}

#[test]
fn test_accounts_are_on_the_fork_with_their_trustlines() {
    let asset = TrustLineAsset::CreditAlphanum4 { code: *b"EURC", issuer: [4u8; 32] };
    let env = built(
        ForkConfig::new("https://example.test")
            .test_account_count(2)
            .test_account_trustlines(vec![asset, TrustLineAsset::Native]),
    );
    assert_eq!(env.snapshot_source().entries().unwrap().len(), 6);
    for a in env.test_accounts() {
        match env.snapshot_source().get(&LedgerKey::account(&a.public_key)).unwrap() {
            Lookup::Hit(Some(f)) => {
                assert_eq!(f.entry, new_account(&a.public_key, DEFAULT_BALANCE_STROOPS, 1_000));
            }
            other => panic!("account should be present, got {other:?}"),
        }
        match env.snapshot_source().get(&LedgerKey::trustline(&a.public_key, &asset)).unwrap() {
            Lookup::Hit(Some(f)) => {
                assert_eq!(f.entry, new_trustline(&a.public_key, &asset, 0, 1_000));
            }
            other => panic!("trustline should be present, got {other:?}"),
        }
    }
}

#[test]
fn cached_rows_are_known_from_the_start() {
    let row = || LedgerRow {
        key: LedgerKey::account(&[5u8; 32]),
        entry: new_account(&[5u8; 32], 123, 9),
        live_until: Some(4),
    };
    let network = NetworkMetadata::from_passphrase("Test Network".to_string());
    let env = ForkConfig::new("https://example.test")
        .build(&vec![row()], latest(), Some(network))
        .expect("build");
    match env.snapshot_source().get(&LedgerKey::account(&[5u8; 32])).unwrap() {
        Lookup::Hit(Some(f)) => {
            assert_eq!(f.entry, row().entry);
            assert_eq!(f.live_until, Some(4));
        }
        other => panic!("row should be known, got {other:?}"),
    }
}

#[test]
fn a_cached_row_that_cannot_be_encoded_is_refused() {
    let mut row = LedgerRow {
        key: LedgerKey::account(&[5u8; 32]),
        entry: new_account(&[5u8; 32], 123, 9),
        live_until: None,
    };
    if let LedgerEntryData::Account(a) = &mut row.entry.data {
        a.ext = vec![1, 2];
    }
    let config = ForkConfig::new("https://example.test").network_id([1u8; 32]);
    assert!(matches!(config.build(&vec![row], latest(), None), Err(ForkError::Xdr(_))));
}

#[test]
fn warping_moves_the_clock() {
    let mut env = built(ForkConfig::new("https://example.test").test_account_count(0));
    env.warp(3, 20);
    assert_eq!((env.ledger_sequence(), env.ledger_close_time()), (1_003, 5_020));
    env.warp_time(12);
    assert_eq!((env.ledger_sequence(), env.ledger_close_time()), (1_005, 5_032));
    env.warp_ledger(4);
    assert_eq!((env.ledger_sequence(), env.ledger_close_time()), (1_009, 5_052));
}

#[test]
fn the_clock_can_be_set() {
    let mut env = built(ForkConfig::new("https://example.test").test_account_count(0));
    let before = env.ledger_info();
    env.set_clock(77, 88);
    assert_eq!((env.ledger_sequence(), env.ledger_close_time()), (77, 88));
    assert_eq!(env.protocol_version(), before.protocol_version);
    env.warp_ledger(2);
    assert_eq!((env.ledger_sequence(), env.ledger_close_time()), (79, 98));
}

#[test]
fn warping_stops_at_the_greatest_numbers() {
    let mut env = built(ForkConfig::new("https://example.test").test_account_count(0));
    env.warp(u32::MAX, u64::MAX);
    assert_eq!((env.ledger_sequence(), env.ledger_close_time()), (u32::MAX, u64::MAX));
    env.warp_ledger(u32::MAX);
    assert_eq!((env.ledger_sequence(), env.ledger_close_time()), (u32::MAX, u64::MAX));
}

#[test]
fn time_beyond_32_bits_of_ledgers_stops_at_the_last_ledger() {
    let mut env = built(ForkConfig::new("https://example.test").test_account_count(0));
    env.warp_time(21_474_836_480);
    assert_eq!((env.ledger_sequence(), env.ledger_close_time()), (u32::MAX, 21_474_841_480));

    let mut env = built(ForkConfig::new("https://example.test").test_account_count(0));
    env.warp_time(86_400);
    assert_eq!((env.ledger_sequence(), env.ledger_close_time()), (18_280, 91_400));
    env.warp_time(u64::MAX);
    assert_eq!((env.ledger_sequence(), env.ledger_close_time()), (u32::MAX, u64::MAX));
}

#[test]
fn two_warps_are_one_over_both_distances() {
    let mut a = built(ForkConfig::new("https://example.test").test_account_count(0));
    let mut b = built(ForkConfig::new("https://example.test").test_account_count(0));
    a.warp(2, 7);
    a.warp(5, 11);
    b.warp(7, 18);
    assert_eq!(a.ledger_info(), b.ledger_info());
    a.warp_ledger(6);
    b.warp_time(30);
    assert_eq!(a.ledger_info(), b.ledger_info());
}

#[test]
fn dealing_a_token_mints_or_burns_the_difference() {
    let env = built(ForkConfig::new("https://example.test").test_account_count(0));
    assert_eq!(env.deal_token(5, 5), Ok(None));
    assert_eq!(env.deal_token(5, 12), Ok(Some(TokenCall::Mint(7))));
    assert_eq!(env.deal_token(12, 5), Ok(Some(TokenCall::Burn(7))));
    assert_eq!(env.deal_token(i128::MAX, 0), Ok(Some(TokenCall::Burn(i128::MAX))));
    assert_eq!(env.deal_token(-1, i128::MAX - 1), Ok(Some(TokenCall::Mint(i128::MAX))));
}

#[test]
fn a_burn_that_no_token_can_take_is_refused() {
    let env = built(ForkConfig::new("https://example.test").test_account_count(0));
    assert_eq!(
        env.deal_token(i128::MAX, -1),
        Err(ForkError::Host("amount: i128::MIN delta unreachable".to_string()))
    );
}

#[test]
fn nothing_is_saved_without_a_file_or_entries() {
    let env = built(ForkConfig::new("https://example.test"));
    assert!(env.save_cache().unwrap().is_none());
    let env = built(ForkConfig::new("https://example.test").cache_file("c.json").test_account_count(0));
    assert!(env.save_cache().unwrap().is_none());
}

#[test]
fn a_saved_cache_tells_of_the_forked_ledger() {
    let mut env = built(
        ForkConfig::new("https://example.test").cache_file("c.json").test_account_count(1),
    );
    env.warp(50, 60);
    let (path, snapshot) = env.save_cache().unwrap().expect("something to save");
    assert_eq!(path, "c.json");
    assert_eq!(snapshot.rows.len(), 2);
    assert_eq!(snapshot.ledger.sequence_number, 1_000);
    assert_eq!(snapshot.ledger.timestamp, 5_000);
    assert_eq!(snapshot.ledger.network_id, env.network_id());
    assert_eq!(snapshot.ledger.protocol_version, 27);
    assert_eq!(snapshot.ledger.base_reserve, 100);
}

#[test]
fn the_fee_schedule_asks_for_its_settings() {
    let mut env = built(ForkConfig::new("https://example.test").test_account_count(0));
    match env.fee_configuration().unwrap() {
        FeeProgress::Missing(key) => {
            env.snapshot_source_mut().begin_fetch();
            assert_eq!(env.snapshot_source_mut().finish_fetch(&key, 1, Ok(None)), Ok(None));
        }
        other => panic!("a setting should be missing, got {other:?}"),
    }
    assert!(env.fee_configuration().is_err());
}

#[test]
fn tmp_sibling_lives_next_to_target() {
    let target = std::path::PathBuf::from("/tmp/cache.json");
    let name = tmp_name(target.file_name().and_then(|n| n.to_str()), 17, 42);
    let tmp = target.with_file_name(&name);
    assert_eq!(tmp.parent(), Some(std::path::Path::new("/tmp")));
    let name = tmp.file_name().and_then(|n| n.to_str()).unwrap();
    assert!(name.starts_with(".cache.json.tmp."));
    assert_eq!(name, ".cache.json.tmp.17.42");
}

#[test]
fn tmp_sibling_handles_bare_filename() {
    let target = std::path::PathBuf::from("cache.json");
    let name = tmp_name(target.file_name().and_then(|n| n.to_str()), 1, u128::MAX);
    let tmp = target.with_file_name(&name);
    let name = tmp.file_name().and_then(|n| n.to_str()).unwrap();
    assert!(name.starts_with(".cache.json.tmp."));
    assert_eq!(tmp_name(None, 0, 0), ".snapshot.tmp.0.0");
}

#[test]
fn generated_accounts_are_deterministic() {
    let a = generate(3);
    let b = generate(3);
    assert_eq!(a.len(), 3);
    for (x, y) in a.iter().zip(b.iter()) {
        assert_eq!(x.secret_seed, y.secret_seed);
        assert_eq!(x.public_key, y.public_key);
    }
}

#[test]
fn strkeys_have_expected_prefixes() {
    let a = &generate(1)[0];
    assert!(a.account_strkey().starts_with('G'));
    assert!(a.secret_key_strkey().starts_with('S'));
    assert_eq!(a.account_strkey().len(), 56);
    assert_eq!(a.secret_key_strkey().len(), 56);
}

#[test]
fn account_zero_is_stable() {
    let a = &generate(1)[0];
    let strkey = a.account_strkey();
    assert_eq!(strkey.len(), 56);
    assert!(strkey.starts_with('G'));
    let seed: [u8; 32] = sha2::Sha256::digest(b"soroban-fork test account 0").into();
    assert_eq!(a.secret_seed, seed);
    let public = ed25519_dalek::SigningKey::from_bytes(&seed).verifying_key().to_bytes();
    assert_eq!(a.public_key, public);
    assert_eq!(strkey, stellar_strkey::ed25519::PublicKey(public).to_string().as_str());
}

#[test]
fn amounts_are_shown_with_seven_decimals() {
    assert_eq!(xlm_text(DEFAULT_BALANCE_STROOPS), "100000.0000000");
    assert_eq!(xlm_text(0), "0.0000000");
    assert_eq!(xlm_text(12_345), "0.0012345");
    assert_eq!(xlm_text(19_999_999), "1.9999999");
    assert_eq!(xlm_text(i64::MAX), "922337203685.4775807");
}

#[test]
fn the_banner_lists_the_accounts() {
    assert_eq!(
        account_banner("0.1.0", "127.0.0.1:8000", 0),
        vec![
            "soroban-fork v0.1.0",
            "Listening on http://127.0.0.1:8000",
            "(no pre-funded test accounts; pass --accounts N to enable)",
        ]
    );
    let a = &generate(1)[0];
    let line = format!("(0) {}  (100000.0000000 XLM)  ->  {}", a.account_strkey(), a.secret_key_strkey());
    assert_eq!(
        account_banner("0.1.0", "h", 1),
        vec![
            "soroban-fork v0.1.0",
            "Listening on http://h",
            "",
            "Available test accounts:",
            line.as_str(),
            "",
        ]
    );
}

#[test]
fn servers_listen_where_they_are_told() {
    let builder = Server::builder(ForkConfig::new("https://example.test"));
    assert_eq!(builder.config.rpc_url, "https://example.test");
    assert_eq!(builder.address(), "127.0.0.1:8000");
    assert_eq!(builder.listen("0.0.0.0:0").address(), "0.0.0.0:0");
}

#[test]
fn errors_tell_what_went_wrong() {
    let cache = ForkError::Cache { path: "p".to_string(), message: "m".to_string() };
    assert_eq!(cache.to_text(), "cache I/O error at p: m");
    assert_eq!(ForkError::RpcError("e".to_string()).to_text(), "RPC returned error: e");
    assert_eq!(ForkError::RpcNoResult.to_text(), "RPC response had no result field");
    assert_eq!(ForkError::Xdr("x".to_string()).to_text(), "XDR codec error: x");
    assert_eq!(ForkError::Base64("b".to_string()).to_text(), "base64 decode error: b");
    assert_eq!(ForkError::Json("j".to_string()).to_text(), "JSON codec error: j");
    assert_eq!(
        ServeError::Fork(ForkError::Transport("t".to_string())).to_text(),
        "fork build failed: RPC transport error: t"
    );
    assert_eq!(ServeError::Io("i".to_string()).to_text(), "listener I/O error: i");
    assert_eq!(
        ServeError::WorkerAborted.to_text(),
        "worker thread aborted before reporting build status"
    );
}

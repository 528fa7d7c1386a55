use soroban_env_host::xdr;
use soroban_env_host::xdr::{Limits, ReadXdr, WriteXdr};

use soroban_fork::codec::{ConfigSettingId, Durability, TrustLineAsset};
use soroban_fork::error::ForkError;
use soroban_fork::ledger::{
    decode_entry, encode_entry, new_account, new_trustline, LedgerEntry, LedgerEntryData, LedgerKey,
};
use soroban_fork::rpc::FetchedEntry;
use soroban_fork::source::{
    abbreviate, key_display, FetchMode, LedgerEntryChange, LedgerRow, Lookup, RpcSnapshotSource,
};

fn xdr_key() -> xdr::LedgerKey {
    xdr::LedgerKey::ConfigSetting(xdr::LedgerKeyConfigSetting {
        config_setting_id: xdr::ConfigSettingId::ContractMaxSizeBytes,
    })
}

fn xdr_entry(last_modified: u32) -> xdr::LedgerEntry {
    xdr::LedgerEntry {
        last_modified_ledger_seq: last_modified,
        data: xdr::LedgerEntryData::ConfigSetting(xdr::ConfigSettingEntry::ContractMaxSizeBytes(65_536)),
        ext: xdr::LedgerEntryExt::V0,
    }
}

fn key_of(k: &xdr::LedgerKey) -> LedgerKey {
    LedgerKey::from_xdr(&k.to_xdr(Limits::none()).unwrap()).expect("XDR of a key")
}

fn entry_of(e: &xdr::LedgerEntry) -> LedgerEntry {
    decode_entry(&e.to_xdr(Limits::none()).unwrap()).expect("XDR of an entry")
}

fn dummy_row(last_modified: u32) -> LedgerRow {
    LedgerRow { key: key_of(&xdr_key()), entry: entry_of(&xdr_entry(last_modified)), live_until: None }
}

#[test]
fn abbreviate_short_string_is_unchanged() {
    assert_eq!(abbreviate("abc"), "abc");
    assert_eq!(abbreviate("12345678"), "12345678");
}

#[test]
fn abbreviate_long_string_collapses_middle() {
    let full = "GABCDEFGHIJKLMNOPQRSTUVWXYZ01234567890ABCDEFGHIJKLMNOPQR";
    let short = abbreviate(full);
    assert_eq!(short, "GABC...OPQR");
    assert!(short.len() < full.len());
}

#[test]
fn key_display_renders_config_setting() {
    assert_eq!(key_display(&key_of(&xdr_key())), "ConfigSetting");
}

#[test]
fn key_display_tells_every_kind_of_key() {
    let account = stellar_strkey::ed25519::PublicKey([7u8; 32]).to_string().as_str().to_string();
    let short = format!("{}...{}", &account[..4], &account[52..]);
    assert_eq!(key_display(&LedgerKey::account(&[7u8; 32])), format!("Account({short})"));
    assert_eq!(
        key_display(&LedgerKey::trustline(&[7u8; 32], &TrustLineAsset::Native)),
        format!("Trustline({short})")
    );
    let mut hash = [0u8; 32];
    hash[0] = 0xDE;
    hash[1] = 0xAD;
    hash[2] = 0x0B;
    hash[3] = 0xEF;
    assert_eq!(key_display(&LedgerKey::contract_code(&hash)), "ContractCode(dead0bef...)");

    let contract = stellar_strkey::Contract([8u8; 32]).to_string().as_str().to_string();
    let short = format!("{}...{}", &contract[..4], &contract[52..]);
    let void = xdr::ScVal::Void.to_xdr(Limits::none()).unwrap();
    let instance = xdr::ScVal::LedgerKeyContractInstance.to_xdr(Limits::none()).unwrap();
    let shown = |key: &[u8], d: Durability| {
        key_display(&LedgerKey::contract_data(&[8u8; 32], key, d).expect("XDR of a value"))
    };
    assert_eq!(shown(&void, Durability::Persistent), format!("ContractData({short}, persistent)"));
    assert_eq!(shown(&void, Durability::Temporary), format!("ContractData({short}, temp)"));
    assert_eq!(shown(&instance, Durability::Persistent), format!("ContractData({short}, instance)"));

    let ttl = xdr::LedgerKey::Ttl(xdr::LedgerKeyTtl { key_hash: xdr::Hash([1u8; 32]) });
    assert_eq!(key_display(&key_of(&ttl)), "Ttl");
    let offer = xdr::LedgerKey::Offer(xdr::LedgerKeyOffer {
        seller_id: xdr::AccountId(xdr::PublicKey::PublicKeyTypeEd25519(xdr::Uint256([7u8; 32]))),
        offer_id: 1,
    });
    assert_eq!(key_display(&key_of(&offer)), "Other");
}

#[test]
fn keys_are_the_codec_s_own_xdr() {
    let id = xdr::AccountId(xdr::PublicKey::PublicKeyTypeEd25519(xdr::Uint256([7u8; 32])));
    let account = xdr::LedgerKey::Account(xdr::LedgerKeyAccount { account_id: id.clone() });
    assert_eq!(LedgerKey::account(&[7u8; 32]).as_xdr().to_vec(), account.to_xdr(Limits::none()).unwrap());

    let asset = TrustLineAsset::CreditAlphanum12 { code: *b"LONGCODE\0\0\0\0", issuer: [9u8; 32] };
    let key = LedgerKey::trustline(&[7u8; 32], &asset);
    let expected = xdr::LedgerKey::Trustline(xdr::LedgerKeyTrustLine {
        account_id: id,
        asset: xdr::TrustLineAsset::CreditAlphanum12(xdr::AlphaNum12 {
            asset_code: xdr::AssetCode12(*b"LONGCODE\0\0\0\0"),
            issuer: xdr::AccountId(xdr::PublicKey::PublicKeyTypeEd25519(xdr::Uint256([9u8; 32]))),
        }),
    });
    assert_eq!(key.as_xdr(), expected.to_xdr(Limits::none()).unwrap());

    let setting = xdr::LedgerKey::ConfigSetting(xdr::LedgerKeyConfigSetting {
        config_setting_id: xdr::ConfigSettingId::ContractLedgerCostExtV0,
    });
    assert_eq!(
        LedgerKey::config_setting(ConfigSettingId::ContractLedgerCostExtV0).as_xdr().to_vec(),
        setting.to_xdr(Limits::none()).unwrap()
    );
    assert!(LedgerKey::from_xdr(&[1, 2, 3]).is_err());
    assert!(LedgerKey::contract_data(&[8u8; 32], &[1, 2, 3], Durability::Persistent).is_none());
}

#[test]
fn fetch_mode_default_is_strict() {
    let src = RpcSnapshotSource::new();
    assert_eq!(src.fetch_mode(), FetchMode::Strict);
    assert_eq!(src.with_fetch_mode(FetchMode::Lenient).fetch_mode(), FetchMode::Lenient);
}

#[test]
fn xdr_round_trip_preserves_ledger_entry() {
    let entry = entry_of(&xdr_entry(42));
    let encoded = encode_entry(&entry).expect("encodable");
    let decoded = decode_entry(&encoded).expect("decodable");
    assert_eq!(entry, decoded);
    assert_eq!(encoded, encode_entry(&decoded).expect("encodable"));
    assert_eq!(encoded, xdr_entry(42).to_xdr(Limits::none()).unwrap());
}

#[test]
fn accounts_trustlines_and_storage_round_trip() {
    let id = xdr::AccountId(xdr::PublicKey::PublicKeyTypeEd25519(xdr::Uint256([7u8; 32])));
    let account = xdr::LedgerEntry {
        last_modified_ledger_seq: 5,
        data: xdr::LedgerEntryData::Account(xdr::AccountEntry {
            account_id: id.clone(),
            balance: 11,
            seq_num: xdr::SequenceNumber(12),
            num_sub_entries: 1,
            inflation_dest: Some(id.clone()),
            flags: 3,
            home_domain: xdr::String32("example.test".try_into().unwrap()),
            thresholds: xdr::Thresholds([1, 2, 3, 4]),
            signers: vec![xdr::Signer {
                key: xdr::SignerKey::Ed25519(xdr::Uint256([3u8; 32])),
                weight: 9,
            }]
            .try_into()
            .unwrap(),
            ext: xdr::AccountEntryExt::V0,
        }),
        ext: xdr::LedgerEntryExt::V0,
    };
    let trustline = xdr::LedgerEntry {
        last_modified_ledger_seq: 6,
        data: xdr::LedgerEntryData::Trustline(xdr::TrustLineEntry {
            account_id: id,
            asset: xdr::TrustLineAsset::PoolShare(xdr::PoolId(xdr::Hash([4u8; 32]))),
            balance: 21,
            limit: 22,
            flags: 1,
            ext: xdr::TrustLineEntryExt::V0,
        }),
        ext: xdr::LedgerEntryExt::V0,
    };
    let storage = xdr::LedgerEntry {
        last_modified_ledger_seq: 7,
        data: xdr::LedgerEntryData::ContractData(xdr::ContractDataEntry {
            ext: xdr::ExtensionPoint::V0,
            contract: xdr::ScAddress::Contract(xdr::ContractId(xdr::Hash([8u8; 32]))),
            key: xdr::ScVal::U32(1),
            durability: xdr::ContractDataDurability::Temporary,
            val: xdr::ScVal::Bool(true),
        }),
        ext: xdr::LedgerEntryExt::V0,
    };
    for e in [account, trustline, storage] {
        let bytes = e.to_xdr(Limits::none()).unwrap();
        let entry = decode_entry(&bytes).expect("decodable");
        assert!(!matches!(entry.data, LedgerEntryData::Other(_)));
        assert_eq!(encode_entry(&entry).expect("encodable"), bytes);
        assert_eq!(entry.data.to_xdr().unwrap(), e.data.to_xdr(Limits::none()).unwrap());
        assert_eq!(entry.data.to_text(), format!("{:?}", e.data));
    }
}

#[test]
fn entries_with_a_malformed_part_are_refused() {
    let mut entry = new_account(&[7u8; 32], 5, 1);
    if let LedgerEntryData::Account(a) = &mut entry.data {
        a.signers = vec![1];
    }
    assert!(matches!(encode_entry(&entry), Err(ForkError::Xdr(_))));
    assert!(matches!(decode_entry(&[0, 1]), Err(ForkError::Xdr(_))));
    let mut src = RpcSnapshotSource::new();
    let key = LedgerKey::account(&[7u8; 32]);
    assert!(src.set_entry(&key, &entry, None).is_err());
    assert_eq!(src.get(&key).unwrap(), Lookup::Miss);
}

#[test]
fn preload_then_entries_round_trips() {
    let mut src = RpcSnapshotSource::new();
    let loaded = vec![dummy_row(7)];
    src.preload(&loaded).expect("preload");
    let exported = src.entries().expect("entries");
    assert_eq!(exported.len(), 1);
    assert_eq!(exported[0].key, loaded[0].key);
    assert_eq!(exported[0].entry, loaded[0].entry);
    assert_eq!(exported[0].live_until, loaded[0].live_until);
}

#[test]
fn exports_are_in_the_order_of_the_keys() {
    // The XDR of a negative number is greater than that of a positive one.
    let storage = |n: i32| {
        let key = xdr::ScVal::I32(n);
        let entry = xdr::LedgerEntry {
            last_modified_ledger_seq: 1,
            data: xdr::LedgerEntryData::ContractData(xdr::ContractDataEntry {
                ext: xdr::ExtensionPoint::V0,
                contract: xdr::ScAddress::Contract(xdr::ContractId(xdr::Hash([1; 32]))),
                key: key.clone(),
                durability: xdr::ContractDataDurability::Persistent,
                val: xdr::ScVal::Void,
            }),
            ext: xdr::LedgerEntryExt::V0,
        };
        let key = xdr::LedgerKey::ContractData(xdr::LedgerKeyContractData {
            contract: xdr::ScAddress::Contract(xdr::ContractId(xdr::Hash([1; 32]))),
            key,
            durability: xdr::ContractDataDurability::Persistent,
        });
        LedgerRow { key: key_of(&key), entry: entry_of(&entry), live_until: Some(5) }
    };
    let mut src = RpcSnapshotSource::new();
    src.preload(&vec![storage(2), storage(-3), storage(1), storage(-1)]).expect("preload");
    let exported: Vec<LedgerKey> = src.entries().unwrap().into_iter().map(|row| row.key).collect();
    let expected: Vec<LedgerKey> = [-3, -1, 1, 2].into_iter().map(|n| storage(n).key).collect();
    assert_eq!(exported, expected);
}

#[test]
fn exported_entries_load_back() {
    let mut first = RpcSnapshotSource::new();
    first.preload(&vec![dummy_row(7)]).expect("preload");
    let account = LedgerKey::account(&[7u8; 32]);
    first.set_entry(&account, &new_account(&[7u8; 32], 500, 2), Some(9)).expect("set");
    let absent = LedgerKey::account(&[8u8; 32]);
    let n = first.begin_fetch();
    assert_eq!(first.finish_fetch(&absent, n, Ok(None)), Ok(None));

    let exported = first.entries().expect("entries");
    assert_eq!(exported.len(), 2);
    let mut second = RpcSnapshotSource::new();
    second.preload(&exported).expect("preload");
    for key in [&key_of(&xdr_key()), &account] {
        let found = second.get(key).unwrap();
        assert!(matches!(found, Lookup::Hit(Some(_))));
        assert_eq!(found, first.get(key).unwrap());
    }
    assert_eq!(first.get(&absent).unwrap(), Lookup::Hit(None));
    assert_eq!(second.get(&absent).unwrap(), Lookup::Miss);
}

#[test]
fn get_returns_preloaded_entry() {
    let mut src = RpcSnapshotSource::new();
    src.preload(&vec![dummy_row(99)]).expect("preload");

    let row = dummy_row(99);
    match src.get(&row.key).expect("get should not error") {
        Lookup::Hit(Some(found)) => {
            assert_eq!(found.entry, row.entry);
            assert_eq!(found.live_until, row.live_until);
        }
        other => panic!("preloaded entry should be present, got {other:?}"),
    }
    assert_eq!(src.fetch_count(), 0);
}

#[test]
fn later_rows_win_and_exports_are_sorted() {
    let account = |n: u8, balance: i64| LedgerRow {
        key: LedgerKey::account(&[n; 32]),
        entry: new_account(&[n; 32], balance, 1),
        live_until: None,
    };
    let mut src = RpcSnapshotSource::new();
    src.preload(&vec![account(3, 1), account(1, 2), account(2, 3), account(1, 4)]).expect("preload");
    let rows = src.entries().expect("entries");
    assert_eq!(rows.len(), 3);
    assert_eq!(rows[0], account(1, 4));
    assert_eq!(rows[1], account(2, 3));
    assert_eq!(rows[2], account(3, 1));
}

#[test]
fn fetches_are_counted_and_remembered() {
    let mut src = RpcSnapshotSource::new();
    let row = dummy_row(3);
    assert_eq!(src.get(&row.key).unwrap(), Lookup::Miss);
    let n = src.begin_fetch();
    assert_eq!(n, 1);
    let found = FetchedEntry { entry: dummy_row(3).entry, live_until: Some(77) };
    let got = src.finish_fetch(&row.key, n, Ok(Some(found))).expect("fetch");
    assert_eq!(got.unwrap().live_until, Some(77));
    assert!(matches!(src.get(&row.key).unwrap(), Lookup::Hit(Some(f)) if f.live_until == Some(77)));
    assert_eq!(src.fetch_count(), 1);

    let absent = LedgerKey::account(&[5u8; 32]);
    let n = src.begin_fetch();
    assert_eq!(src.finish_fetch(&absent, n, Ok(None)), Ok(None));
    assert_eq!(src.get(&absent).unwrap(), Lookup::Hit(None));
    assert_eq!(src.entries().unwrap().len(), 1);
    assert_eq!(src.fetch_count(), 2);
}

#[test]
fn failed_fetches_end_the_call_or_count_as_absence() {
    let key = LedgerKey::account(&[5u8; 32]);
    let mut strict = RpcSnapshotSource::new();
    let n = strict.begin_fetch();
    let err = strict
        .finish_fetch(&key, n, Err(ForkError::Transport("no route".to_string())))
        .expect_err("strict");
    assert_eq!(err, "soroban-fork: RPC fetch #1 failed (strict): RPC transport error: no route");
    assert_eq!(strict.get(&key).unwrap(), Lookup::Miss);

    let mut lenient = RpcSnapshotSource::new().with_fetch_mode(FetchMode::Lenient);
    let n = lenient.begin_fetch();
    assert_eq!(lenient.finish_fetch(&key, n, Err(ForkError::Transport("no route".to_string()))), Ok(None));
    assert_eq!(lenient.get(&key).unwrap(), Lookup::Hit(None));
}

#[test]
fn bumping_a_sequence_number_leaves_the_rest_of_the_account() {
    let mut src = RpcSnapshotSource::new();
    let key = LedgerKey::account(&[7u8; 32]);
    assert_eq!(src.bump_account_seq(&[7u8; 32]), None);
    src.set_entry(&key, &new_account(&[7u8; 32], 500, 2), Some(9)).expect("set");
    let first: i64 = 2 << 32;
    assert_eq!(src.bump_account_seq(&[7u8; 32]), Some(first + 1));
    assert_eq!(src.bump_account_seq(&[7u8; 32]), Some(first + 2));
    let mut expected = new_account(&[7u8; 32], 500, 2);
    if let LedgerEntryData::Account(a) = &mut expected.data {
        a.seq_num = first + 2;
    }
    match src.get(&key).unwrap() {
        Lookup::Hit(Some(f)) => {
            assert_eq!(f.entry, expected);
            assert_eq!(f.live_until, Some(9));
        }
        other => panic!("account should be present, got {other:?}"),
    }

    let line = new_trustline(&[7u8; 32], &TrustLineAsset::Native, 1, 2);
    src.set_entry(&key, &line, None).expect("set");
    assert_eq!(src.bump_account_seq(&[7u8; 32]), None);
}

#[test]
fn accounts_with_every_part_can_be_bumped() {
    let id = |k: u8| xdr::AccountId(xdr::PublicKey::PublicKeyTypeEd25519(xdr::Uint256([k; 32])));
    let account = xdr::AccountEntry {
        account_id: id(7),
        balance: 500,
        seq_num: xdr::SequenceNumber(41),
        num_sub_entries: 1,
        inflation_dest: Some(id(8)),
        flags: 3,
        home_domain: xdr::String32("example.test".try_into().unwrap()),
        thresholds: xdr::Thresholds([1, 2, 3, 4]),
        signers: vec![xdr::Signer { key: xdr::SignerKey::Ed25519(xdr::Uint256([9; 32])), weight: 5 }]
            .try_into()
            .unwrap(),
        ext: xdr::AccountEntryExt::V1(xdr::AccountEntryExtensionV1 {
            liabilities: xdr::Liabilities { buying: 1, selling: 2 },
            ext: xdr::AccountEntryExtensionV1Ext::V0,
        }),
    };
    let entry = |account: xdr::AccountEntry| xdr::LedgerEntry {
        last_modified_ledger_seq: 6,
        data: xdr::LedgerEntryData::Account(account),
        ext: xdr::LedgerEntryExt::V1(xdr::LedgerEntryExtensionV1 {
            sponsoring_id: xdr::SponsorshipDescriptor(Some(id(10))),
            ext: xdr::LedgerEntryExtensionV1Ext::V0,
        }),
    };
    let mut src = RpcSnapshotSource::new();
    let key = LedgerKey::account(&[7u8; 32]);
    src.set_entry(&key, &entry_of(&entry(account.clone())), None).expect("set");
    assert_eq!(src.bump_account_seq(&[7u8; 32]), Some(42));
    let expected = entry(xdr::AccountEntry { seq_num: xdr::SequenceNumber(42), ..account });
    match src.get(&key).unwrap() {
        Lookup::Hit(Some(f)) => assert_eq!(f.entry, entry_of(&expected)),
        other => panic!("account should be present, got {other:?}"),
    }
}

#[test]
fn sequence_numbers_go_around() {
    let mut src = RpcSnapshotSource::new();
    let mut entry = new_account(&[7u8; 32], 500, 2);
    if let LedgerEntryData::Account(a) = &mut entry.data {
        a.seq_num = i64::MAX;
    }
    src.set_entry(&LedgerKey::account(&[7u8; 32]), &entry, None).expect("set");
    assert_eq!(src.bump_account_seq(&[7u8; 32]), Some(i64::MIN));
}

fn change(key: &LedgerKey, value: Option<Vec<u8>>, live_until: Option<u32>) -> LedgerEntryChange {
    LedgerEntryChange {
        read_only: false,
        encoded_key: key.as_xdr().to_vec(),
        encoded_new_value: value,
        new_live_until_ledger: live_until,
    }
}

#[test]
fn changes_write_remove_and_pass_over() {
    let mut src = RpcSnapshotSource::new();
    let a = LedgerKey::account(&[1u8; 32]);
    let b = LedgerKey::account(&[2u8; 32]);
    let c = LedgerKey::account(&[3u8; 32]);
    src.set_entry(&a, &new_account(&[1u8; 32], 1, 1), Some(50)).unwrap();
    src.set_entry(&b, &new_account(&[2u8; 32], 2, 1), None).unwrap();
    src.set_entry(&c, &new_account(&[3u8; 32], 3, 1), None).unwrap();
    let new_a = encode_entry(&new_account(&[1u8; 32], 10, 1)).unwrap();
    let mut read = change(&c, Some(vec![1, 2, 3]), None);
    read.read_only = true;
    let n = src.apply_changes(&vec![change(&a, Some(new_a), Some(60)), change(&b, None, None), read]);
    assert_eq!(n, Ok(2));
    match src.get(&a).unwrap() {
        Lookup::Hit(Some(f)) => {
            assert_eq!(f.entry, new_account(&[1u8; 32], 10, 1));
            assert_eq!(f.live_until, Some(50));
        }
        other => panic!("entry should be present, got {other:?}"),
    }
    assert_eq!(src.get(&b).unwrap(), Lookup::Hit(None));
    assert!(matches!(src.get(&c).unwrap(), Lookup::Hit(Some(f)) if f.entry == new_account(&[3u8; 32], 3, 1)));
}

#[test]
fn changes_with_an_unreadable_key_change_nothing() {
    let mut src = RpcSnapshotSource::new();
    let a = LedgerKey::account(&[1u8; 32]);
    let value = encode_entry(&new_account(&[1u8; 32], 10, 1)).unwrap();
    let mut bad = change(&a, None, None);
    bad.encoded_key = vec![9, 9];
    let r = src.apply_changes(&vec![change(&a, Some(value), None), bad]);
    assert!(matches!(r, Err(ForkError::Xdr(_))));
    assert_eq!(src.get(&a).unwrap(), Lookup::Miss);
}

#[test]
fn a_change_takes_a_lifetime_only_where_none_is_known() {
    let mut src = RpcSnapshotSource::new();
    let a = LedgerKey::account(&[1u8; 32]);
    let value = encode_entry(&new_account(&[1u8; 32], 10, 1)).unwrap();
    src.apply_changes(&vec![change(&a, Some(value.clone()), Some(7))]).unwrap();
    assert!(matches!(src.get(&a).unwrap(), Lookup::Hit(Some(f)) if f.live_until == Some(7)));
    src.apply_changes(&vec![change(&a, Some(value), Some(8))]).unwrap();
    assert!(matches!(src.get(&a).unwrap(), Lookup::Hit(Some(f)) if f.live_until == Some(7)));
}

#[test]
fn unreadable_entries_are_reported() {
    let mut src = RpcSnapshotSource::new();
    let a = LedgerKey::account(&[1u8; 32]);
    src.apply_changes(&vec![change(&a, Some(vec![1, 2, 3]), None)]).unwrap();
    assert!(matches!(src.get(&a), Err(ForkError::Xdr(_))));
    assert!(matches!(src.entries(), Err(ForkError::Xdr(_))));
}

#[test]
fn xdr_of_an_entry_reads_back_outside_too() {
    let line = new_trustline(
        &[7u8; 32],
        &TrustLineAsset::CreditAlphanum4 { code: *b"USDC", issuer: [9u8; 32] },
        33,
        4,
    );
    let bytes = encode_entry(&line).unwrap();
    let entry = xdr::LedgerEntry::from_xdr(&bytes, Limits::none()).unwrap();
    match entry.data {
        xdr::LedgerEntryData::Trustline(t) => {
            assert_eq!(t.balance, 33);
            assert_eq!(t.limit, i64::MAX);
            assert_eq!(t.flags, 1);
        }
        other => panic!("expected a trustline, got {other:?}"),
    }
}

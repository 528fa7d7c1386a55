use soroban_fork::duration::{Duration, MAX_NANOS};
use soroban_fork::error::ForkError;
use soroban_fork::rpc::{
    after_failure, backoff_delay, decode_entries, decode_entry, judge_status, key_batches, ledger_close_time,
    next_rng_u64, response_body_snippet, seed_rng, truncate_chars, EntryResult, JsonRpcResponse,
    NetworkMetadata, RetryDecision, RetryStep, RpcConfig,
};
use soroban_fork::ledger::{LedgerEntryData, LedgerKey};

#[test]
fn backoff_delay_doubles_each_attempt_within_jitter_window() {
    let base_millis = 100u64;
    let base = Duration::from_millis(base_millis);
    let mut state = seed_rng(Some(1_700_000_000_000_000_000));
    for attempt in 0u32..4 {
        let factor = 2u64.pow(attempt);
        let lower = Duration::from_millis(base_millis * factor);
        let upper = Duration::from_millis(base_millis * (factor + 1));
        for _ in 0..32 {
            state = next_rng_u64(state);
            let d = backoff_delay(base, attempt, state);
            assert!(
                d >= lower && d < upper,
                "attempt {attempt}: {d:?} not in [{lower:?}, {upper:?})"
            );
        }
    }
}

#[test]
fn backoff_delay_saturates_on_absurd_attempt() {
    let base = Duration::from_secs(1);
    let d = backoff_delay(base, 100, 7);
    assert!(d >= base);
}

#[test]
fn backoff_delay_zero_base_is_zero() {
    assert_eq!(backoff_delay(Duration::zero(), 0, 5), Duration::zero());
    assert_eq!(backoff_delay(Duration::zero(), 5, 5), Duration::zero());
}

#[test]
fn truncate_chars_handles_multibyte_safely() {
    let s = "тест🚀тест";
    let out = truncate_chars(s, 5);
    assert!(out.ends_with('…'));
    assert_eq!(out.chars().count(), 6);
}

#[test]
fn truncate_chars_short_input_unchanged() {
    assert_eq!(truncate_chars("abc", 10), "abc");
    assert_eq!(truncate_chars("", 10), "");
}

#[test]
fn json_rpc_response_into_result_returns_result_when_ok() {
    let response: JsonRpcResponse<u32> = JsonRpcResponse { result: Some(42), error: None };
    assert_eq!(response.into_result().unwrap(), 42);
}

#[test]
fn json_rpc_response_into_result_propagates_error_field() {
    let response: JsonRpcResponse<u32> = JsonRpcResponse {
        result: None,
        error: Some("{\"code\":-32000,\"message\":\"boom\"}".to_string()),
    };
    let err = response.into_result().unwrap_err();
    assert!(matches!(err, ForkError::RpcError(_)));
}

#[test]
fn json_rpc_response_into_result_errors_when_no_result_no_error() {
    let response: JsonRpcResponse<u32> = JsonRpcResponse { result: None, error: None };
    let err = response.into_result().unwrap_err();
    assert!(matches!(err, ForkError::RpcNoResult));
}

#[test]
fn rpc_config_default_has_sensible_values() {
    let cfg = RpcConfig::default();
    assert!(cfg.retries >= 1);
    assert!(cfg.base_retry_delay >= Duration::from_millis(50));
    assert_eq!(cfg.max_keys_per_request, 200);
    assert!(cfg.request_timeout.is_some());
}

#[test]
fn backoff_delay_is_exact() {
    let base = Duration::from_millis(100);
    assert_eq!(backoff_delay(base, 3, 42), Duration::from_nanos(800_000_042));
    assert_eq!(backoff_delay(base, 0, 100_000_000), Duration::from_nanos(100_000_000));
    let longest = backoff_delay(Duration::from_secs(u64::MAX), 40, 9);
    assert_eq!(longest.as_nanos(), MAX_NANOS);
}

#[test]
fn generator_steps_as_marsaglia_wrote_it() {
    let x = 1u64;
    let a = x ^ (x << 13);
    let b = a ^ (a >> 7);
    assert_eq!(next_rng_u64(1), b ^ (b << 17));
    assert_eq!(seed_rng(None), 0xDEAD_BEEF_CAFE_BABE | 1);
    assert_eq!(seed_rng(Some(2)), 2u64.wrapping_mul(0x9E37_79B9_7F4A_7C15) | 1);
}

#[test]
fn retries_end_with_the_budget() {
    let cfg = RpcConfig::default();
    let mut waits = 0;
    for attempt in 0..=cfg.retries {
        let failure = RetryDecision::Retry(ForkError::Transport("down".to_string()));
        match after_failure(&cfg, attempt, failure, 1) {
            RetryStep::Wait(_) => waits += 1,
            RetryStep::GiveUp(e) => {
                assert_eq!(attempt, cfg.retries);
                assert_eq!(e, ForkError::Transport("down".to_string()));
            }
        }
    }
    assert_eq!(waits, cfg.retries);
    let fatal = RetryDecision::Fatal(ForkError::RpcNoResult);
    assert!(matches!(after_failure(&cfg, 0, fatal, 1), RetryStep::GiveUp(ForkError::RpcNoResult)));
}

#[test]
fn statuses_are_judged() {
    assert!(judge_status(200, "200 OK", None).is_none());
    for code in [408u16, 425, 429, 500, 503, 599] {
        assert!(matches!(judge_status(code, "x", None), Some(RetryDecision::Retry(_))));
    }
    for code in [301u16, 400, 404] {
        assert!(matches!(judge_status(code, "x", None), Some(RetryDecision::Fatal(_))));
    }
    match judge_status(404, "404 Not Found", Some("  gone \n")) {
        Some(RetryDecision::Fatal(e)) => {
            assert_eq!(e.to_text(), "RPC transport error: HTTP 404 Not Found: gone");
        }
        _ => panic!("expected a fatal failure"),
    }
}

#[test]
fn body_snippets() {
    assert_eq!(response_body_snippet(None), "<no body>");
    assert_eq!(response_body_snippet(Some("  \n ")), "<empty body>");
    assert_eq!(response_body_snippet(Some(" oops ")), "oops");
    let long = "x".repeat(300);
    let shown = response_body_snippet(Some(&long));
    assert_eq!(shown.chars().count(), 257);
}

#[test]
fn close_times_are_read() {
    assert_eq!(ledger_close_time(5, &vec!["1700000000".to_string()]).unwrap(), 1_700_000_000);
    let none = ledger_close_time(5, &vec![]).unwrap_err();
    assert_eq!(none, ForkError::RpcError("getLedgers returned no entry for 5".to_string()));
    let bad = ledger_close_time(5, &vec!["soon".to_string()]).unwrap_err();
    assert_eq!(
        bad.to_text(),
        "RPC returned error: getLedgers returned non-numeric ledgerCloseTime 'soon': \
         invalid digit found in string"
    );
}

#[test]
fn network_id_is_the_digest_of_the_passphrase() {
    let n = NetworkMetadata::from_passphrase("Test SDF Network ; September 2015".to_string());
    assert_eq!(
        soroban_fork::text::hex_encode(&n.network_id),
        "cee0302d59844d32bdca915c8203dd44b33fbb7edc19051ea37abedf28ecd472"
    );
}

#[test]
fn batches_cover_all_keys_in_order() {
    let keys: Vec<LedgerKey> = (0u8..5).map(|i| LedgerKey::account(&[i; 32])).collect();
    let batches = key_batches(&keys, 2);
    assert_eq!(batches.len(), 3);
    assert_eq!(batches[0].len(), 2);
    assert_eq!(batches[2].len(), 1);
    assert_eq!(batches[0][0], "A".repeat(54) + "==");
    assert!(key_batches(&[], 200).is_empty());
}

#[test]
fn wire_entries_are_decoded() {
    let bad64 = EntryResult { xdr: "***".to_string(), last_modified_ledger_seq: 1, live_until_ledger_seq: None };
    assert!(matches!(decode_entry(&bad64), Err(ForkError::Base64(_))));
    let badxdr = EntryResult { xdr: "AAAA".to_string(), last_modified_ledger_seq: 1, live_until_ledger_seq: None };
    match decode_entry(&badxdr) {
        Err(ForkError::Xdr(m)) => assert!(m.starts_with("decode LedgerEntryData: ")),
        other => panic!("expected an XDR error, got {other:?}"),
    }
    // ConfigSetting(ContractMaxSizeBytes(65536)): types 8 and 0, then the value.
    let ok = EntryResult {
        xdr: "AAAACAAAAAAAAQAA".to_string(),
        last_modified_ledger_seq: 9,
        live_until_ledger_seq: Some(77),
    };
    let fetched = decode_entry(&ok).unwrap();
    assert_eq!(fetched.live_until, Some(77));
    assert_eq!(fetched.entry.last_modified_ledger_seq, 9);
    assert_eq!(fetched.entry.ext, vec![0, 0, 0, 0]);
    assert_eq!(
        fetched.entry.data,
        LedgerEntryData::Other(vec![0, 0, 0, 8, 0, 0, 0, 0, 0, 1, 0, 0])
    );
}

#[test]
fn answers_are_decoded_up_to_the_first_bad_entry() {
    let wire = |xdr: &str, last_modified_ledger_seq: u32| EntryResult {
        xdr: xdr.to_string(),
        last_modified_ledger_seq,
        live_until_ledger_seq: None,
    };
    // ConfigSetting(ContractMaxSizeBytes(65536)): types 8 and 0, then the value.
    let good = "AAAACAAAAAAAAQAA";

    let found = decode_entries(&vec![wire(good, 3), wire(good, 4)]).unwrap();
    let ledgers: Vec<u32> = found.iter().map(|f| f.entry.last_modified_ledger_seq).collect();
    assert_eq!(ledgers, vec![3, 4]);
    assert!(decode_entries(&Vec::new()).unwrap().is_empty());

    let mixed = vec![wire(good, 3), wire("AAAA", 4), wire("***", 5)];
    assert!(matches!(decode_entries(&mixed), Err(ForkError::Xdr(_))));
    let mixed = vec![wire(good, 3), wire("***", 4), wire("AAAA", 5)];
    assert!(matches!(decode_entries(&mixed), Err(ForkError::Base64(_))));
}

#[test]
fn white_space_of_every_kind_is_trimmed() {
    let white = "\t\n\u{b}\u{c}\r \u{85}\u{a0}\u{1680}\u{2000}\u{200a}\u{2028}\u{2029}\u{202f}\u{205f}\u{3000}";
    let body = format!("{white}a b\u{200b}{white}");
    assert_eq!(response_body_snippet(Some(body.as_str())), "a b\u{200b}");
    assert_eq!(response_body_snippet(Some(white)), "<empty body>");
}

use soroban_fork::render::{
    abbreviate_strkey, i128_from_pieces, i128_to_pieces, render_address, render_bytes, render_scval,
    u128_from_pieces,
};
use soroban_fork::scval::{ScAddress, ScMapEntry, ScVal};
use soroban_fork::trace::{EventKind, HostEvent, Trace, TraceFrame, TraceResult, INDENT};

use soroban_env_host::xdr;
use soroban_env_host::xdr::{Limits, WriteXdr};

fn sym(s: &str) -> ScVal {
    ScVal::Symbol(s.as_bytes().to_vec())
}

fn i128_val(v: i128) -> ScVal {
    ScVal::I128 { hi: (v >> 64) as i64, lo: v as u64 }
}

fn bytes32(b: [u8; 32]) -> ScVal {
    ScVal::Bytes(b.to_vec())
}

fn make_event(topics: Vec<ScVal>, data: ScVal, failed_call: bool) -> HostEvent {
    HostEvent { kind: EventKind::Diagnostic, topics, data, failed_call }
}

fn fn_call(callee: [u8; 32], func: &str, data: ScVal, failed: bool) -> HostEvent {
    make_event(vec![sym("fn_call"), bytes32(callee), sym(func)], data, failed)
}

fn fn_return(func: &str, value: ScVal, failed: bool) -> HostEvent {
    make_event(vec![sym("fn_return"), sym(func)], value, failed)
}

const C1: [u8; 32] = [1u8; 32];
const C2: [u8; 32] = [2u8; 32];
const C3: [u8; 32] = [3u8; 32];

#[test]
fn empty_event_stream_yields_empty_trace() {
    let trace = Trace::from_events(&[]);
    assert!(trace.roots.is_empty());
    assert_eq!(trace.frame_count(), 0);
    assert!(!trace.had_failures());
}

#[test]
fn single_call_returns_one_root() {
    let trace = Trace::from_events(&[
        fn_call(C1, "balance", ScVal::Void, false),
        fn_return("balance", i128_val(42), false),
    ]);
    assert_eq!(trace.roots.len(), 1);
    let root = &trace.roots[0];
    assert_eq!(root.function, "balance");
    assert!(matches!(&root.result, TraceResult::Returned(ScVal::I128 { .. })));
    assert!(!root.rolled_back);
    assert!(root.children.is_empty());
    assert_eq!(trace.frame_count(), 1);
    assert!(!trace.had_failures());
}

#[test]
fn nested_call_becomes_child() {
    let trace = Trace::from_events(&[
        fn_call(C1, "deposit", ScVal::U32(100), false),
        fn_call(C2, "transfer", ScVal::U32(100), false),
        fn_return("transfer", ScVal::Void, false),
        fn_return("deposit", ScVal::U32(100), false),
    ]);
    assert_eq!(trace.roots.len(), 1);
    assert_eq!(trace.roots[0].function, "deposit");
    assert_eq!(trace.roots[0].children.len(), 1);
    assert_eq!(trace.roots[0].children[0].function, "transfer");
    assert_eq!(trace.frame_count(), 2);
}

#[test]
fn three_level_nesting_preserves_order() {
    let trace = Trace::from_events(&[
        fn_call(C1, "a", ScVal::Void, false),
        fn_call(C2, "b", ScVal::Void, false),
        fn_call(C3, "c", ScVal::Void, false),
        fn_return("c", ScVal::Void, false),
        fn_return("b", ScVal::Void, false),
        fn_return("a", ScVal::Void, false),
    ]);
    let a = &trace.roots[0];
    assert_eq!(a.function, "a");
    let b = &a.children[0];
    assert_eq!(b.function, "b");
    let c = &b.children[0];
    assert_eq!(c.function, "c");
    assert_eq!(c.contract, C3);
    assert!(c.children.is_empty());
}

#[test]
fn sibling_calls_at_same_depth() {
    let trace = Trace::from_events(&[
        fn_call(C1, "root", ScVal::Void, false),
        fn_call(C2, "first", ScVal::Void, false),
        fn_return("first", ScVal::Void, false),
        fn_call(C3, "second", ScVal::Void, false),
        fn_return("second", ScVal::Void, false),
        fn_return("root", ScVal::Void, false),
    ]);
    assert_eq!(trace.roots[0].children.len(), 2);
    assert_eq!(trace.roots[0].children[0].function, "first");
    assert_eq!(trace.roots[0].children[1].function, "second");
}

#[test]
fn trapped_frame_is_emitted_on_missing_return() {
    let trace = Trace::from_events(&[fn_call(C1, "panicking", ScVal::Void, false)]);
    assert_eq!(trace.roots.len(), 1);
    assert!(matches!(trace.roots[0].result, TraceResult::Trapped));
    assert!(trace.roots[0].rolled_back);
    assert!(trace.had_failures());
}

#[test]
fn rolled_back_frame_keeps_return_value() {
    let trace = Trace::from_events(&[
        fn_call(C1, "child", ScVal::Void, false),
        fn_return("child", ScVal::U32(7), true),
    ]);
    assert_eq!(trace.roots.len(), 1);
    assert!(matches!(&trace.roots[0].result, TraceResult::Returned(ScVal::U32(7))));
    assert!(trace.roots[0].rolled_back);
    assert!(trace.had_failures());
}

#[test]
fn orphan_return_is_skipped_not_panic() {
    let trace = Trace::from_events(&[fn_return("lonely", ScVal::Void, false)]);
    assert!(trace.roots.is_empty());
}

#[test]
fn malformed_fn_call_is_skipped() {
    let trace = Trace::from_events(&[make_event(
        vec![sym("fn_call"), bytes32(C1)],
        ScVal::Void,
        false,
    )]);
    assert!(trace.roots.is_empty());
}

#[test]
fn non_diagnostic_events_are_ignored() {
    let mut he = make_event(vec![sym("fn_call"), bytes32(C1), sym("evil")], ScVal::Void, false);
    he.kind = EventKind::Contract;
    let trace = Trace::from_events(&[he]);
    assert!(trace.roots.is_empty());
}

#[test]
fn multi_arg_data_is_unwrapped() {
    let args_vec = ScVal::Vec(Some(vec![ScVal::U32(1), ScVal::U32(2), ScVal::U32(3)]));
    let trace = Trace::from_events(&[
        fn_call(C1, "f", args_vec, false),
        fn_return("f", ScVal::Void, false),
    ]);
    assert_eq!(trace.roots[0].args.len(), 3);
}

#[test]
fn single_arg_data_is_one_arg() {
    let trace = Trace::from_events(&[
        fn_call(C1, "f", ScVal::U32(99), false),
        fn_return("f", ScVal::Void, false),
    ]);
    assert_eq!(trace.roots[0].args, vec![ScVal::U32(99)]);
}

#[test]
fn zero_arg_data_is_no_args() {
    let trace = Trace::from_events(&[
        fn_call(C1, "f", ScVal::Void, false),
        fn_return("f", ScVal::Void, false),
    ]);
    assert!(trace.roots[0].args.is_empty());
}

#[test]
fn display_empty_trace_is_explicit() {
    let trace = Trace::default();
    let s = trace.to_text();
    assert!(s.contains("empty"), "empty trace should explain why: {s:?}");
}

#[test]
fn display_simple_trace_renders_function_and_return() {
    let trace = Trace::from_events(&[
        fn_call(C1, "balance", ScVal::Void, false),
        fn_return("balance", i128_val(42), false),
    ]);
    let s = trace.to_text();
    assert!(s.contains("[TRACE]"));
    assert!(s.contains("balance"));
    assert!(s.contains("42"));
}

#[test]
fn display_marks_rolled_back_frames() {
    let trace = Trace::from_events(&[
        fn_call(C1, "child", ScVal::Void, false),
        fn_return("child", ScVal::Void, true),
    ]);
    let s = trace.to_text();
    assert!(s.contains("rolled back"), "rolled-back frame should be tagged: {s:?}");
}

#[test]
fn display_marks_trapped_frames() {
    let trace = Trace::from_events(&[fn_call(C1, "boom", ScVal::Void, false)]);
    let s = trace.to_text();
    assert!(s.contains("TRAPPED"), "trapped frame should be tagged: {s:?}");
}

#[test]
fn a_whole_trace_is_rendered_line_by_line() {
    let trace = Trace::from_events(&[
        fn_call(C1, "deposit", ScVal::Vec(Some(vec![ScVal::U32(1), sym("x")])), false),
        fn_call(C2, "transfer", ScVal::U32(100), false),
        fn_return("transfer", ScVal::Bool(true), false),
        fn_return("deposit", ScVal::Void, false),
    ]);
    let full1 = stellar_strkey::Contract(C1).to_string().as_str().to_string();
    let full2 = stellar_strkey::Contract(C2).to_string().as_str().to_string();
    let short1 = format!("{}\u{2026}{}", &full1[..4], &full1[52..]);
    let short2 = format!("{}\u{2026}{}", &full2[..4], &full2[52..]);
    assert_eq!(
        trace.to_text(),
        format!(
            "[TRACE]\n{INDENT}[{short1}] deposit(1, x)\n{INDENT}{INDENT}[{short2}] transfer(100)\n\
             {INDENT}{INDENT}{INDENT}\u{2190} true\n{INDENT}{INDENT}\u{2190} ()\n"
        )
    );
}

#[test]
fn a_trace_can_be_cloned() {
    let entry = ScMapEntry { key: sym("k"), val: ScVal::Address(ScAddress::Contract(C3)) };
    let trace = Trace::from_events(&[
        fn_call(C1, "outer", ScVal::ScMap(Some(vec![entry])), false),
        fn_call(C2, "inner", ScVal::Vec(Some(vec![ScVal::U32(1), ScVal::I64(-2)])), false),
        fn_return("inner", ScVal::Bool(true), true),
    ]);
    assert_eq!(trace.clone(), trace);
    assert_eq!(trace.roots[0].clone(), trace.roots[0]);
    assert_eq!(trace.roots[0].args[0].clone(), trace.roots[0].args[0]);
}

#[test]
fn traced_integers_keep_their_types() {
    let numbers = || {
        vec![
            ScVal::U32(7),
            ScVal::I32(7),
            ScVal::U64(7),
            ScVal::I64(7),
            ScVal::U128 { hi: 0, lo: 7 },
            ScVal::I128 { hi: 0, lo: 7 },
        ]
    };
    for value in numbers() {
        let trace = Trace::from_events(&[
            fn_call(C1, "f", ScVal::Vec(Some(numbers())), false),
            fn_return("f", value.copied(), false),
        ]);
        assert_eq!(trace.roots[0].args, numbers());
        assert_eq!(trace.roots[0].result, TraceResult::Returned(value));
    }
}

#[test]
fn walking_the_tree_lists_the_calls_in_order() {
    fn walk(frames: &[TraceFrame], out: &mut Vec<(u8, String, Vec<ScVal>)>) {
        for frame in frames {
            let args = frame.args.iter().map(|a| a.copied()).collect();
            out.push((frame.contract[0], frame.function.clone(), args));
            walk(&frame.children, out);
        }
    }
    let trace = Trace::from_events(&[
        fn_return("orphan", ScVal::Void, false),
        fn_call(C1, "a", ScVal::U32(1), false),
        fn_call(C2, "b", ScVal::U64(2), false),
        make_event(vec![sym("fn_call"), sym("no id"), sym("x")], ScVal::Void, false),
        fn_return("b", ScVal::Void, false),
        fn_call(C3, "c", ScVal::Void, false),
        fn_return("c", ScVal::Void, false),
        fn_return("a", ScVal::Void, false),
        fn_call(C1, "d", ScVal::I32(3), false),
        fn_call(C2, "e", ScVal::Void, false),
    ]);
    let mut listed = Vec::new();
    walk(&trace.roots, &mut listed);
    let expected: Vec<(u8, String, Vec<ScVal>)> = vec![
        (1, "a".to_string(), vec![ScVal::U32(1)]),
        (2, "b".to_string(), vec![ScVal::U64(2)]),
        (3, "c".to_string(), vec![]),
        (1, "d".to_string(), vec![ScVal::I32(3)]),
        (2, "e".to_string(), vec![]),
    ];
    assert_eq!(listed, expected);
}

#[test]
fn failed_calls_show_in_any_position() {
    let trace = Trace::from_events(&[
        fn_call(C1, "outer", ScVal::Void, false),
        fn_call(C2, "inner", ScVal::Void, true),
        fn_return("inner", ScVal::Void, true),
        fn_return("outer", ScVal::Void, false),
    ]);
    assert!(!trace.roots[0].rolled_back);
    assert!(trace.roots[0].children[0].rolled_back);
    assert!(trace.had_failures());
}

#[test]
fn other_events_between_calls_make_no_difference() {
    let noise = || HostEvent {
        kind: EventKind::Contract,
        topics: vec![sym("transfer")],
        data: ScVal::U32(1),
        failed_call: false,
    };
    let plain = Trace::from_events(&[
        fn_call(C1, "a", ScVal::Void, false),
        fn_return("a", ScVal::U32(5), false),
    ]);
    let noisy = Trace::from_events(&[
        noise(),
        fn_call(C1, "a", ScVal::Void, false),
        noise(),
        make_event(vec![sym("core_metrics")], ScVal::Void, false),
        fn_return("a", ScVal::U32(5), false),
        noise(),
    ]);
    assert_eq!(plain, noisy);
}

#[test]
fn a_trapped_call_swallows_the_calls_around_it() {
    let trace = Trace::from_events(&[
        fn_call(C1, "outer", ScVal::Void, true),
        fn_call(C2, "inner", ScVal::Void, true),
    ]);
    assert_eq!(trace.roots.len(), 1);
    assert!(matches!(trace.roots[0].result, TraceResult::Trapped));
    assert_eq!(trace.roots[0].children.len(), 1);
    assert!(matches!(trace.roots[0].children[0].result, TraceResult::Trapped));
    assert_eq!(trace.frame_count(), 2);
}

#[test]
fn renders_primitives_compactly() {
    assert_eq!(render_scval(&ScVal::Void), "()");
    assert_eq!(render_scval(&ScVal::Bool(true)), "true");
    assert_eq!(render_scval(&ScVal::U32(42)), "42");
    assert_eq!(render_scval(&ScVal::I32(-7)), "-7");
    assert_eq!(render_scval(&ScVal::U64(123_456)), "123456");
}

#[test]
fn renders_i128_correctly() {
    let v = i128_val(-1_000_000_000_000);
    assert_eq!(render_scval(&v), "-1000000000000");
}

#[test]
fn renders_short_bytes_as_full_hex() {
    let b = ScVal::Bytes(vec![0xde, 0xad, 0xbe, 0xef]);
    assert_eq!(render_scval(&b), "0xdeadbeef");
}

#[test]
fn renders_long_bytes_with_preview() {
    let b = ScVal::Bytes(vec![0xab; 64]);
    let s = render_scval(&b);
    assert!(s.starts_with("0xabababababababab"));
    assert!(s.contains("64 bytes"));
    assert_eq!(render_bytes(&[0xab; 64]), s);
}

#[test]
fn renders_symbol_as_text() {
    assert_eq!(render_scval(&sym("transfer")), "transfer");
}

#[test]
fn renders_vec_with_commas() {
    let v = ScVal::Vec(Some(vec![ScVal::U32(1), ScVal::U32(2)]));
    assert_eq!(render_scval(&v), "[1, 2]");
}

#[test]
fn renders_maps_strings_and_wide_numbers() {
    let m = ScVal::ScMap(Some(vec![
        ScMapEntry { key: sym("a"), val: ScVal::I64(-5) },
        ScMapEntry { key: sym("b"), val: ScVal::U128 { hi: 1, lo: 0 } },
    ]));
    assert_eq!(render_scval(&m), "{a: -5, b: 18446744073709551616}");
    assert_eq!(render_scval(&ScVal::Vec(Some(vec![]))), "[]");
    assert_eq!(render_scval(&ScVal::Vec(None)), "[]");
    assert_eq!(render_scval(&ScVal::ScMap(None)), "{}");
    assert_eq!(render_scval(&ScVal::String(b"hi".to_vec())), "\"hi\"");
    assert_eq!(render_scval(&ScVal::String(vec![0xFF])), "String(<non-utf8>)");
    assert_eq!(render_scval(&ScVal::Symbol(vec![0xFF])), "Symbol(<non-utf8>)");
}

#[test]
fn renders_other_values_by_their_debug_form() {
    let v = xdr::ScVal::Timepoint(xdr::TimePoint(7));
    let x = v.to_xdr(Limits::none()).unwrap();
    assert_eq!(render_scval(&ScVal::Other(x)), format!("{v:?}"));
}

#[test]
fn renders_addresses_by_their_strkeys() {
    let account = stellar_strkey::ed25519::PublicKey([7u8; 32]).to_string().as_str().to_string();
    let contract = stellar_strkey::Contract([8u8; 32]).to_string().as_str().to_string();
    assert_eq!(
        render_address(&ScAddress::Account([7u8; 32])),
        format!("{}\u{2026}{}", &account[..4], &account[52..])
    );
    assert_eq!(
        render_address(&ScAddress::Contract([8u8; 32])),
        format!("{}\u{2026}{}", &contract[..4], &contract[52..])
    );
    let pool = xdr::ScAddress::LiquidityPool(xdr::PoolId(xdr::Hash([9u8; 32])));
    let x = pool.to_xdr(Limits::none()).unwrap();
    assert_eq!(render_address(&ScAddress::Other(x)), format!("{pool:?}"));
}

#[test]
fn abbreviate_strkey_short_unchanged() {
    assert_eq!(abbreviate_strkey("abc"), "abc");
}

#[test]
fn abbreviate_strkey_long_truncates_with_ellipsis() {
    let full = "GABCDEFGHIJKLMNOPQRSTUVWXYZ";
    let s = abbreviate_strkey(full);
    assert!(s.starts_with("GABC"));
    assert!(s.ends_with("XYZ"));
    assert!(s.contains('\u{2026}'));
}

#[test]
fn u128_from_pieces_roundtrip() {
    assert_eq!(u128_from_pieces(0, 0), 0);
    assert_eq!(u128_from_pieces(0, 42), 42);
    assert_eq!(u128_from_pieces(1, 0), 1u128 << 64);
    assert_eq!(u128_from_pieces(u64::MAX, u64::MAX), u128::MAX);
}

#[test]
fn i128_from_pieces_handles_negatives() {
    assert_eq!(i128_from_pieces(0, 0), 0);
    assert_eq!(i128_from_pieces(0, 42), 42);
    assert_eq!(i128_from_pieces(-1, u64::MAX), -1);
    assert_eq!(i128_from_pieces(-1, 0), i128::from(-1i64) << 64);
}

#[test]
fn splitting_a_number_undoes_joining_it() {
    for n in [0i128, 1, -1, i128::MAX, i128::MIN, 1 << 64, -(1 << 64), 123_456_789_012_345_678_901] {
        let (hi, lo) = i128_to_pieces(n);
        assert_eq!(i128_from_pieces(hi, lo), n);
        assert_eq!((hi, lo), ((n >> 64) as i64, n as u64));
    }
}

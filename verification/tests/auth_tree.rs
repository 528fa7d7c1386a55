use soroban_fork::auth_tree::{
    AuthTree, AuthorizedFunction, AuthorizedInvocation, RecordedAuthPayload,
};
use soroban_fork::scval::{ScAddress, ScVal};
use soroban_fork::trace::INDENT;

fn account_addr(byte: u8) -> ScAddress {
    ScAddress::Account([byte; 32])
}

fn contract_addr(byte: u8) -> ScAddress {
    ScAddress::Contract([byte; 32])
}

fn i128_val(v: i128) -> ScVal {
    ScVal::I128 { hi: (v >> 64) as i64, lo: v as u64 }
}

fn invoke(contract: ScAddress, function: &str, args: Vec<ScVal>) -> AuthorizedInvocation {
    invoke_with_subs(contract, function, args, vec![])
}

fn invoke_with_subs(
    contract: ScAddress,
    function: &str,
    args: Vec<ScVal>,
    subs: Vec<AuthorizedInvocation>,
) -> AuthorizedInvocation {
    AuthorizedInvocation {
        function: AuthorizedFunction::ContractFn {
            contract_address: contract,
            function_name: function.as_bytes().to_vec(),
            args,
        },
        sub_invocations: subs,
    }
}

#[test]
fn empty_tree_renders_explanatory_text() {
    let tree = AuthTree::from_payloads(vec![]);
    let out = tree.to_text();
    assert!(out.starts_with("[AUTH] (empty"));
    assert!(tree.is_empty());
    assert_eq!(tree.payload_count(), 0);
    assert_eq!(tree.invocation_count(), 0);
}

#[test]
fn single_payload_with_explicit_signer_and_nonce() {
    let payload = RecordedAuthPayload {
        address: Some(account_addr(0xAA)),
        nonce: Some(12345),
        invocation: invoke(contract_addr(0xCC), "deposit", vec![i128_val(1_000_000)]),
    };
    let tree = AuthTree::from_payloads(vec![payload]);
    let out = tree.to_text();

    assert!(out.contains("[AUTH]"));
    assert!(out.contains("payload #0"));
    assert!(out.contains("signer="));
    assert!(out.contains("nonce=12345"));
    assert!(out.contains("deposit(1000000)"));
    assert_eq!(tree.payload_count(), 1);
    assert_eq!(tree.invocation_count(), 1);
}

#[test]
fn source_account_signer_renders_placeholder() {
    let payload = RecordedAuthPayload {
        address: None,
        nonce: None,
        invocation: invoke(contract_addr(0xCC), "submit", vec![]),
    };
    let tree = AuthTree::from_payloads(vec![payload]);
    let out = tree.to_text();
    assert!(out.contains("signer=<source account>"));
    assert!(!out.contains("nonce="));
}

#[test]
fn nested_sub_invocations_indent_properly() {
    let inner = invoke(contract_addr(0xDD), "transfer_from", vec![i128_val(500)]);
    let outer = invoke_with_subs(contract_addr(0xCC), "deposit", vec![i128_val(500)], vec![inner]);
    let payload = RecordedAuthPayload {
        address: Some(account_addr(0xAA)),
        nonce: Some(1),
        invocation: outer,
    };
    let tree = AuthTree::from_payloads(vec![payload]);
    let out = tree.to_text();

    let outer_line = out.lines().find(|l| l.contains("deposit(")).expect("outer line present");
    let inner_line = out.lines().find(|l| l.contains("transfer_from(")).expect("inner line present");

    let outer_pad = outer_line.len() - outer_line.trim_start().len();
    let inner_pad = inner_line.len() - inner_line.trim_start().len();
    assert!(
        inner_pad > outer_pad,
        "inner frame ({inner_pad}) must be indented deeper than outer ({outer_pad})\n{out}"
    );
    assert_eq!(tree.invocation_count(), 2);
}

#[test]
fn multi_payload_numbering() {
    let p0 = RecordedAuthPayload {
        address: Some(account_addr(0xAA)),
        nonce: Some(1),
        invocation: invoke(contract_addr(0xCC), "alpha", vec![]),
    };
    let p1 = RecordedAuthPayload {
        address: Some(account_addr(0xBB)),
        nonce: Some(2),
        invocation: invoke(contract_addr(0xDD), "beta", vec![]),
    };
    let tree = AuthTree::from_payloads(vec![p0, p1]);
    let out = tree.to_text();
    assert!(out.contains("payload #0"));
    assert!(out.contains("payload #1"));
    assert!(out.contains("alpha("));
    assert!(out.contains("beta("));
    assert_eq!(tree.payload_count(), 2);
}

#[test]
fn invocation_count_is_recursive() {
    let leaf_a = invoke(contract_addr(0xEE), "burn", vec![]);
    let leaf_b = invoke(contract_addr(0xFF), "mint", vec![]);
    let mid = invoke_with_subs(contract_addr(0xDD), "transfer", vec![], vec![leaf_a, leaf_b]);
    let root = invoke_with_subs(contract_addr(0xCC), "deposit", vec![], vec![mid]);
    let payload = RecordedAuthPayload {
        address: Some(account_addr(0xAA)),
        nonce: Some(1),
        invocation: root,
    };
    let tree = AuthTree::from_payloads(vec![payload]);
    assert_eq!(tree.invocation_count(), 4);
}

#[test]
fn contract_creation_is_named_and_counted() {
    let payload = |function: AuthorizedFunction| RecordedAuthPayload {
        address: None,
        nonce: None,
        invocation: AuthorizedInvocation { function, sub_invocations: vec![] },
    };
    let tree = AuthTree::from_payloads(vec![
        payload(AuthorizedFunction::CreateContractHostFn),
        payload(AuthorizedFunction::CreateContractV2HostFn),
    ]);
    assert!(!tree.is_empty());
    assert_eq!(tree.invocation_count(), 2);
    let out = tree.to_text();
    assert_eq!(out.lines().filter(|l| l.contains("create")).count(), 2);
}

#[test]
fn a_whole_tree_is_rendered_line_by_line() {
    let full = stellar_strkey::Contract([0xCC; 32]).to_string().as_str().to_string();
    let short = format!("{}\u{2026}{}", &full[..4], &full[52..]);
    let sub = AuthorizedInvocation {
        function: AuthorizedFunction::CreateContractHostFn,
        sub_invocations: vec![],
    };
    let payload = RecordedAuthPayload {
        address: None,
        nonce: Some(-3),
        invocation: invoke_with_subs(
            contract_addr(0xCC),
            "f",
            vec![ScVal::U32(1), ScVal::Bool(false)],
            vec![sub],
        ),
    };
    let bad_name = RecordedAuthPayload {
        address: None,
        nonce: None,
        invocation: AuthorizedInvocation {
            function: AuthorizedFunction::ContractFn {
                contract_address: contract_addr(0xCC),
                function_name: vec![0xFF],
                args: vec![],
            },
            sub_invocations: vec![],
        },
    };
    let tree = AuthTree::from_payloads(vec![payload, bad_name]);
    assert_eq!(
        tree.to_text(),
        format!(
            "[AUTH]\n{INDENT}payload #0  signer=<source account>  nonce=-3\n\
             {INDENT}{INDENT}[{short}] f(1, false)\n{INDENT}{INDENT}{INDENT}<create_contract>\n\
             {INDENT}payload #1  signer=<source account>\n{INDENT}{INDENT}[{short}] <non-utf8>()\n"
        )
    );
}

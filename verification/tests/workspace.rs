use soroban_fork::error::ForkError;
use soroban_fork::workspace::{
    extract_target_dir, parse_metadata, require_workspace_member, wasm_file_name, workspace_wasm,
    workspace_wasm_in, workspace_wasm_with, CargoMetadata, CommandOutcome, WasmBuild,
};

fn metadata_with(members: &[(&str, &str)]) -> CargoMetadata {
    let ids: Vec<String> = members.iter().map(|(id, _)| format!("\"{id}\"")).collect();
    let packages: Vec<String> = members
        .iter()
        .map(|(id, name)| format!("{{\"id\":\"{id}\",\"name\":\"{name}\"}}"))
        .collect();
    let doc = format!(
        "{{\"workspace_members\":[{}],\"packages\":[{}]}}",
        ids.join(","),
        packages.join(",")
    );
    parse_metadata(doc.as_bytes()).unwrap()
}

#[test]
fn member_check_accepts_old_cargo_id_format() {
    let metadata = metadata_with(&[
        ("foo 0.1.0 (path+file:///tmp/foo)", "foo"),
        ("bar-baz 0.2.0 (path+file:///tmp/bar-baz)", "bar-baz"),
    ]);
    assert!(require_workspace_member(&metadata, "foo").is_ok());
    assert!(require_workspace_member(&metadata, "bar-baz").is_ok());
}

#[test]
fn member_check_accepts_new_cargo_id_format_with_name() {
    let metadata = metadata_with(&[("path+file:///tmp/aliased-dir#real-name@0.1.0", "real-name")]);
    assert!(require_workspace_member(&metadata, "real-name").is_ok());
}

#[test]
fn member_check_accepts_new_cargo_id_format_name_dropped() {
    let metadata = metadata_with(&[(
        "path+file:///tmp/sfork-smoke/demo_contract#0.0.1",
        "demo_contract",
    )]);
    assert!(require_workspace_member(&metadata, "demo_contract").is_ok());
}

#[test]
fn member_check_rejects_unknown_member() {
    let metadata = metadata_with(&[("path+file:///tmp/foo#foo@0.1.0", "foo")]);
    let err = require_workspace_member(&metadata, "bar").unwrap_err();
    assert!(err.to_text().contains("bar is not a workspace member"));
    assert!(err.to_text().contains("foo"));
}

#[test]
fn member_check_does_not_match_substring_of_member_name() {
    let metadata = metadata_with(&[("path+file:///tmp/foobar#foobar@0.1.0", "foobar")]);
    assert!(require_workspace_member(&metadata, "foo").is_err());
}

#[test]
fn member_check_errors_when_workspace_members_missing() {
    let metadata = parse_metadata(b"{}").unwrap();
    let err = require_workspace_member(&metadata, "foo").unwrap_err();
    assert!(err.to_text().contains("missing `workspace_members`"));
}

#[test]
fn member_check_errors_when_packages_missing() {
    let metadata =
        parse_metadata(b"{\"workspace_members\":[\"path+file:///tmp/foo#foo@0.1.0\"]}").unwrap();
    let err = require_workspace_member(&metadata, "foo").unwrap_err();
    assert!(err.to_text().contains("missing `packages`"));
}

#[test]
fn member_check_ignores_non_workspace_packages() {
    let doc = "{\"workspace_members\":[\"path+file:///tmp/local#local@0.1.0\"],\"packages\":[\
        {\"id\":\"path+file:///tmp/local#local@0.1.0\",\"name\":\"local\"},\
        {\"id\":\"registry+https://crates.io#serde@1.0.0\",\"name\":\"serde\"}]}";
    let metadata = parse_metadata(doc.as_bytes()).unwrap();
    assert!(require_workspace_member(&metadata, "local").is_ok());
    assert!(require_workspace_member(&metadata, "serde").is_err());
}

#[test]
fn target_dir_extracted_from_metadata() {
    let metadata = parse_metadata(b"{\"target_directory\":\"/tmp/target\"}").unwrap();
    assert_eq!(extract_target_dir(&metadata).unwrap(), "/tmp/target");
}

#[test]
fn target_dir_errors_on_missing() {
    let metadata = parse_metadata(b"{}").unwrap();
    let err = extract_target_dir(&metadata).unwrap_err();
    assert!(err.to_text().contains("missing `target_directory`"));
}

#[test]
fn metadata_that_is_no_json_is_refused() {
    match parse_metadata(b"{not json") {
        Err(ForkError::Workspace(m)) => assert!(m.starts_with("parsing cargo metadata JSON: ")),
        other => panic!("expected a workspace error, got {other:?}"),
    }
}

#[test]
fn items_of_other_shapes_are_passed_over() {
    let doc = "{\"workspace_members\":[1,\"a\",null],\"packages\":[{\"id\":\"a\"},\"x\",\
        {\"id\":\"a\",\"name\":\"first\"},{\"id\":\"a\",\"name\":\"second\"}]}";
    let metadata = parse_metadata(doc.as_bytes()).unwrap();
    assert_eq!(metadata.workspace_members, Some(vec!["a".to_string()]));
    let err = require_workspace_member(&metadata, "third").unwrap_err();
    assert!(err.to_text().ends_with(
        "third is not a workspace member. cargo metadata listed: [first, second]"
    ));
}

#[test]
fn a_build_is_planned_and_finished() {
    let build = workspace_wasm("my-contract");
    assert_eq!(build.target, "wasm32v1-none");
    assert_eq!(build.profile, "release");
    assert_eq!(WasmBuild::metadata_args(), vec!["metadata", "--no-deps", "--format-version=1"]);
    let doc = "{\"target_directory\":\"/t\",\"workspace_members\":[\"x\"],\
        \"packages\":[{\"id\":\"x\",\"name\":\"my-contract\"}]}";
    let plan = build
        .on_metadata(&CommandOutcome::Succeeded { stdout: doc.as_bytes().to_vec() })
        .unwrap();
    assert_eq!(
        plan.args,
        vec!["build", "-p", "my-contract", "--target", "wasm32v1-none", "--release"]
    );
    assert_eq!(plan.artifact, vec!["/t", "wasm32v1-none", "release", "my_contract.wasm"]);
    assert!(build.on_build(&CommandOutcome::Succeeded { stdout: vec![] }).is_ok());
}

#[test]
fn profiles_choose_their_directory() {
    let doc = "{\"target_directory\":\"/t\",\"workspace_members\":[\"x\"],\
        \"packages\":[{\"id\":\"x\",\"name\":\"my-contract\"}]}";
    let artifact = |profile: &str| {
        workspace_wasm_with("my-contract", "wasm32v1-none", profile)
            .on_metadata(&CommandOutcome::Succeeded { stdout: doc.as_bytes().to_vec() })
            .unwrap()
            .artifact
    };
    for (profile, dir) in [
        ("dev", "debug"),
        ("test", "debug"),
        ("release", "release"),
        ("bench", "release"),
        ("small", "small"),
    ] {
        assert_eq!(artifact(profile), vec!["/t", "wasm32v1-none", dir, "my_contract.wasm"]);
    }
}

#[test]
fn profiles_choose_their_arguments() {
    let dev = workspace_wasm_with("c", "t", "dev");
    assert_eq!(dev.build_args(), vec!["build", "-p", "c", "--target", "t"]);
    let custom = workspace_wasm_in(Some("/w"), "c", "t", "small");
    assert_eq!(custom.manifest_dir, Some("/w".to_string()));
    assert_eq!(
        custom.build_args(),
        vec!["build", "-p", "c", "--target", "t", "--profile", "small"]
    );
    assert_eq!(wasm_file_name("a-b-c"), "a_b_c.wasm");
}

#[test]
fn failed_commands_are_reported() {
    let b = workspace_wasm("c");
    let e = b.on_metadata(&CommandOutcome::NotStarted("no cargo".to_string())).unwrap_err();
    assert_eq!(e, ForkError::Workspace("failed to spawn `cargo metadata`: no cargo".to_string()));
    let failed = CommandOutcome::Failed { status: "101".to_string(), stderr: " bad \n".to_string() };
    let e = b.on_metadata(&failed).unwrap_err();
    assert_eq!(e, ForkError::Workspace("`cargo metadata` failed (exit 101):\nbad".to_string()));
    let e = b.on_build(&failed).unwrap_err();
    assert!(e.to_text().contains("`cargo build -p c --target wasm32v1-none` failed (exit 101)"));
    let e = b.on_build(&CommandOutcome::NotStarted("gone".to_string())).unwrap_err();
    assert!(e.to_text().contains("failed to spawn `cargo build`: gone"));
    let e = WasmBuild::unreadable_artifact("/t/x.wasm", "missing");
    assert!(e.to_text().contains("expected wasm output at /t/x.wasm"));
}

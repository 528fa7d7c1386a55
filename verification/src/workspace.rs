//! Building a contract of the surrounding workspace: which cargo commands to
//! run, what to make of their answers, and where the WASM ends up. Running
//! the commands and reading the file is left to the caller.

use vstd::prelude::*;

use crate::error::{ErrorView, ForkError};
use crate::text::{join2, join4, join5, joined, same_text, trimmed, trimmed_of};

verus! {

/// The target that Soroban contracts are built for.
pub const DEFAULT_TARGET: &'static str = "wasm32v1-none";

/// The profile that contracts are built with.
pub const DEFAULT_PROFILE: &'static str = "release";

// ---------------------------------------------------------------------------
// JSON
// ---------------------------------------------------------------------------

/// The message with which serde_json refuses a document; nothing where it is
/// valid JSON.
pub uninterp spec fn json_error_of(doc: Seq<u8>) -> Option<Seq<char>>;

/// The string that a JSON document is.
pub uninterp spec fn json_string_of(doc: Seq<u8>) -> Option<Seq<char>>;

/// The string that a JSON object holds under a name.
pub uninterp spec fn json_string_field_of(doc: Seq<u8>, name: Seq<char>) -> Option<Seq<char>>;

/// The items of the array that a JSON object holds under a name, each as a
/// JSON document of its own.
pub uninterp spec fn json_array_field_of(doc: Seq<u8>, name: Seq<char>) -> Option<Seq<Seq<u8>>>;

/// The view of an optional text.
pub open spec fn string_option(s: Option<String>) -> Option<Seq<char>> {
    match s {
        Some(t) => Some(t@),
        None => None,
    }
}

/// The views of some documents.
pub open spec fn docs(items: Seq<Vec<u8>>) -> Seq<Seq<u8>> {
    items.map_values(|d: Vec<u8>| d@)
}

/// Parses a document with `serde_json::from_slice` and gives the message of
/// the error, if there is one.
#[verifier::external_body]
fn json_error(doc: &[u8]) -> (r: Option<String>)
    ensures
        string_option(r) == json_error_of(doc@),
{
    serde_json::from_slice::<serde_json::Value>(doc).err().map(|e| e.to_string())
}

/// Parses a document with `serde_json::from_slice` and calls `as_str`.
#[verifier::external_body]
fn json_string(doc: &[u8]) -> (r: Option<String>)
    ensures
        string_option(r) == json_string_of(doc@),
{
    serde_json::from_slice::<serde_json::Value>(doc).ok()?.as_str().map(|s| s.to_string())
}

/// Parses a document with `serde_json::from_slice`, looks a name up, and
/// calls `as_str`.
#[verifier::external_body]
fn json_string_field(doc: &[u8], name: &str) -> (r: Option<String>)
    ensures
        string_option(r) == json_string_field_of(doc@, name@),
{
    serde_json::from_slice::<serde_json::Value>(doc).ok()?.get(name)?.as_str().map(|s| s.to_string())
}

/// Parses a document with `serde_json::from_slice`, looks a name up, and
/// writes the items of the array found there as documents of their own.
#[verifier::external_body]
fn json_array_field(doc: &[u8], name: &str) -> (r: Option<Vec<Vec<u8>>>)
    ensures
        (match r {
            Some(items) => json_array_field_of(doc@, name@) == Some(docs(items@)),
            None => json_array_field_of(doc@, name@) is None,
        }),
{
    let doc = serde_json::from_slice::<serde_json::Value>(doc).ok()?;
    Some(doc.get(name)?.as_array()?.iter().map(|item| item.to_string().into_bytes()).collect())
}

// ---------------------------------------------------------------------------
// Metadata
// ---------------------------------------------------------------------------

/// A package as cargo describes it.
#[derive(Debug, PartialEq, Eq)]
pub struct Package {
    pub id: Option<String>,
    pub name: Option<String>,
}

/// The part of cargo's metadata that a build needs. A field that the answer
/// lacks, or that has another shape, is absent.
#[derive(Debug, PartialEq, Eq)]
pub struct CargoMetadata {
    pub target_directory: Option<String>,
    /// The ids of the workspace's own packages.
    pub workspace_members: Option<Vec<String>>,
    pub packages: Option<Vec<Package>>,
}

/// The content of a package.
#[verifier::ext_equal]
pub struct PackageView {
    pub id: Option<Seq<char>>,
    pub name: Option<Seq<char>>,
}

/// The content of the metadata.
#[verifier::ext_equal]
pub struct MetadataView {
    pub target_directory: Option<Seq<char>>,
    pub workspace_members: Option<Seq<Seq<char>>>,
    pub packages: Option<Seq<PackageView>>,
}

impl View for Package {
    type V = PackageView;

    open spec fn view(&self) -> PackageView {
        PackageView { id: string_option(self.id), name: string_option(self.name) }
    }
}

/// The contents of some texts.
pub open spec fn strings(v: Seq<String>) -> Seq<Seq<char>> {
    v.map_values(|s: String| s@)
}

/// The contents of some packages.
pub open spec fn packages_view(v: Seq<Package>) -> Seq<PackageView> {
    v.map_values(|p: Package| p@)
}

impl View for CargoMetadata {
    type V = MetadataView;

    open spec fn view(&self) -> MetadataView {
        MetadataView {
            target_directory: string_option(self.target_directory),
            workspace_members: match self.workspace_members {
                Some(m) => Some(strings(m@)),
                None => None,
            },
            packages: match self.packages {
                Some(p) => Some(packages_view(p@)),
                None => None,
            },
        }
    }
}

/// The strings among some documents, in order.
pub open spec fn string_items(items: Seq<Seq<u8>>) -> Seq<Seq<char>>
    decreases items.len(),
{
    if items.len() == 0 {
        Seq::empty()
    } else {
        let before = string_items(items.drop_last());
        match json_string_of(items.last()) {
            Some(s) => before.push(s),
            None => before,
        }
    }
}

/// The package that a document describes.
pub open spec fn package_of(doc: Seq<u8>) -> PackageView {
    PackageView {
        id: json_string_field_of(doc, "id"@),
        name: json_string_field_of(doc, "name"@),
    }
}

/// The metadata that a document describes.
pub open spec fn metadata_of(doc: Seq<u8>) -> MetadataView {
    MetadataView {
        target_directory: json_string_field_of(doc, "target_directory"@),
        workspace_members: match json_array_field_of(doc, "workspace_members"@) {
            Some(items) => Some(string_items(items)),
            None => None,
        },
        packages: match json_array_field_of(doc, "packages"@) {
            Some(items) => Some(items.map_values(|d: Seq<u8>| package_of(d))),
            None => None,
        },
    }
}

fn collect_strings(items: &Vec<Vec<u8>>) -> (r: Vec<String>)
    ensures
        strings(r@) == string_items(docs(items@)),
{
    let mut out: Vec<String> = Vec::new();
    let mut i: usize = 0;
    assert(docs(items@.take(0)) =~= Seq::<Seq<u8>>::empty());
    assert(strings(out@) =~= Seq::<Seq<char>>::empty());
    while i < items.len()
        invariant
            i <= items@.len(),
            strings(out@) == string_items(docs(items@.take(i as int))),
        decreases items@.len() - i,
    {
        let ghost before = strings(out@);
        assert(docs(items@.take(i + 1)).drop_last() =~= docs(items@.take(i as int)));
        match json_string(items[i].as_slice()) {
            Some(s) => {
                out.push(s);
                assert(strings(out@) =~= before.push(s@));
            },
            None => {},
        }
        i = i + 1;
    }
    assert(items@.take(i as int) =~= items@);
    out
}

fn collect_packages(items: &Vec<Vec<u8>>) -> (r: Vec<Package>)
    ensures
        packages_view(r@) == docs(items@).map_values(|d: Seq<u8>| package_of(d)),
{
    let mut out: Vec<Package> = Vec::new();
    let mut i: usize = 0;
    while i < items.len()
        invariant
            i <= items@.len(),
            out@.len() == i,
            forall|j: int| 0 <= j < i ==> (#[trigger] out@[j])@ == package_of(items@[j]@),
        decreases items@.len() - i,
    {
        let doc = items[i].as_slice();
        out.push(Package { id: json_string_field(doc, "id"), name: json_string_field(doc, "name") });
        i = i + 1;
    }
    assert(packages_view(out@) =~= docs(items@).map_values(|d: Seq<u8>| package_of(d)));
    out
}

/// Read cargo's answer to `cargo metadata`.
pub fn parse_metadata(stdout: &[u8]) -> (r: Result<CargoMetadata, ForkError>)
    ensures
        (match json_error_of(stdout@) {
            None => r matches Ok(m) && m@ == metadata_of(stdout@),
            Some(e) => r matches Err(f) && f@ == ErrorView::Workspace(
                "parsing cargo metadata JSON: "@ + e,
            ),
        }),
{
    match json_error(stdout) {
        Some(e) => Err(ForkError::Workspace(join2("parsing cargo metadata JSON: ", e.as_str()))),
        None => Ok(
            CargoMetadata {
                target_directory: json_string_field(stdout, "target_directory"),
                workspace_members: match json_array_field(stdout, "workspace_members") {
                    Some(items) => Some(collect_strings(&items)),
                    None => None,
                },
                packages: match json_array_field(stdout, "packages") {
                    Some(items) => Some(collect_packages(&items)),
                    None => None,
                },
            },
        ),
    }
}

/// The directory that builds go to.
pub fn extract_target_dir(metadata: &CargoMetadata) -> (r: Result<String, ForkError>)
    ensures
        (match metadata@.target_directory {
            Some(dir) => r matches Ok(s) && s@ == dir,
            None => r matches Err(e) && e@ == ErrorView::Workspace(
                "cargo metadata response missing `target_directory`"@,
            ),
        }),
{
    match &metadata.target_directory {
        Some(dir) => Ok(dir.as_str().to_owned()),
        None => Err(
            ForkError::Workspace("cargo metadata response missing `target_directory`".to_owned()),
        ),
    }
}

/// The names of the packages that belong to the workspace: those whose id is
/// among the members', in the order of the packages.
pub open spec fn workspace_names(members: Seq<Seq<char>>, packages: Seq<PackageView>) -> Seq<
    Seq<char>,
>
    decreases packages.len(),
{
    if packages.len() == 0 {
        Seq::empty()
    } else {
        let before = workspace_names(members, packages.drop_last());
        match packages.last() {
            PackageView { id: Some(id), name: Some(name) } => if members.contains(id) {
                before.push(name)
            } else {
                before
            },
            _ => before,
        }
    }
}

/// Whether a crate belongs to the workspace, or why not.
pub open spec fn membership(m: MetadataView, crate_name: Seq<char>) -> Result<(), ErrorView> {
    match (m.workspace_members, m.packages) {
        (None, _) => Err(
            ErrorView::Workspace("cargo metadata response missing `workspace_members`"@),
        ),
        (Some(_), None) => Err(
            ErrorView::Workspace("cargo metadata response missing `packages`"@),
        ),
        (Some(members), Some(packages)) => {
            let names = workspace_names(members, packages);
            if names.contains(crate_name) {
                Ok(())
            } else {
                Err(
                    ErrorView::Workspace(
                        crate_name + " is not a workspace member. cargo metadata listed: ["@
                            + joined(names, ", "@) + "]"@,
                    ),
                )
            }
        },
    }
}

/// Whether a text is among some texts.
fn contains_text(items: &Vec<String>, text: &str) -> (r: bool)
    ensures
        r == strings(items@).contains(text@),
{
    let mut i: usize = 0;
    while i < items.len()
        invariant
            i <= items@.len(),
            forall|j: int| 0 <= j < i ==> strings(items@)[j] != text@,
        decreases items@.len() - i,
    {
        if same_text(items[i].as_str(), text) {
            assert(strings(items@)[i as int] == text@);
            return true;
        }
        i = i + 1;
    }
    false
}

/// The texts in a row, with `sep` between neighbours.
pub fn join_texts(items: &Vec<String>, sep: &str) -> (r: String)
    ensures
        r@ == joined(strings(items@), sep@),
{
    let mut out = String::new();
    let mut i: usize = 0;
    assert(strings(items@.take(0)) =~= Seq::<Seq<char>>::empty());
    while i < items.len()
        invariant
            i <= items@.len(),
            out@ == joined(strings(items@.take(i as int)), sep@),
        decreases items@.len() - i,
    {
        if i > 0 {
            out.append(sep);
        }
        out.append(items[i].as_str());
        proof {
            crate::render::lemma_joined_push(strings(items@.take(i as int)), sep@, items@[i as int]@);
            assert(strings(items@.take(i + 1)) =~= strings(items@.take(i as int)).push(
                items@[i as int]@,
            ));
        }
        i = i + 1;
    }
    assert(items@.take(i as int) =~= items@);
    out
}

/// Check that a crate belongs to the workspace.
pub fn require_workspace_member(metadata: &CargoMetadata, crate_name: &str) -> (r: Result<
    (),
    ForkError,
>)
    ensures
        (match membership(metadata@, crate_name@) {
            Ok(_) => r is Ok,
            Err(e) => r matches Err(f) && f@ == e,
        }),
{
    let members = match &metadata.workspace_members {
        Some(m) => m,
        None => {
            return Err(
                ForkError::Workspace(
                    "cargo metadata response missing `workspace_members`".to_owned(),
                ),
            );
        },
    };
    let packages = match &metadata.packages {
        Some(p) => p,
        None => {
            return Err(
                ForkError::Workspace("cargo metadata response missing `packages`".to_owned()),
            );
        },
    };
    let mut names: Vec<String> = Vec::new();
    let mut i: usize = 0;
    let ghost all = packages_view(packages@);
    assert(all.take(0) =~= Seq::<PackageView>::empty());
    assert(strings(names@) =~= Seq::<Seq<char>>::empty());
    while i < packages.len()
        invariant
            i <= packages@.len(),
            all == packages_view(packages@),
            strings(names@) == workspace_names(strings(members@), all.take(i as int)),
        decreases packages@.len() - i,
    {
        let ghost before = strings(names@);
        assert(all.take(i + 1).drop_last() =~= all.take(i as int));
        match (&packages[i].id, &packages[i].name) {
            (Some(id), Some(name)) => {
                if contains_text(members, id.as_str()) {
                    names.push(name.as_str().to_owned());
                    assert(strings(names@) =~= before.push(name@));
                }
            },
            _ => {},
        }
        i = i + 1;
    }
    assert(all.take(i as int) =~= all);
    if contains_text(&names, crate_name) {
        return Ok(());
    }
    Err(
        ForkError::Workspace(
            join4(
                crate_name,
                " is not a workspace member. cargo metadata listed: [",
                join_texts(&names, ", ").as_str(),
                "]",
            ),
        ),
    )
}

// ---------------------------------------------------------------------------
// The build
// ---------------------------------------------------------------------------

/// A build that has been asked for.
#[derive(Debug, Clone, PartialEq, Eq)]
pub struct WasmBuild {
    /// The directory to run cargo in; none for the current one.
    pub manifest_dir: Option<String>,
    pub crate_name: String,
    pub target: String,
    pub profile: String,
}

/// How a command ended.
#[derive(Debug)]
pub enum CommandOutcome {
    /// It could not be started, for this reason.
    NotStarted(String),
    /// It ran and failed, with this status and these words on its error
    /// stream.
    Failed { status: String, stderr: String },
    /// It ran and succeeded, with this output.
    Succeeded { stdout: Vec<u8> },
}

/// A build that may go ahead.
#[derive(Debug, PartialEq, Eq)]
pub struct PlannedBuild {
    /// The arguments to run cargo with.
    pub args: Vec<String>,
    /// The path of the WASM, part by part.
    pub artifact: Vec<String>,
}

/// Build a workspace member for the default target and profile.
pub fn workspace_wasm(crate_name: &str) -> (r: WasmBuild)
    ensures
        r.manifest_dir is None,
        r.crate_name@ == crate_name@,
        r.target@ == DEFAULT_TARGET@,
        r.profile@ == DEFAULT_PROFILE@,
{
    workspace_wasm_in(None, crate_name, DEFAULT_TARGET, DEFAULT_PROFILE)
}

/// Build a workspace member for a given target and profile.
pub fn workspace_wasm_with(crate_name: &str, target: &str, profile: &str) -> (r: WasmBuild)
    ensures
        r.manifest_dir is None,
        r.crate_name@ == crate_name@,
        r.target@ == target@,
        r.profile@ == profile@,
{
    workspace_wasm_in(None, crate_name, target, profile)
}

/// Build a member of the workspace at `manifest_dir`, or of the one around
/// the current directory.
pub fn workspace_wasm_in(
    manifest_dir: Option<&str>,
    crate_name: &str,
    target: &str,
    profile: &str,
) -> (r: WasmBuild)
    ensures
        string_option(r.manifest_dir) == crate::rpc::text_option(manifest_dir),
        r.crate_name@ == crate_name@,
        r.target@ == target@,
        r.profile@ == profile@,
{
    WasmBuild {
        manifest_dir: match manifest_dir {
            Some(d) => Some(d.to_owned()),
            None => None,
        },
        crate_name: crate_name.to_owned(),
        target: target.to_owned(),
        profile: profile.to_owned(),
    }
}

/// A text with every `-` turned into `_`.
pub open spec fn underscored(s: Seq<char>) -> Seq<char> {
    s.map_values(
        |c: char|
            if c == '-' {
                '_'
            } else {
                c
            },
    )
}

/// The name of the file that a crate's WASM is written to.
pub fn wasm_file_name(crate_name: &str) -> (r: String)
    ensures
        r@ == underscored(crate_name@) + ".wasm"@,
{
    let n: usize = crate_name.unicode_len();
    let mut out = String::new();
    let mut i: usize = 0;
    while i < n
        invariant
            n == crate_name@.len(),
            i <= n,
            out@ == underscored(crate_name@.take(i as int)),
        decreases n - i,
    {
        let c = crate_name.get_char(i);
        out.push(if c == '-' {
            '_'
        } else {
            c
        });
        i = i + 1;
        assert(out@ =~= underscored(crate_name@.take(i as int)));
    }
    assert(crate_name@.take(i as int) =~= crate_name@);
    out.append(".wasm");
    out
}

/// The arguments that select a profile: `--release` for the release profile,
/// nothing for the default one, the profile's name for any other.
pub open spec fn profile_args(profile: Seq<char>) -> Seq<Seq<char>> {
    if profile == "release"@ {
        seq!["--release"@]
    } else if profile == "dev"@ {
        Seq::empty()
    } else {
        seq!["--profile"@, profile]
    }
}

/// The directory that cargo writes a profile's artifacts to: `dev` and `test`
/// share `debug`, `bench` shares `release`, and any other profile has its own.
pub open spec fn profile_dir(p: Seq<char>) -> Seq<char> {
    if p == "dev"@ || p == "test"@ {
        "debug"@
    } else if p == "bench"@ {
        "release"@
    } else {
        p
    }
}

fn profile_dir_name(profile: &str) -> (r: String)
    ensures
        r@ == profile_dir(profile@),
{
    if same_text(profile, "dev") || same_text(profile, "test") {
        "debug".to_owned()
    } else if same_text(profile, "bench") {
        "release".to_owned()
    } else {
        profile.to_owned()
    }
}

/// The arguments of the build command.
pub open spec fn build_args(crate_name: Seq<char>, target: Seq<char>, profile: Seq<char>) -> Seq<
    Seq<char>,
> {
    seq!["build"@, "-p"@, crate_name, "--target"@, target] + profile_args(profile)
}

/// What follows from the answer to the metadata command.
pub open spec fn planned(
    b: WasmBuild,
    doc: Seq<u8>,
) -> Result<(Seq<Seq<char>>, Seq<Seq<char>>), ErrorView> {
    match json_error_of(doc) {
        Some(e) => Err(ErrorView::Workspace("parsing cargo metadata JSON: "@ + e)),
        None => match metadata_of(doc).target_directory {
            None => Err(
                ErrorView::Workspace("cargo metadata response missing `target_directory`"@),
            ),
            Some(dir) => match membership(metadata_of(doc), b.crate_name@) {
                Err(e) => Err(e),
                Ok(_) => Ok(
                    (
                        build_args(b.crate_name@, b.target@, b.profile@),
                        seq![
                            dir,
                            b.target@,
                            profile_dir(b.profile@),
                            underscored(b.crate_name@) + ".wasm"@,
                        ],
                    ),
                ),
            },
        },
    }
}

impl WasmBuild {
    /// The arguments of the metadata command.
    pub fn metadata_args() -> (r: Vec<String>)
        ensures
            strings(r@) == seq!["metadata"@, "--no-deps"@, "--format-version=1"@],
    {
        let mut r: Vec<String> = Vec::new();
        r.push("metadata".to_owned());
        r.push("--no-deps".to_owned());
        r.push("--format-version=1".to_owned());
        assert(strings(r@) =~= seq!["metadata"@, "--no-deps"@, "--format-version=1"@]);
        r
    }

    /// The arguments of the build command.
    pub fn build_args(&self) -> (r: Vec<String>)
        ensures
            strings(r@) == build_args(self.crate_name@, self.target@, self.profile@),
    {
        let mut r: Vec<String> = Vec::new();
        r.push("build".to_owned());
        r.push("-p".to_owned());
        r.push(self.crate_name.as_str().to_owned());
        r.push("--target".to_owned());
        r.push(self.target.as_str().to_owned());
        if same_text(self.profile.as_str(), "release") {
            r.push("--release".to_owned());
        } else if same_text(self.profile.as_str(), "dev") {
        } else {
            r.push("--profile".to_owned());
            r.push(self.profile.as_str().to_owned());
        }
        assert(strings(r@) =~= build_args(self.crate_name@, self.target@, self.profile@));
        r
    }

    /// Go on from the metadata command: to the build, where the crate belongs
    /// to the workspace, or to an error.
    pub fn on_metadata(&self, outcome: &CommandOutcome) -> (r: Result<PlannedBuild, ForkError>)
        ensures
            (match *outcome {
                CommandOutcome::NotStarted(e) => r matches Err(f) && f@ == ErrorView::Workspace(
                    "failed to spawn `cargo metadata`: "@ + e@,
                ),
                CommandOutcome::Failed { status, stderr } => r matches Err(f) && f@
                    == ErrorView::Workspace(
                    "`cargo metadata` failed (exit "@ + status@ + "):\n"@ + trimmed_of(stderr@),
                ),
                CommandOutcome::Succeeded { stdout } => match planned(*self, stdout@) {
                    Ok((args, artifact)) => r matches Ok(p) && strings(p.args@) == args && strings(
                        p.artifact@,
                    ) == artifact,
                    Err(e) => r matches Err(f) && f@ == e,
                },
            }),
    {
        match outcome {
            CommandOutcome::NotStarted(e) => Err(
                ForkError::Workspace(join2("failed to spawn `cargo metadata`: ", e.as_str())),
            ),
            CommandOutcome::Failed { status, stderr } => Err(
                ForkError::Workspace(
                    join4(
                        "`cargo metadata` failed (exit ",
                        status.as_str(),
                        "):\n",
                        trimmed(stderr.as_str()).as_str(),
                    ),
                ),
            ),
            CommandOutcome::Succeeded { stdout } => {
                let metadata = match parse_metadata(stdout.as_slice()) {
                    Ok(m) => m,
                    Err(e) => {
                        return Err(e);
                    },
                };
                let dir = match extract_target_dir(&metadata) {
                    Ok(d) => d,
                    Err(e) => {
                        return Err(e);
                    },
                };
                match require_workspace_member(&metadata, self.crate_name.as_str()) {
                    Ok(_) => {},
                    Err(e) => {
                        return Err(e);
                    },
                }
                let file = wasm_file_name(self.crate_name.as_str());
                let mut artifact: Vec<String> = Vec::new();
                artifact.push(dir);
                artifact.push(self.target.as_str().to_owned());
                artifact.push(profile_dir_name(self.profile.as_str()));
                artifact.push(file);
                assert(strings(artifact@) =~= seq![
                    dir@,
                    self.target@,
                    profile_dir(self.profile@),
                    file@,
                ]);
                Ok(PlannedBuild { args: self.build_args(), artifact })
            },
        }
    }

    /// Go on from the build command: to the WASM, or to an error.
    pub fn on_build(&self, outcome: &CommandOutcome) -> (r: Result<(), ForkError>)
        ensures
            (match *outcome {
                CommandOutcome::NotStarted(e) => r matches Err(f) && f@ == ErrorView::Workspace(
                    "failed to spawn `cargo build`: "@ + e@,
                ),
                CommandOutcome::Failed { status, stderr } => r matches Err(f) && f@
                    == ErrorView::Workspace(
                    "`cargo build -p "@ + self.crate_name@ + " --target "@ + self.target@
                        + "` failed (exit "@ + status@
                        + "). cargo's stderr was already written to this process's stderr."@,
                ),
                CommandOutcome::Succeeded { stdout } => r is Ok,
            }),
    {
        match outcome {
            CommandOutcome::NotStarted(e) => Err(
                ForkError::Workspace(join2("failed to spawn `cargo build`: ", e.as_str())),
            ),
            CommandOutcome::Failed { status, .. } => {
                let mut s = join5(
                    "`cargo build -p ",
                    self.crate_name.as_str(),
                    " --target ",
                    self.target.as_str(),
                    "` failed (exit ",
                );
                s.append(status.as_str());
                s.append("). cargo's stderr was already written to this process's stderr.");
                Err(ForkError::Workspace(s))
            },
            CommandOutcome::Succeeded { .. } => Ok(()),
        }
    }

    /// The error of a build whose WASM could not be read.
    pub fn unreadable_artifact(path: &str, reason: &str) -> (r: ForkError)
        ensures
            r@ == ErrorView::Workspace(
                "expected wasm output at "@ + path@
                    + " after a successful build, but read failed: "@ + reason@,
            ),
    {
        ForkError::Workspace(
            join4(
                "expected wasm output at ",
                path,
                " after a successful build, but read failed: ",
                reason,
            ),
        )
    }
}

proof fn lemma_names_are_packages(members: Seq<Seq<char>>, packages: Seq<PackageView>, name: Seq<char>)
    ensures
        workspace_names(members, packages).contains(name) <==> exists|i: int|
            0 <= i < packages.len() && (#[trigger] packages[i]).name == Some(name) && (packages[i].id
                matches Some(id) && members.contains(id)),
    decreases packages.len(),
{
    if packages.len() > 0 {
        let before = packages.drop_last();
        let names = workspace_names(members, before);
        lemma_names_are_packages(members, before, name);
        let p = packages.last();
        let counts = p.id is Some && p.name is Some && members.contains(p.id->0);
        if workspace_names(members, packages).contains(name) {
            if names.contains(name) {
                let i = choose|i: int|
                    0 <= i < before.len() && (#[trigger] before[i]).name == Some(name) && (before[i].id
                        matches Some(id) && members.contains(id));
                assert(packages[i] == before[i]);
            } else {
                assert(packages[packages.len() - 1] == p);
            }
        }
        if exists|i: int|
            0 <= i < packages.len() && (#[trigger] packages[i]).name == Some(name) && (packages[i].id
                matches Some(id) && members.contains(id)) {
            let i = choose|i: int|
                0 <= i < packages.len() && (#[trigger] packages[i]).name == Some(name) && (packages[i].id
                    matches Some(id) && members.contains(id));
            if i < before.len() {
                assert(before[i] == packages[i]);
                let k = choose|k: int| 0 <= k < names.len() && names[k] == name;
                if counts {
                    assert(names.push(p.name->0)[k] == name);
                }
            } else {
                assert(names.push(name)[names.len() as int] == name);
            }
        }
    }
}

/// A crate passes the membership check exactly where a package of that name
/// has an id among the workspace's members: dependencies do not count, nor
/// do names that merely resemble it.
pub proof fn law_members_are_packages_of_the_workspace(m: MetadataView, crate_name: Seq<char>)
    requires
        m.workspace_members is Some,
        m.packages is Some,
    ensures
        membership(m, crate_name) is Ok <==> exists|i: int|
            0 <= i < m.packages->0.len() && (#[trigger] m.packages->0[i]).name == Some(crate_name) && (
            m.packages->0[i].id matches Some(id) && m.workspace_members->0.contains(id)),
{
    lemma_names_are_packages(m.workspace_members->0, m.packages->0, crate_name);
}

/// Whether cargo's answer names a package with an id that is among the
/// members of the workspace.
pub open spec fn lists_member(
    members: Seq<Seq<u8>>,
    packages: Seq<Seq<u8>>,
    name: Seq<char>,
    i: int,
    k: int,
) -> bool {
    &&& 0 <= i < packages.len()
    &&& 0 <= k < members.len()
    &&& json_string_field_of(packages[i], "name"@) == Some(name)
    &&& json_string_field_of(packages[i], "id"@) is Some
    &&& json_string_field_of(packages[i], "id"@) == json_string_of(members[k])
}

/// A crate of the workspace is built: cargo is told to build just that crate,
/// for its target and in its profile, and the artifact is looked for under the
/// target directory that cargo named, where cargo puts it.
pub proof fn law_members_are_built(
    b: WasmBuild,
    doc: Seq<u8>,
    dir: Seq<char>,
    members: Seq<Seq<u8>>,
    packages: Seq<Seq<u8>>,
    i: int,
    k: int,
)
    requires
        json_error_of(doc) is None,
        json_string_field_of(doc, "target_directory"@) == Some(dir),
        json_array_field_of(doc, "workspace_members"@) == Some(members),
        json_array_field_of(doc, "packages"@) == Some(packages),
        lists_member(members, packages, b.crate_name@, i, k),
    ensures
        planned(b, doc) matches Ok((args, artifact)) && {
            &&& args.take(5) == seq!["build"@, "-p"@, b.crate_name@, "--target"@, b.target@]
            &&& b.profile@ == "release"@ ==> args.skip(5) == seq!["--release"@]
            &&& b.profile@ == "dev"@ ==> args.len() == 5
            &&& b.profile@ != "release"@ && b.profile@ != "dev"@ ==> args.skip(5) == seq![
                "--profile"@,
                b.profile@,
            ]
            &&& artifact.len() == 4
            &&& artifact[0] == dir
            &&& artifact[1] == b.target@
            &&& b.profile@ == "dev"@ || b.profile@ == "test"@ ==> artifact[2] == "debug"@
            &&& b.profile@ == "release"@ || b.profile@ == "bench"@ ==> artifact[2] == "release"@
            &&& b.profile@ != "dev"@ && b.profile@ != "test"@ && b.profile@ != "bench"@ ==> artifact[2]
                == b.profile@
            &&& names_wasm(b.crate_name@, artifact[3])
        },
{
    lemma_told_apart();
    let m = metadata_of(doc);
    let id = json_string_of(members[k])->0;
    law_string_items_are_kept(members, k);
    assert(string_items(members).contains(id));
    assert(m.packages->0[i].id == Some(id));
    assert(m.packages->0[i].name == Some(b.crate_name@));
    law_members_are_packages_of_the_workspace(m, b.crate_name@);
    let args = build_args(b.crate_name@, b.target@, b.profile@);
    assert(args.take(5) =~= seq!["build"@, "-p"@, b.crate_name@, "--target"@, b.target@]);
    assert(args.skip(5) =~= profile_args(b.profile@));
    law_artifacts_are_underscored(b.crate_name@);
}

proof fn lemma_told_apart()
    ensures
        "release"@ != "dev"@,
        "release"@ != "test"@,
        "release"@ != "bench"@,
        "dev"@ != "test"@,
        "dev"@ != "bench"@,
        "test"@ != "bench"@,
{
    reveal_strlit("release");
    reveal_strlit("dev");
    reveal_strlit("test");
    reveal_strlit("bench");
    assert("release"@.len() == 7 && "dev"@.len() == 3 && "test"@.len() == 4 && "bench"@.len() == 5);
}

/// Only a crate of the workspace is built.
pub proof fn law_only_members_are_built(b: WasmBuild, doc: Seq<u8>)
    requires
        planned(b, doc) is Ok,
    ensures
        json_error_of(doc) is None,
        json_string_field_of(doc, "target_directory"@) is Some,
        json_array_field_of(doc, "workspace_members"@) matches Some(members) && (json_array_field_of(
            doc,
            "packages"@,
        ) matches Some(packages) && exists|i: int, k: int|
            #[trigger] lists_member(members, packages, b.crate_name@, i, k)),
{
    let m = metadata_of(doc);
    let members = json_array_field_of(doc, "workspace_members"@)->0;
    let packages = json_array_field_of(doc, "packages"@)->0;
    law_members_are_packages_of_the_workspace(m, b.crate_name@);
    let i = choose|i: int|
        0 <= i < m.packages->0.len() && (#[trigger] m.packages->0[i]).name == Some(b.crate_name@) && (
        m.packages->0[i].id matches Some(id) && m.workspace_members->0.contains(id));
    let id = m.packages->0[i].id->0;
    let k = lemma_kept_items_are_strings(members, id);
    assert(m.packages->0[i] == package_of(packages[i]));
    assert(lists_member(members, packages, b.crate_name@, i, k));
}

/// Every string of a list is kept; what is no string is passed over.
pub proof fn law_string_items_are_kept(items: Seq<Seq<u8>>, k: int)
    requires
        0 <= k < items.len(),
    ensures
        json_string_of(items[k]) matches Some(s) ==> string_items(items).contains(s),
        string_items(items).len() <= items.len(),
    decreases items.len(),
{
    let rest = items.drop_last();
    lemma_string_items_bound(rest);
    if k < rest.len() {
        law_string_items_are_kept(rest, k);
        assert(rest[k] == items[k]);
        if let Some(s) = json_string_of(items[k]) {
            let n = choose|n: int| 0 <= n < string_items(rest).len() && string_items(rest)[n] == s;
            assert(string_items(items)[n] == s);
        }
    } else if let Some(s) = json_string_of(items[k]) {
        assert(items.last() == items[k]);
        assert(string_items(items).last() == s);
        assert(string_items(items)[string_items(items).len() - 1] == s);
    }
}

proof fn lemma_string_items_bound(items: Seq<Seq<u8>>)
    ensures
        string_items(items).len() <= items.len(),
    decreases items.len(),
{
    if items.len() > 0 {
        lemma_string_items_bound(items.drop_last());
    }
}

proof fn lemma_kept_items_are_strings(items: Seq<Seq<u8>>, s: Seq<char>) -> (k: int)
    requires
        string_items(items).contains(s),
    ensures
        0 <= k < items.len(),
        json_string_of(items[k]) == Some(s),
    decreases items.len(),
{
    if items.len() == 0 {
        0
    } else if json_string_of(items.last()) == Some(s) {
        items.len() - 1
    } else {
        let n = choose|n: int| 0 <= n < string_items(items).len() && string_items(items)[n] == s;
        let before = string_items(items.drop_last());
        assert(n < before.len());
        assert(before[n] == s);
        let k = lemma_kept_items_are_strings(items.drop_last(), s);
        assert(items.drop_last()[k] == items[k]);
        k
    }
}

/// Whether a file name is that of a crate's artifact: the crate's name with an
/// underscore for each dash, and the ending.
pub open spec fn names_wasm(crate_name: Seq<char>, file: Seq<char>) -> bool {
    &&& file.len() == crate_name.len() + 5
    &&& file.skip(crate_name.len() as int) == ".wasm"@
    &&& forall|i: int|
        0 <= i < crate_name.len() ==> (#[trigger] file[i] == '_' && crate_name[i] == '-') || (file[i]
            == crate_name[i] && file[i] != '-')
}

/// The artifact of a crate has its name, with an underscore for each dash.
pub proof fn law_artifacts_are_underscored(crate_name: Seq<char>)
    ensures
        names_wasm(crate_name, underscored(crate_name) + ".wasm"@),
{
    reveal_strlit(".wasm");
    assert((underscored(crate_name) + ".wasm"@).skip(crate_name.len() as int) =~= ".wasm"@);
}

/// A build goes ahead only where cargo could be asked and answered; then it is
/// the one that the answer calls for.
pub proof fn law_builds_follow_the_answer(b: WasmBuild, outcome: CommandOutcome, r: Result<PlannedBuild, ForkError>)
    requires
        call_ensures(WasmBuild::on_metadata, (&b, &outcome), r),
    ensures
        !(outcome is Succeeded) ==> r is Err,
        outcome matches CommandOutcome::Succeeded { stdout } ==> (r is Ok <==> planned(b, stdout@) is Ok),
        outcome matches CommandOutcome::Succeeded { stdout } ==> (r matches Ok(p) ==> planned(b, stdout@)
            == Ok::<(Seq<Seq<char>>, Seq<Seq<char>>), ErrorView>((strings(p.args@), strings(p.artifact@)))),
{
}

/// A build counts as done only where cargo says so.
pub proof fn law_failed_builds_are_errors(b: WasmBuild, outcome: CommandOutcome, r: Result<(), ForkError>)
    requires
        call_ensures(WasmBuild::on_build, (&b, &outcome), r),
    ensures
        r is Ok <==> outcome is Succeeded,
{
}

/// Unless it is told otherwise, a crate is built for contracts, in release.
pub proof fn law_crates_are_built_for_contracts(name: &str, r: WasmBuild)
    requires
        call_ensures(workspace_wasm, (name,), r),
    ensures
        r.crate_name@ == name@,
        r.target@ == "wasm32v1-none"@,
        r.profile@ == "release"@,
        r.manifest_dir is None,
{
}

/// A crate that is not of the workspace is refused by its name, with the names
/// of those that are.
pub proof fn law_strangers_are_refused_by_name(
    members: Seq<Seq<char>>,
    packages: Seq<PackageView>,
    target_directory: Option<Seq<char>>,
    crate_name: Seq<char>,
)
    requires
        !workspace_names(members, packages).contains(crate_name),
    ensures
        membership(
            MetadataView {
                target_directory,
                workspace_members: Some(members),
                packages: Some(packages),
            },
            crate_name,
        ) matches Err(ErrorView::Workspace(t)) && t.take(crate_name.len() as int) == crate_name && t
            == crate_name + " is not a workspace member. cargo metadata listed: ["@ + joined(
            workspace_names(members, packages),
            ", "@,
        ) + "]"@,
{
    let t = crate_name + " is not a workspace member. cargo metadata listed: ["@ + joined(
        workspace_names(members, packages),
        ", "@,
    ) + "]"@;
    assert(t.take(crate_name.len() as int) =~= crate_name);
}

/// The names of the workspace are those of its own packages, in the order that
/// cargo lists them.
pub proof fn law_names_are_listed_in_order(members: Seq<Seq<char>>, packages: Seq<PackageView>, p: PackageView)
    ensures
        workspace_names(members, packages.push(p)) == workspace_names(members, packages) + (if p.id is Some
            && p.name is Some && members.contains(p.id->0) {
            seq![p.name->0]
        } else {
            Seq::empty()
        }),
{
    assert(packages.push(p).drop_last() =~= packages);
    assert(packages.push(p).last() == p);
    let before = workspace_names(members, packages);
    if p.id is Some && p.name is Some && members.contains(p.id->0) {
        assert(before.push(p.name->0) =~= before + seq![p.name->0]);
    } else {
        assert(before + Seq::empty() =~= before);
    }
}

/// The texts of a list are those of its strings, one for each.
pub proof fn law_lists_stand_for_their_strings(v: Seq<String>, i: int)
    ensures
        strings(v).len() == v.len(),
        0 <= i < v.len() ==> strings(v)[i] == v[i]@,
{
}

/// What cargo told stands for the names and the ids that it holds.
pub proof fn law_metadata_stands_for_what_it_holds(m: CargoMetadata, i: int)
    ensures
        m.target_directory matches Some(d) ==> m@.target_directory == Some(d@),
        m.target_directory is None ==> m@.target_directory is None,
        m.workspace_members matches Some(v) ==> m@.workspace_members == Some(strings(v@)),
        m.workspace_members is None ==> m@.workspace_members is None,
        m.packages matches Some(v) ==> (m@.packages matches Some(p) && p.len() == v@.len() && (0 <= i
            < v@.len() ==> (v@[i].id matches Some(id) ==> p[i].id == Some(id@)) && (v@[i].name matches Some(
            name,
        ) ==> p[i].name == Some(name@)))),
        m.packages is None ==> m@.packages is None,
{
}

} // verus!

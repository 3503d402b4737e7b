//! What to ask of Nix's command line, and what its answers mean.
//!
//! Nothing here runs a command. A function either says which command to run
//! or reads what a command has printed.

use vstd::prelude::*;
use vstd::string::StringSliceAdditionalSpecFns;
use vstd::utf8::{decode_utf8, decode_utf8_encode_utf8, encode_utf8, valid_utf8};
use crate::extension::{extension, extension_of};
use crate::failure::Failure;
use crate::json::{json_error_text, json_object_keys, object_keys};
use crate::lines::{lines, text_lines_of};
use crate::text::same_text;

verus! {

/// A command line: the program and its arguments.
#[derive(Clone, Debug, PartialEq, Eq)]
pub struct Invocation {
    pub program: String,
    pub args: Vec<String>,
}

/// What a command left behind when it ended.
#[derive(Clone, Debug, PartialEq, Eq)]
pub struct CommandOutput {
    /// Whether the command reported success.
    pub success: bool,
    /// Its exit code, unless a signal ended it.
    pub code: Option<i32>,
    /// What it wrote to standard output.
    pub stdout: Vec<u8>,
    /// What it wrote to standard error.
    pub stderr: Vec<u8>,
}

/// One entry of what `nix build --json` prints.
#[derive(Clone, Debug, PartialEq, Eq)]
pub struct Build {
    /// Store path of the derivation.
    pub drv_path: String,
    /// The outputs of the derivation: the name of each and its store path.
    /// No name occurs twice.
    pub outputs: Vec<(String, String)>,
}

/// The text of what a failed command wrote to standard error: empty where
/// that is not UTF-8.
pub open spec fn failure_text(stderr: Seq<u8>) -> Seq<char> {
    if valid_utf8(stderr) {
        decode_utf8(stderr)
    } else {
        Seq::empty()
    }
}

/// The exit code reported for a failed command: 1 where it has none.
pub open spec fn failure_code(code: Option<i32>) -> i32 {
    match code {
        Some(code) => code,
        None => 1,
    }
}

/// `error` says that Nix failed with this exit code and this output.
pub open spec fn is_nix_failure(error: Failure, code: Option<i32>, stderr: Seq<u8>) -> bool {
    error matches Failure::Nix { code: reported, stderr: text } && reported == failure_code(code)
        && text@ == failure_text(stderr)
}

/// Arguments of the dry build of an installable.
pub open spec fn dry_build_args(installable: Seq<char>) -> Seq<Seq<char>> {
    seq![
        "--extra-experimental-features"@,
        "nix-command flakes"@,
        "build"@,
        "--dry-run"@,
        "--json"@,
        installable,
    ]
}

/// Arguments of the query for the closure of a store path.
pub open spec fn closure_args(store_path: Seq<char>, with_outputs: bool) -> Seq<Seq<char>> {
    if with_outputs {
        seq!["--query"@, "--requisites"@, store_path, "--include-outputs"@]
    } else {
        seq!["--query"@, "--requisites"@, store_path]
    }
}

/// Arguments of the search for everything in a flake.
pub open spec fn search_args(flake_ref: Seq<char>) -> Seq<Seq<char>> {
    seq![
        "--extra-experimental-features"@,
        "nix-command flakes"@,
        "search"@,
        "--json"@,
        flake_ref,
        "."@,
    ]
}

/// Position of the first output from `from` on that has this name; the number
/// of outputs if none has.
pub open spec fn output_position(
    outputs: Seq<(Seq<char>, Seq<char>)>,
    name: Seq<char>,
    from: int,
) -> int
    decreases outputs.len() - from,
{
    if from < 0 || from >= outputs.len() {
        outputs.len() as int
    } else if outputs[from].0 == name {
        from
    } else {
        output_position(outputs, name, from + 1)
    }
}

/// The store path of the output with this name, if there is one.
pub open spec fn output_named(outputs: Seq<(Seq<char>, Seq<char>)>, name: Seq<char>) -> Option<
    Seq<char>,
> {
    let position = output_position(outputs, name, 0);
    if position < outputs.len() {
        Some(outputs[position].1)
    } else {
        None
    }
}

/// Whether an extension is `drv`, in upper or lower case.
pub open spec fn is_drv_extension(extension: Seq<u8>) -> bool {
    &&& extension.len() == 3
    &&& extension[0] == 0x64 || extension[0] == 0x44
    &&& extension[1] == 0x72 || extension[1] == 0x52
    &&& extension[2] == 0x76 || extension[2] == 0x56
}

/// Whether a path with this extension stays when derivations are stripped:
/// it has an extension, and that is not `drv`.
pub open spec fn keeps_extension(extension: Option<Seq<u8>>) -> bool {
    match extension {
        Some(extension) => !is_drv_extension(extension),
        None => false,
    }
}

/// The paths that stay when derivations are stripped.
pub open spec fn stays() -> spec_fn(Seq<char>) -> bool {
    |path: Seq<char>| keeps_extension(extension_of(encode_utf8(path)))
}

/// The installable of a package of a flake: `<flake>#<package>`.
pub open spec fn installable_of(flake_ref: Seq<char>, package: Seq<char>) -> Seq<char> {
    flake_ref + seq!['#'] + package
}

/// Names the installable of each package of a flake.
pub open spec fn installables_of(flake_ref: Seq<char>) -> spec_fn(Seq<char>) -> Seq<char> {
    |package: Seq<char>| installable_of(flake_ref, package)
}

/// The installable that builds a NixOS or nix-darwin configuration.
pub open spec fn system_installable(configuration_ref: Seq<char>) -> Seq<char> {
    configuration_ref + ".config.system.build.toplevel"@
}

/// The installable that builds a home-manager configuration.
pub open spec fn home_installable(configuration_ref: Seq<char>) -> Seq<char> {
    configuration_ref + ".activationPackage"@
}

/// `String::from_utf8`: the text that the bytes encode, if they are UTF-8,
/// and nothing if they are not.
#[verifier::external_body]
fn string_from_utf8(bytes: Vec<u8>) -> (text: Option<String>)
    ensures
        text is Some <==> valid_utf8(bytes@),
        text matches Some(decoded) ==> decoded@ == decode_utf8(bytes@),
{
    String::from_utf8(bytes).ok()
}

fn text(literal: &str) -> (owned: String)
    ensures
        owned@ == literal@,
{
    String::from_str(literal)
}

/// The command that builds `installable` without building it, and prints
/// what would be built as JSON.
pub fn dry_build(installable: &str) -> (invocation: Invocation)
    ensures
        invocation.program@ == "nix"@,
        invocation.args.deep_view() == dry_build_args(installable@),
{
    let mut args: Vec<String> = Vec::new();
    args.push(text("--extra-experimental-features"));
    args.push(text("nix-command flakes"));
    args.push(text("build"));
    args.push(text("--dry-run"));
    args.push(text("--json"));
    args.push(text(installable));
    assert(args.deep_view() =~= dry_build_args(installable@));
    Invocation { program: text("nix"), args }
}

/// The command that lists the closure of `store_path`, with the outputs of
/// the derivations in it if `with_outputs` is set.
pub fn closure(store_path: &str, with_outputs: bool) -> (invocation: Invocation)
    ensures
        invocation.program@ == "nix-store"@,
        invocation.args.deep_view() == closure_args(store_path@, with_outputs),
{
    let mut args: Vec<String> = Vec::new();
    args.push(text("--query"));
    args.push(text("--requisites"));
    args.push(text(store_path));
    if with_outputs {
        args.push(text("--include-outputs"));
    }
    assert(args.deep_view() =~= closure_args(store_path@, with_outputs));
    Invocation { program: text("nix-store"), args }
}

/// The command that lists everything that the flake at `flake_ref` offers,
/// as JSON.
pub fn flake_search(flake_ref: &str) -> (invocation: Invocation)
    ensures
        invocation.program@ == "nix"@,
        invocation.args.deep_view() == search_args(flake_ref@),
{
    let mut args: Vec<String> = Vec::new();
    args.push(text("--extra-experimental-features"));
    args.push(text("nix-command flakes"));
    args.push(text("search"));
    args.push(text("--json"));
    args.push(text(flake_ref));
    args.push(text("."));
    assert(args.deep_view() =~= search_args(flake_ref@));
    Invocation { program: text("nix"), args }
}

/// The error of a command that did not succeed: its exit code, or 1 if it
/// has none, and what it wrote to standard error, or nothing if that is not
/// UTF-8.
pub fn nix_failure(code: Option<i32>, stderr: Vec<u8>) -> (error: Failure)
    ensures
        is_nix_failure(error, code, stderr@),
{
    let code = match code {
        Some(code) => code,
        None => 1,
    };
    let stderr = match string_from_utf8(stderr) {
        Some(text) => text,
        None => String::new(),
    };
    Failure::Nix { code, stderr }
}

/// What `nix build --dry-run --json` printed, or the error of its failure.
pub fn dry_build_output(output: CommandOutput) -> (stdout: Result<Vec<u8>, Failure>)
    ensures
        output.success ==> stdout == Ok::<Vec<u8>, Failure>(output.stdout),
        !output.success ==> ({
            &&& stdout matches Err(error)
            &&& is_nix_failure(error, output.code, output.stderr@)
        }),
{
    if output.success {
        Ok(output.stdout)
    } else {
        Err(nix_failure(output.code, output.stderr))
    }
}

/// Get the `outPath` (store path) of an installable: the output `out` of the
/// first build that the dry build of it reported.
pub fn out_path(installable: &str, builds: &Vec<Build>) -> (path: Result<String, Failure>)
    ensures
        builds.len() == 0 ==> path == Err::<String, Failure>(Failure::NoBuild),
        builds.len() > 0 ==> match output_named(builds[0].outputs.deep_view(), "out"@) {
            Some(found) => path matches Ok(out) && out@ == found,
            None => path matches Err(Failure::NoOutPath { installable: named }) && named@
                == installable@,
        },
{
    if builds.len() == 0 {
        return Err(Failure::NoBuild);
    }
    let outputs = &builds[0].outputs;
    let mut i: usize = 0;
    while i < outputs.len()
        invariant
            i <= outputs.len(),
            builds.len() > 0,
            *outputs == builds[0].outputs,
            output_position(outputs.deep_view(), "out"@, 0) == output_position(
                outputs.deep_view(),
                "out"@,
                i as int,
            ),
        decreases outputs.len() - i,
    {
        assert(outputs.deep_view()[i as int].0 == outputs[i as int].0@);
        assert(outputs.deep_view()[i as int].1 == outputs[i as int].1@);
        if same_text(outputs[i].0.as_str(), "out") {
            return Ok(outputs[i].1.clone());
        }
        i += 1;
    }
    Err(Failure::NoOutPath { installable: text(installable) })
}

/// Get the `drvPath` (derivation path) of an installable: that of the first
/// build that the dry build of it reported.
pub fn drv_path(builds: &Vec<Build>) -> (path: Result<String, Failure>)
    ensures
        builds.len() == 0 ==> path == Err::<String, Failure>(Failure::NoBuild),
        builds.len() > 0 ==> path == Ok::<String, Failure>(builds[0].drv_path),
{
    if builds.len() == 0 {
        Err(Failure::NoBuild)
    } else {
        Ok(builds[0].drv_path.clone())
    }
}

/// All paths in a closure: the lines that `nix-store --query --requisites`
/// printed, or the error of its failure.
pub fn closure_paths(output: CommandOutput) -> (paths: Result<Vec<String>, Failure>)
    ensures
        !output.success ==> ({
            &&& paths matches Err(error)
            &&& is_nix_failure(error, output.code, output.stderr@)
        }),
        output.success && !valid_utf8(output.stdout@) ==> paths == Err::<Vec<String>, Failure>(
            Failure::InvalidUtf8,
        ),
        output.success && valid_utf8(output.stdout@) ==> ({
            &&& paths matches Ok(listed)
            &&& listed.deep_view() == text_lines_of(output.stdout@)
        }),
{
    if !output.success {
        return Err(nix_failure(output.code, output.stderr));
    }
    let ghost printed = output.stdout@;
    match string_from_utf8(output.stdout) {
        Some(stdout) => {
            proof {
                decode_utf8_encode_utf8(printed);
            }
            let text = stdout.as_str();
            assert(text.spec_bytes() == printed);
            Ok(lines(text))
        },
        None => Err(Failure::InvalidUtf8),
    }
}

/// Whether `extension` is `drv`, in upper or lower case.
pub fn is_derivation_extension(extension: &[u8]) -> (drv: bool)
    ensures
        drv == is_drv_extension(extension@),
{
    extension.len() == 3 && (extension[0] == 0x64 || extension[0] == 0x44) && (extension[1]
        == 0x72 || extension[1] == 0x52) && (extension[2] == 0x76 || extension[2] == 0x56)
}

/// Whether a path with this extension, or with none, stays when derivations
/// are stripped.
pub fn keeps(extension: Option<&[u8]>) -> (stays: bool)
    ensures
        stays == keeps_extension(
            match extension {
                Some(extension) => Some(extension@),
                None => None,
            },
        ),
{
    match extension {
        Some(extension) => !is_derivation_extension(extension),
        None => false,
    }
}

/// Strip derivations from a list of store paths: a path stays if it has an
/// extension other than `drv`.
pub fn strip_drvs(paths: Vec<String>) -> (kept: Vec<String>)
    ensures
        kept.deep_view() == paths.deep_view().filter(stays()),
{
    let ghost all = paths.deep_view();
    let ghost given = paths@;
    let mut kept: Vec<String> = Vec::new();
    proof {
        reveal(Seq::filter);
        assert(all.take(0).filter(stays()) =~= Seq::<Seq<char>>::empty());
    }
    for path in it: paths
        invariant
            it.seq() == given,
            all == given.map_values(|p: String| p@),
            kept.deep_view() == all.take(it.index() as int).filter(stays()),
    {
        let ghost done = it.index() as int;
        proof {
            reveal(Seq::filter);
            assert(all.take(done + 1).drop_last() =~= all.take(done));
            assert(all.take(done + 1).last() == path@);
        }
        let ghost before = kept.deep_view();
        if keeps(extension(path.as_str())) {
            kept.push(path);
            assert(kept.deep_view() =~= before.push(path@));
        }
    }
    assert(all.take(all.len() as int) =~= all);
    kept
}

/// The closure of an installable, asked for in two commands. The first,
/// `invocation`, is the dry build that names the derivation; `built` takes
/// what it reported.
#[derive(Clone, Debug, PartialEq, Eq)]
pub struct ClosureQuery {
    pub installable: String,
}

/// The closure of an installable whose derivation is known. The command
/// `invocation` lists it; `answered` takes what that printed.
#[derive(Clone, Debug, PartialEq, Eq)]
pub struct RequisitesQuery {
    pub drv_path: String,
}

impl ClosureQuery {
    /// The dry build of the installable.
    pub fn invocation(&self) -> (invocation: Invocation)
        ensures
            invocation.program@ == "nix"@,
            invocation.args.deep_view() == dry_build_args(self.installable@),
    {
        dry_build(self.installable.as_str())
    }

    /// Goes on with the derivation of the first build that the dry build
    /// reported; without a build there is nothing to go on with.
    pub fn built(self, builds: &Vec<Build>) -> (next: Result<RequisitesQuery, Failure>)
        ensures
            builds.len() == 0 ==> next == Err::<RequisitesQuery, Failure>(Failure::NoBuild),
            builds.len() > 0 ==> next == Ok::<RequisitesQuery, Failure>(
                RequisitesQuery { drv_path: builds[0].drv_path },
            ),
    {
        match drv_path(builds) {
            Ok(drv_path) => Ok(RequisitesQuery { drv_path }),
            Err(error) => Err(error),
        }
    }
}

impl RequisitesQuery {
    /// The query for the closure of the derivation, outputs included.
    pub fn invocation(&self) -> (invocation: Invocation)
        ensures
            invocation.program@ == "nix-store"@,
            invocation.args.deep_view() == closure_args(self.drv_path@, true),
    {
        closure(self.drv_path.as_str(), true)
    }

    /// The paths of the closure without the derivations among them, or the
    /// error of a query that failed.
    pub fn answered(self, output: CommandOutput) -> (paths: Result<Vec<String>, Failure>)
        ensures
            !output.success ==> ({
                &&& paths matches Err(error)
                &&& is_nix_failure(error, output.code, output.stderr@)
            }),
            output.success && !valid_utf8(output.stdout@) ==> paths == Err::<Vec<String>, Failure>(
                Failure::InvalidUtf8,
            ),
            output.success && valid_utf8(output.stdout@) ==> ({
                &&& paths matches Ok(kept)
                &&& kept.deep_view() == text_lines_of(output.stdout@).filter(stays())
            }),
    {
        match closure_paths(output) {
            Ok(paths) => Ok(strip_drvs(paths)),
            Err(error) => Err(error),
        }
    }
}

/// Get all paths in an installable's closure: the query that leads to them.
pub fn installable_closure_paths(installable: &str) -> (query: ClosureQuery)
    ensures
        query.installable@ == installable@,
{
    ClosureQuery { installable: text(installable) }
}

/// Get all paths in a NixOS or nix-darwin configuration's closure: the query
/// that leads to them.
pub fn system_configuration_closure_paths(configuration_ref: &str) -> (query: ClosureQuery)
    ensures
        query.installable@ == system_installable(configuration_ref@),
{
    let mut installable = text(configuration_ref);
    installable.append(".config.system.build.toplevel");
    installable_closure_paths(installable.as_str())
}

/// Get all paths in a home-manager configuration's closure: the query that
/// leads to them.
pub fn home_configuration_closure_paths(configuration_ref: &str) -> (query: ClosureQuery)
    ensures
        query.installable@ == home_installable(configuration_ref@),
{
    let mut installable = text(configuration_ref);
    installable.append(".activationPackage");
    installable_closure_paths(installable.as_str())
}

/// The installables of the packages of a flake, in the order of the names.
pub fn flake_installables(flake_ref: &str, names: Vec<String>) -> (installables: Vec<String>)
    ensures
        installables.deep_view() == names.deep_view().map_values(installables_of(flake_ref@)),
{
    proof {
        reveal_strlit("#");
    }
    let mut installables: Vec<String> = Vec::new();
    let mut i: usize = 0;
    while i < names.len()
        invariant
            i <= names.len(),
            "#"@ == seq!['#'],
            installables.deep_view() == names.deep_view().map_values(
                installables_of(flake_ref@),
            ).take(i as int),
        decreases names.len() - i,
    {
        let mut installable = text(flake_ref);
        installable.append("#");
        installable.append(names[i].as_str());
        let ghost listed = installables.deep_view();
        installables.push(installable);
        assert(installables.deep_view() =~= listed.push(
            installable_of(flake_ref@, names[i as int]@),
        ));
        assert(installables.deep_view() =~= names.deep_view().map_values(
            installables_of(flake_ref@),
        ).take(i + 1));
        i += 1;
    }
    assert(names.deep_view().map_values(installables_of(flake_ref@)).take(names.len() as int)
        =~= names.deep_view().map_values(installables_of(flake_ref@)));
    installables
}

/// Get all installables available in a given flake, from what the search of
/// it printed: one for each key of the JSON object, in no particular order.
pub fn all_flake_installables(flake_ref: &str, output: CommandOutput) -> (installables: Result<
    Vec<String>,
    Failure,
>)
    ensures
        !output.success ==> ({
            &&& installables matches Err(error)
            &&& is_nix_failure(error, output.code, output.stderr@)
        }),
        output.success ==> match json_object_keys(output.stdout@) {
            Some(keys) => {
                &&& installables matches Ok(list)
                &&& exists|names: Seq<Seq<char>>|
                    {
                        &&& names.no_duplicates()
                        &&& names.to_set() == keys
                        &&& list.deep_view() == #[trigger] names.map_values(
                            installables_of(flake_ref@),
                        )
                    }
            },
            None => installables matches Err(Failure::Json(_)),
        },
{
    if !output.success {
        return Err(nix_failure(output.code, output.stderr));
    }
    match object_keys(output.stdout.as_slice()) {
        Ok(names) => {
            let ghost keys = names.deep_view();
            let installables = flake_installables(flake_ref, names);
            assert(installables.deep_view() == keys.map_values(installables_of(flake_ref@)));
            Ok(installables)
        },
        Err(error) => Err(Failure::Json(json_error_text(&error))),
    }
}

} // verus!

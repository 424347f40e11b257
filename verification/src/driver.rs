//! The decisions of the seed replay driver: which LLVM tools it runs with
//! which arguments and how their failures read, where a tool is looked for,
//! how a seed corpus is accepted, and how a run is summarized.

use vstd::prelude::*;
use vstd::string::*;
use crate::seed::{joined_path, join_path, replay_file_names, replay_files, SeedProfile};
use crate::text::{append_decimal, decimal};
use crate::toolchain::{trim, trim_text, PointerMode};

verus! {

/// `llvm@<version>`, the name of a toolchain.
pub open spec fn llvm_label(version: u8) -> Seq<char> {
    "llvm@"@ + decimal(version as nat)
}

/// The arguments every tool of `version` gets first for this pointer mode.
pub open spec fn pointer_args(mode: PointerMode, version: u8) -> Seq<Seq<char>> {
    if version == 14 && mode == PointerMode::Opaque {
        seq!["-opaque-pointers"@]
    } else {
        Seq::empty()
    }
}

/// One run of an LLVM tool: the tool, its arguments, and the texts its
/// failures begin with; the launch error or the tool's output follows them.
#[derive(Debug)]
pub struct ToolInvocation {
    pub tool: &'static str,
    pub args: Vec<String>,
    pub launch_failure: String,
    pub exit_failure: String,
}

/// An invocation as values: tool, arguments and the two failure prefixes.
pub open spec fn invocation_view(i: ToolInvocation) -> (Seq<char>, Seq<Seq<char>>, Seq<char>, Seq<char>) {
    (i.tool@, i.args@.map_values(|a: String| a@), i.launch_failure@, i.exit_failure@)
}

/// Assembling `input` into `output` with `llvm-as`.
pub open spec fn assemble_spec(version: u8, mode: PointerMode, input: Seq<char>, output: Seq<char>) -> (
    Seq<char>,
    Seq<Seq<char>>,
    Seq<char>,
    Seq<char>,
) {
    (
        "llvm-as"@,
        pointer_args(mode, version) + seq![input, "-o"@, output],
        "failed to run "@ + llvm_label(version) + " llvm-as on "@ + input + ": "@,
        llvm_label(version) + " llvm-as failed for "@ + input + ": "@,
    )
}

/// Verifying `bitcode` with `opt`.
pub open spec fn verify_spec(version: u8, mode: PointerMode, bitcode: Seq<char>) -> (
    Seq<char>,
    Seq<Seq<char>>,
    Seq<char>,
    Seq<char>,
) {
    (
        "opt"@,
        pointer_args(mode, version) + seq!["-passes=verify"@, bitcode, "-disable-output"@],
        "failed to run "@ + llvm_label(version) + " opt on "@ + bitcode + ": "@,
        llvm_label(version) + " opt verify failed for "@ + bitcode + ": "@,
    )
}

/// Disassembling `input` into `output` with `llvm-dis`.
pub open spec fn disassemble_spec(version: u8, mode: PointerMode, input: Seq<char>, output: Seq<char>) -> (
    Seq<char>,
    Seq<Seq<char>>,
    Seq<char>,
    Seq<char>,
) {
    (
        "llvm-dis"@,
        pointer_args(mode, version) + seq![input, "-o"@, output],
        "failed to run "@ + llvm_label(version) + " llvm-dis on "@ + input + ": "@,
        llvm_label(version) + " llvm-dis failed for "@ + input + ": "@,
    )
}

/// Asking `tool` of `version` for its version.
pub open spec fn version_spec(version: u8, tool: Seq<char>) -> (Seq<char>, Seq<Seq<char>>, Seq<char>, Seq<char>) {
    (
        tool,
        seq!["--version"@],
        "failed to run "@ + llvm_label(version) + " "@ + tool + " --version: "@,
        llvm_label(version) + " "@ + tool + " --version failed: "@,
    )
}

fn label(version: u8) -> (text: String)
    ensures
        text@ == llvm_label(version),
{
    let mut text = String::from_str("llvm@");
    append_decimal(&mut text, version as u64);
    text
}

fn mode_args(mode: PointerMode, version: u8) -> (args: Vec<String>)
    ensures
        args@.map_values(|a: String| a@) == pointer_args(mode, version),
{
    let mut args: Vec<String> = Vec::new();
    let extra = mode.extra_args(version);
    if extra.len() == 1 {
        args.push(String::from_str(extra[0]));
    }
    assert(args@.map_values(|a: String| a@) =~= pointer_args(mode, version));
    args
}

/// `<before><label><middle><subject>: `, the opening of a failure.
fn failure_text(before: &str, version: u8, middle: &str, subject: &str) -> (text: String)
    ensures
        text@ == before@ + llvm_label(version) + middle@ + subject@ + ": "@,
{
    proof { reveal_strlit(": "); }
    let mut text = String::from_str(before);
    let name = label(version);
    text.append(name.as_str());
    text.append(middle);
    text.append(subject);
    text.append(": ");
    text
}

/// The `llvm-as` run that assembles `input` into `output`.
pub fn assemble_invocation(version: u8, mode: PointerMode, input: &str, output: &str) -> (i: ToolInvocation)
    ensures
        invocation_view(i) == assemble_spec(version, mode, input@, output@),
{
    let mut args = mode_args(mode, version);
    let ghost before = args@.map_values(|a: String| a@);
    args.push(String::from_str(input));
    args.push(String::from_str("-o"));
    args.push(String::from_str(output));
    proof { reveal_strlit("-o"); }
    assert(args@.map_values(|a: String| a@) =~= before + seq![input@, "-o"@, output@]);
    proof { reveal_strlit(""); }
    ToolInvocation {
        tool: "llvm-as",
        args,
        launch_failure: failure_text("failed to run ", version, " llvm-as on ", input),
        exit_failure: failure_text("", version, " llvm-as failed for ", input),
    }
}

/// The `opt` run that verifies `bitcode`.
pub fn verify_invocation(version: u8, mode: PointerMode, bitcode: &str) -> (i: ToolInvocation)
    ensures
        invocation_view(i) == verify_spec(version, mode, bitcode@),
{
    let mut args = mode_args(mode, version);
    let ghost before = args@.map_values(|a: String| a@);
    args.push(String::from_str("-passes=verify"));
    args.push(String::from_str(bitcode));
    args.push(String::from_str("-disable-output"));
    assert(args@.map_values(|a: String| a@) =~= before + seq!["-passes=verify"@, bitcode@, "-disable-output"@]);
    proof { reveal_strlit(""); }
    ToolInvocation {
        tool: "opt",
        args,
        launch_failure: failure_text("failed to run ", version, " opt on ", bitcode),
        exit_failure: failure_text("", version, " opt verify failed for ", bitcode),
    }
}

/// The `llvm-dis` run that disassembles `input` into `output`.
pub fn disassemble_invocation(version: u8, mode: PointerMode, input: &str, output: &str) -> (i: ToolInvocation)
    ensures
        invocation_view(i) == disassemble_spec(version, mode, input@, output@),
{
    let mut args = mode_args(mode, version);
    let ghost before = args@.map_values(|a: String| a@);
    args.push(String::from_str(input));
    args.push(String::from_str("-o"));
    args.push(String::from_str(output));
    assert(args@.map_values(|a: String| a@) =~= before + seq![input@, "-o"@, output@]);
    proof { reveal_strlit(""); }
    ToolInvocation {
        tool: "llvm-dis",
        args,
        launch_failure: failure_text("failed to run ", version, " llvm-dis on ", input),
        exit_failure: failure_text("", version, " llvm-dis failed for ", input),
    }
}

/// The run that asks `tool` of `version` for its version.
pub fn version_invocation(version: u8, tool: &'static str) -> (i: ToolInvocation)
    ensures
        invocation_view(i) == version_spec(version, tool@),
{
    let mut args: Vec<String> = Vec::new();
    args.push(String::from_str("--version"));
    assert(args@.map_values(|a: String| a@) =~= seq!["--version"@]);
    let mut middle = String::from_str(" ");
    middle.append(tool);
    middle.append(" --version");
    let launch = failure_text("failed to run ", version, middle.as_str(), "");
    let mut exit = label(version);
    exit.append(" ");
    exit.append(tool);
    exit.append(" --version failed: ");
    proof {
        reveal_strlit("");
        reveal_strlit(" ");
        reveal_strlit(": ");
        reveal_strlit(" --version");
        reveal_strlit(" --version: ");
        reveal_strlit(" --version failed: ");
        assert(launch@ =~= "failed to run "@ + llvm_label(version) + " "@ + tool@ + " --version: "@);
    }
    ToolInvocation { tool, args, launch_failure: launch, exit_failure: exit }
}

/// The version checks a toolchain must pass before any replay: `llvm-as`,
/// `llvm-dis` and `opt`, in that order.
pub fn availability_invocations(version: u8) -> (runs: Vec<ToolInvocation>)
    ensures
        runs@.map_values(|i: ToolInvocation| invocation_view(i)) == seq![
            version_spec(version, "llvm-as"@),
            version_spec(version, "llvm-dis"@),
            version_spec(version, "opt"@),
        ],
{
    let mut runs: Vec<ToolInvocation> = Vec::new();
    runs.push(version_invocation(version, "llvm-as"));
    runs.push(version_invocation(version, "llvm-dis"));
    runs.push(version_invocation(version, "opt"));
    assert(runs@.map_values(|i: ToolInvocation| invocation_view(i)) =~= seq![
        version_spec(version, "llvm-as"@),
        version_spec(version, "llvm-dis"@),
        version_spec(version, "opt"@),
    ]);
    runs
}

/// The five runs that replay one exported artifact with one toolchain:
/// assemble it, verify the bitcode, disassemble it, assemble the
/// disassembly again and verify that bitcode; each file lies in
/// `output_dir`.
pub open spec fn replay_runs(
    version: u8,
    mode: PointerMode,
    seed: Seq<char>,
    artifact: Seq<char>,
    output_dir: Seq<char>,
) -> Seq<(Seq<char>, Seq<Seq<char>>, Seq<char>, Seq<char>)> {
    let names = replay_file_names(seed, version as nat);
    let assembled = joined_path(output_dir, names.0);
    let disassembly = joined_path(output_dir, names.1);
    let roundtrip = joined_path(output_dir, names.2);
    seq![
        assemble_spec(version, mode, artifact, assembled),
        verify_spec(version, mode, assembled),
        disassemble_spec(version, mode, assembled, disassembly),
        assemble_spec(version, mode, disassembly, roundtrip),
        verify_spec(version, mode, roundtrip),
    ]
}

/// The runs that replay one exported artifact with one toolchain.
pub fn replay_invocations(
    version: u8,
    mode: PointerMode,
    seed_name: &str,
    artifact_path: &str,
    output_dir: &str,
) -> (runs: Vec<ToolInvocation>)
    ensures
        runs@.map_values(|i: ToolInvocation| invocation_view(i)) == replay_runs(
            version,
            mode,
            seed_name@,
            artifact_path@,
            output_dir@,
        ),
{
    let (assembled_name, disassembly_name, roundtrip_name) = replay_files(seed_name, version);
    let assembled = join_path(output_dir, assembled_name.as_str());
    let disassembly = join_path(output_dir, disassembly_name.as_str());
    let roundtrip = join_path(output_dir, roundtrip_name.as_str());
    let mut runs: Vec<ToolInvocation> = Vec::new();
    runs.push(assemble_invocation(version, mode, artifact_path, assembled.as_str()));
    runs.push(verify_invocation(version, mode, assembled.as_str()));
    runs.push(disassemble_invocation(version, mode, assembled.as_str(), disassembly.as_str()));
    runs.push(assemble_invocation(version, mode, disassembly.as_str(), roundtrip.as_str()));
    runs.push(verify_invocation(version, mode, roundtrip.as_str()));
    assert(runs@.map_values(|i: ToolInvocation| invocation_view(i)) =~= replay_runs(
        version,
        mode,
        seed_name@,
        artifact_path@,
        output_dir@,
    ));
    runs
}

/// What a failed tool run is summarized by: its trimmed error output, else
/// its trimmed standard output, else a note that it printed nothing.
pub open spec fn output_summary(stderr: Seq<char>, stdout: Seq<char>) -> Seq<char> {
    if trim(stderr).len() > 0 {
        trim(stderr)
    } else if trim(stdout).len() > 0 {
        trim(stdout)
    } else {
        "command produced no output"@
    }
}

/// Summarizes the output of a failed tool run.
pub fn summarize_output(stderr: &str, stdout: &str) -> (summary: String)
    ensures
        summary@ == output_summary(stderr@, stdout@),
{
    let error = trim_text(stderr);
    if error.unicode_len() > 0 {
        return String::from_str(error);
    }
    let output = trim_text(stdout);
    if output.unicode_len() > 0 {
        String::from_str(output)
    } else {
        String::from_str("command produced no output")
    }
}

/// Whether two paths are equal as `std::path::Path` compares them (by
/// their components).
pub uninterp spec fn same_path_name(a: Seq<char>, b: Seq<char>) -> bool;

/// Compares two paths with `std::path::Path`'s `==`. The contract claims
/// only that the answer is a function of the two texts; how components are
/// compared is left to the standard library.
#[verifier::external_body]
fn paths_equal(a: &str, b: &str) -> (same: bool)
    ensures
        same == same_path_name(a@, b@),
{
    std::path::Path::new(a) == std::path::Path::new(b)
}

/// Texts as values.
pub open spec fn path_views(texts: Seq<String>) -> Seq<Seq<char>> {
    texts.map_values(|p: String| p@)
}

/// The Homebrew prefixes searched after the one the environment names.
pub open spec fn fixed_prefixes() -> Seq<Seq<char>> {
    seq!["/opt/homebrew/opt"@, "/usr/local/opt"@]
}

/// `<prefix>/llvm@<version>/bin/<tool>`.
pub open spec fn tool_under(prefix: Seq<char>, version: u8, tool: Seq<char>) -> Seq<char> {
    joined_path(joined_path(joined_path(prefix, llvm_label(version)), "bin"@), tool)
}

/// Every place a tool is looked for, in order: under the environment's
/// Homebrew prefix (its `opt` directory) if one is set, then under each
/// fixed prefix.
pub open spec fn listed_candidates(environment_prefix: Option<Seq<char>>, version: u8, tool: Seq<char>) -> Seq<
    Seq<char>,
> {
    let first = match environment_prefix {
        Some(prefix) => seq![tool_under(joined_path(prefix, "opt"@), version, tool)],
        None => Seq::empty(),
    };
    first + fixed_prefixes().map_values(|p: Seq<char>| tool_under(p, version, tool))
}

/// The paths of `s` with every path equal to an earlier one left out.
pub open spec fn distinct_paths(s: Seq<Seq<char>>) -> Seq<Seq<char>>
    decreases s.len(),
{
    if s.len() == 0 {
        Seq::empty()
    } else {
        let kept = distinct_paths(s.drop_last());
        if exists|k: int| 0 <= k < kept.len() && same_path_name(#[trigger] kept[k], s.last()) {
            kept
        } else {
            kept.push(s.last())
        }
    }
}

fn tool_path_text(prefix: &str, version: u8, tool: &str) -> (path: String)
    ensures
        path@ == tool_under(prefix@, version, tool@),
{
    let name = label(version);
    let first = join_path(prefix, name.as_str());
    let second = join_path(first.as_str(), "bin");
    proof { reveal_strlit("bin"); }
    join_path(second.as_str(), tool)
}

fn push_distinct(kept: &mut Vec<String>, path: String)
    ensures
        path_views(final(kept)@) == (if exists|k: int|
            0 <= k < old(kept)@.len() && same_path_name(#[trigger] path_views(old(kept)@)[k], path@) {
            path_views(old(kept)@)
        } else {
            path_views(old(kept)@).push(path@)
        }),
{
    let ghost views = path_views(kept@);
    let mut k: usize = 0;
    while k < kept.len()
        invariant
            k <= kept@.len(),
            views == path_views(kept@),
            forall|m: int| 0 <= m < k ==> !same_path_name(#[trigger] views[m], path@),
        decreases kept@.len() - k,
    {
        if paths_equal(kept[k].as_str(), path.as_str()) {
            assert(same_path_name(views[k as int], path@));
            return;
        }
        k = k + 1;
    }
    kept.push(path);
    assert(path_views(kept@) =~= views.push(path@));
}

/// Where a tool of `version` is looked for, each path once, in order.
pub fn tool_candidates(environment_prefix: Option<&str>, version: u8, tool: &str) -> (candidates: Vec<String>)
    ensures
        path_views(candidates@) == distinct_paths(
            listed_candidates(
                match environment_prefix {
                    Some(p) => Some(p@),
                    None => None,
                },
                version,
                tool@,
            ),
        ),
{
    let ghost listed = listed_candidates(
        match environment_prefix {
            Some(p) => Some(p@),
            None => None,
        },
        version,
        tool@,
    );
    let mut candidates: Vec<String> = Vec::new();
    proof { reveal_strlit("opt"); }
    assert(distinct_paths(Seq::<Seq<char>>::empty()) =~= Seq::<Seq<char>>::empty());
    assert(path_views(candidates@) =~= Seq::<Seq<char>>::empty());
    match environment_prefix {
        Some(prefix) => {
            let opt = join_path(prefix, "opt");
            let path = tool_path_text(opt.as_str(), version, tool);
            assert(listed[0] == path@);
            push_distinct(&mut candidates, path);
            assert(listed.subrange(0, 1).drop_last() =~= Seq::<Seq<char>>::empty());
            assert(listed.subrange(0, 1).last() == listed[0]);
            assert(path_views(candidates@) =~= distinct_paths(listed.subrange(0, 1)));
        },
        None => {
            assert(listed.subrange(0, 0) =~= Seq::<Seq<char>>::empty());
        },
    }
    let offset: usize = if environment_prefix.is_some() {
        1
    } else {
        0
    };
    proof {
        reveal_strlit("/opt/homebrew/opt");
        reveal_strlit("/usr/local/opt");
    }
    assert(path_views(candidates@) == distinct_paths(listed.subrange(0, offset as int)));
    let first = tool_path_text("/opt/homebrew/opt", version, tool);
    assert(listed[offset as int] == first@);
    assert(listed.subrange(0, offset as int + 1).drop_last() =~= listed.subrange(0, offset as int));
    assert(listed.subrange(0, offset as int + 1).last() == first@);
    push_distinct(&mut candidates, first);
    assert(path_views(candidates@) == distinct_paths(listed.subrange(0, offset as int + 1)));
    let second = tool_path_text("/usr/local/opt", version, tool);
    assert(listed[offset as int + 1] == second@);
    assert(listed.subrange(0, offset as int + 2).drop_last() =~= listed.subrange(0, offset as int + 1));
    assert(listed.subrange(0, offset as int + 2).last() == second@);
    push_distinct(&mut candidates, second);
    assert(path_views(candidates@) == distinct_paths(listed.subrange(0, offset as int + 2)));
    assert(listed.len() == offset + 2);
    assert(listed.subrange(0, offset as int + 2) =~= listed);
    candidates
}

/// The paths joined with `, `.
pub open spec fn comma_list(paths: Seq<Seq<char>>) -> Seq<char>
    decreases paths.len(),
{
    if paths.len() == 0 {
        Seq::empty()
    } else if paths.len() == 1 {
        paths[0]
    } else {
        comma_list(paths.drop_last()) + ", "@ + paths.last()
    }
}

/// The failure when no candidate path of a tool exists.
pub open spec fn missing_tool_text(version: u8, tool: Seq<char>, candidates: Seq<Seq<char>>) -> Seq<char> {
    "unable to find "@ + llvm_label(version) + " "@ + tool + " under any known Homebrew prefix: "@ + comma_list(
        candidates,
    )
}

/// The failure when no candidate path of a tool exists.
pub fn missing_tool_message(version: u8, tool: &str, candidates: &Vec<String>) -> (text: String)
    ensures
        text@ == missing_tool_text(version, tool@, path_views(candidates@)),
{
    let ghost views = path_views(candidates@);
    let mut text = String::from_str("unable to find ");
    let name = label(version);
    text.append(name.as_str());
    text.append(" ");
    text.append(tool);
    text.append(" under any known Homebrew prefix: ");
    let ghost head = text@;
    let mut k: usize = 0;
    assert(views.subrange(0, 0) =~= Seq::<Seq<char>>::empty());
    while k < candidates.len()
        invariant
            k <= candidates@.len(),
            views == path_views(candidates@),
            text@ == head + comma_list(views.subrange(0, k as int)),
        decreases candidates@.len() - k,
    {
        assert(views.subrange(0, k as int + 1).drop_last() =~= views.subrange(0, k as int));
        if k > 0 {
            text.append(", ");
        } else {
            assert(views.subrange(0, 1) =~= seq![views[0]]);
        }
        text.append(candidates[k].as_str());
        k = k + 1;
    }
    assert(views.subrange(0, k as int) =~= views);
    text
}

/// A seed of the corpus: its name, profile, bytes and path.
#[derive(Debug, Clone, PartialEq, Eq)]
pub struct QirSeedInput {
    pub name: String,
    pub profile: SeedProfile,
    pub bytes: Vec<u8>,
    pub path: String,
}

/// The failure for a seed file whose name announces no profile.
pub fn unknown_profile_message(path: &str) -> (text: String)
    ensures
        text@ == "seed file "@ + path@
            + " must start with base-v1-, adaptive-v1-, adaptive-v2-, or bare-roundtrip-"@,
{
    let mut text = String::from_str("seed file ");
    text.append(path);
    text.append(" must start with base-v1-, adaptive-v1-, adaptive-v2-, or bare-roundtrip-");
    text
}

/// Accepts a read seed file; an empty one is refused.
pub fn accept_seed(name: String, profile: SeedProfile, bytes: Vec<u8>, path: String) -> (r: Result<
    QirSeedInput,
    String,
>)
    ensures
        bytes@.len() == 0 ==> (r matches Err(text) && text@ == "seed file "@ + path@ + " is empty"@),
        bytes@.len() > 0 ==> (r matches Ok(seed) && seed.name@ == name@ && seed.profile == profile && seed.bytes@
            == bytes@ && seed.path@ == path@),
{
    if bytes.len() == 0 {
        let mut text = String::from_str("seed file ");
        text.append(path.as_str());
        text.append(" is empty");
        return Err(text);
    }
    Ok(QirSeedInput { name, profile, bytes, path })
}

/// The seeds of a corpus, which must hold at least one.
pub fn finish_seed_inputs(seeds: Vec<QirSeedInput>, corpus_dir: &str) -> (r: Result<Vec<QirSeedInput>, String>)
    ensures
        seeds@.len() == 0 ==> (r matches Err(text) && text@ == "no .seed inputs found under "@ + corpus_dir@),
        seeds@.len() > 0 ==> r == Ok::<Vec<QirSeedInput>, String>(seeds),
{
    if seeds.len() == 0 {
        let mut text = String::from_str("no .seed inputs found under ");
        text.append(corpus_dir);
        return Err(text);
    }
    Ok(seeds)
}

/// What a replay run exported and replayed, and where.
#[derive(Debug, Clone, PartialEq, Eq)]
pub struct ReplaySummary {
    pub exported_artifacts: usize,
    pub replay_steps: usize,
    pub output_dir: String,
}

/// The outcome of a replay run: at least one artifact must have been
/// exported.
pub fn finish_replay_matrix(exported: usize, steps: usize, corpus_dir: &str, output_dir: &str) -> (r: Result<
    ReplaySummary,
    String,
>)
    ensures
        exported == 0 ==> (r matches Err(text) && text@ == "no checked-valid seed artifacts were found under "@
            + corpus_dir@),
        exported > 0 ==> (r matches Ok(summary) && summary.exported_artifacts == exported && summary.replay_steps
            == steps && summary.output_dir@ == output_dir@),
{
    if exported == 0 {
        let mut text = String::from_str("no checked-valid seed artifacts were found under ");
        text.append(corpus_dir);
        return Err(text);
    }
    Ok(ReplaySummary { exported_artifacts: exported, replay_steps: steps, output_dir: String::from_str(output_dir) })
}

/// The line printed after a successful run.
pub fn summary_message(summary: &ReplaySummary) -> (text: String)
    ensures
        text@ == "exported "@ + decimal(summary.exported_artifacts as nat) + " valid artifacts across "@
            + decimal(summary.replay_steps as nat) + " replay steps into "@ + summary.output_dir@,
{
    let mut text = String::from_str("exported ");
    append_decimal(&mut text, summary.exported_artifacts as u64);
    text.append(" valid artifacts across ");
    append_decimal(&mut text, summary.replay_steps as u64);
    text.append(" replay steps into ");
    text.append(summary.output_dir.as_str());
    text
}

/// The failure when a seed's checked artifact cannot be generated.
pub fn generation_failure_message(name: &str, path: &str, error: &str) -> (text: String)
    ensures
        text@ == "checked artifact generation failed for "@ + name@ + " ("@ + path@ + "): "@ + error@,
{
    let mut text = String::from_str("checked artifact generation failed for ");
    text.append(name);
    text.append(" (");
    text.append(path);
    text.append("): ");
    text.append(error);
    text
}

/// A replay failure attributed to its seed.
pub fn seed_failure_message(name: &str, error: &str) -> (text: String)
    ensures
        text@ == "seed "@ + name@ + ": "@ + error@,
{
    let mut text = String::from_str("seed ");
    text.append(name);
    text.append(": ");
    text.append(error);
    text
}

/// The default output directory's name for a process and a time in
/// nanoseconds: `qir-matrix-<pid>-<nanos>`.
pub fn output_dir_name(pid: u32, nanos: u64) -> (name: String)
    ensures
        name@ == "qir-matrix-"@ + decimal(pid as nat) + "-"@ + decimal(nanos as nat),
{
    let mut name = String::from_str("qir-matrix-");
    append_decimal(&mut name, pid as u64);
    name.append("-");
    append_decimal(&mut name, nanos);
    name
}

} // verus!

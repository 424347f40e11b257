//! The QIR seed corpus: where it lives, which files in it are seeds, which
//! profile each seed targets, and where replayed artifacts are written.

use vstd::prelude::*;
use vstd::string::*;
use crate::text::{append_decimal, decimal};
use crate::toolchain::text_is;

verus! {

/// The QIR profile a seed is generated for, chosen by its file name.
#[derive(Clone, Copy, Debug, PartialEq, Eq, Structural)]
pub enum SeedProfile {
    BaseV1,
    AdaptiveV1,
    AdaptiveV2,
    BareRoundtrip,
}

pub open spec fn has_prefix(s: Seq<char>, prefix: Seq<char>) -> bool {
    prefix.len() <= s.len() && s.subrange(0, prefix.len() as int) == prefix
}

pub open spec fn has_suffix(s: Seq<char>, suffix: Seq<char>) -> bool {
    suffix.len() <= s.len() && s.subrange(s.len() - suffix.len(), s.len() as int) == suffix
}

/// Whether `text` begins with `prefix`.
pub fn starts_with_text(text: &str, prefix: &str) -> (b: bool)
    ensures
        b == has_prefix(text@, prefix@),
{
    let n = text.unicode_len();
    let m = prefix.unicode_len();
    if m > n {
        return false;
    }
    let head = text.substring_char(0, m);
    text_is(head, prefix)
}

/// Whether `text` ends with `suffix`.
pub fn ends_with_text(text: &str, suffix: &str) -> (b: bool)
    ensures
        b == has_suffix(text@, suffix@),
{
    let n = text.unicode_len();
    let m = suffix.unicode_len();
    if m > n {
        return false;
    }
    let tail = text.substring_char(n - m, n);
    text_is(tail, suffix)
}

/// The profile a seed file name announces by its prefix.
pub open spec fn seed_profile(file_name: Seq<char>) -> Option<SeedProfile> {
    if has_prefix(file_name, "base-v1-"@) {
        Some(SeedProfile::BaseV1)
    } else if has_prefix(file_name, "adaptive-v1-"@) {
        Some(SeedProfile::AdaptiveV1)
    } else if has_prefix(file_name, "adaptive-v2-"@) {
        Some(SeedProfile::AdaptiveV2)
    } else if has_prefix(file_name, "bare-roundtrip-"@) {
        Some(SeedProfile::BareRoundtrip)
    } else {
        None
    }
}

/// The profile a seed file name announces, if it starts with one of
/// `base-v1-`, `adaptive-v1-`, `adaptive-v2-` or `bare-roundtrip-`.
pub fn profile_from_seed_file_name(file_name: &str) -> (profile: Option<SeedProfile>)
    ensures
        profile == seed_profile(file_name@),
{
    if starts_with_text(file_name, "base-v1-") {
        Some(SeedProfile::BaseV1)
    } else if starts_with_text(file_name, "adaptive-v1-") {
        Some(SeedProfile::AdaptiveV1)
    } else if starts_with_text(file_name, "adaptive-v2-") {
        Some(SeedProfile::AdaptiveV2)
    } else if starts_with_text(file_name, "bare-roundtrip-") {
        Some(SeedProfile::BareRoundtrip)
    } else {
        None
    }
}

/// `file_name` with every trailing `.seed` removed
/// (`str::trim_end_matches(".seed")`).
pub open spec fn strip_seed_suffixes(file_name: Seq<char>) -> Seq<char>
    decreases file_name.len(),
{
    if file_name.len() >= 5 && has_suffix(file_name, ".seed"@) {
        strip_seed_suffixes(file_name.subrange(0, file_name.len() - 5))
    } else {
        file_name
    }
}

/// The name a seed is known by: its file name without trailing `.seed`.
pub fn seed_name(file_name: &str) -> (name: String)
    ensures
        name@ == strip_seed_suffixes(file_name@),
{
    proof { reveal_strlit(".seed"); }
    let mut rest = file_name;
    while rest.unicode_len() >= 5 && ends_with_text(rest, ".seed")
        invariant
            strip_seed_suffixes(rest@) == strip_seed_suffixes(file_name@),
        decreases rest@.len(),
    {
        let n = rest.unicode_len();
        rest = rest.substring_char(0, n - 5);
    }
    String::from_str(rest)
}

/// Whether the path of this file name has the extension `seed`: the text
/// after its last dot, where that dot does not open the name.
pub open spec fn is_seed_file_name(file_name: Seq<char>) -> bool {
    file_name.len() > 5 && has_suffix(file_name, ".seed"@)
}

/// Whether a corpus file with this name is a seed.
pub fn has_seed_extension(file_name: &str) -> (b: bool)
    ensures
        b == is_seed_file_name(file_name@),
{
    proof { reveal_strlit(".seed"); }
    file_name.unicode_len() > 5 && ends_with_text(file_name, ".seed")
}

/// What a file of the corpus directory is to the seed loader.
#[derive(Debug, PartialEq, Eq)]
pub enum SeedEntry {
    /// Not a seed: its extension is not `seed`.
    Skip,
    /// A seed whose name announces no known profile.
    UnknownProfile,
    /// A seed, with the name it is known by and its profile.
    Seed { name: String, profile: SeedProfile },
}

/// Sorts a corpus file by its name.
pub fn classify_seed_file(file_name: &str) -> (entry: SeedEntry)
    ensures
        !is_seed_file_name(file_name@) ==> entry == SeedEntry::Skip,
        is_seed_file_name(file_name@) && seed_profile(file_name@) is None ==> entry
            == SeedEntry::UnknownProfile,
        is_seed_file_name(file_name@) && seed_profile(file_name@) is Some ==> (entry matches SeedEntry::Seed {
            name,
            profile,
        } && name@ == strip_seed_suffixes(file_name@) && Some(profile) == seed_profile(
            file_name@,
        )),
{
    if !has_seed_extension(file_name) {
        return SeedEntry::Skip;
    }
    match profile_from_seed_file_name(file_name) {
        None => SeedEntry::UnknownProfile,
        Some(profile) => SeedEntry::Seed { name: seed_name(file_name), profile },
    }
}

/// `dir` joined with `name` as `PathBuf::join` does on Unix: an absolute
/// `name` replaces `dir`, and a separator is added unless `dir` is empty or
/// already ends with one.
pub open spec fn joined_path(dir: Seq<char>, name: Seq<char>) -> Seq<char> {
    if name.len() > 0 && name[0] == '/' {
        name
    } else if dir.len() == 0 || dir.last() == '/' {
        dir + name
    } else {
        dir + "/"@ + name
    }
}

/// Joins a directory and a name as `PathBuf::join` does on Unix.
pub fn join_path(dir: &str, name: &str) -> (path: String)
    ensures
        path@ == joined_path(dir@, name@),
{
    if name.unicode_len() > 0 && name.get_char(0) == '/' {
        return String::from_str(name);
    }
    let n = dir.unicode_len();
    let mut path = String::from_str(dir);
    if n > 0 && dir.get_char(n - 1) != '/' {
        path.append("/");
    }
    path.append(name);
    path
}

/// The seed corpus directory of a crate whose manifest lives in
/// `manifest_dir`: its `corpus/qir` subdirectory.
pub fn default_qir_corpus_dir(manifest_dir: &str) -> (path: String)
    ensures
        path@ == joined_path(manifest_dir@, "corpus/qir"@),
{
    proof { reveal_strlit("corpus/qir"); }
    join_path(manifest_dir, "corpus/qir")
}

/// The text artifact exported for a seed: `<seed>.ll`.
pub open spec fn artifact_file_name(seed: Seq<char>) -> Seq<char> {
    seed + ".ll"@
}

/// The three files one toolchain's replay of a seed writes: assembled
/// bitcode, its disassembly, and the bitcode assembled again from that.
pub open spec fn replay_file_names(seed: Seq<char>, version: nat) -> (Seq<char>, Seq<char>, Seq<
    char,
>) {
    let stem = seed + ".llvm"@ + decimal(version);
    (stem + ".bc"@, stem + ".ll"@, stem + ".rt.bc"@)
}

/// The text artifact exported for a seed.
pub fn artifact_file(seed: &str) -> (name: String)
    ensures
        name@ == artifact_file_name(seed@),
{
    let mut name = String::from_str(seed);
    name.append(".ll");
    name
}

/// The files one toolchain's replay of a seed writes.
pub fn replay_files(seed: &str, version: u8) -> (names: (String, String, String))
    ensures
        (names.0@, names.1@, names.2@) == replay_file_names(seed@, version as nat),
{
    let mut stem = String::from_str(seed);
    stem.append(".llvm");
    append_decimal(&mut stem, version as u64);
    let mut assembled = stem.clone();
    assembled.append(".bc");
    let mut disassembled = stem.clone();
    disassembled.append(".ll");
    let mut roundtrip = stem;
    roundtrip.append(".rt.bc");
    (assembled, disassembled, roundtrip)
}

} // verus!
